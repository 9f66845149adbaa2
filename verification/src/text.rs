//! Character-level operations on string slices, each proved against a
//! direct statement over the slice's characters.

use vstd::prelude::*;
use vstd::string::*;

verus! {

/// `s` ends with the characters of `suffix`.
pub open spec fn has_suffix(s: Seq<char>, suffix: Seq<char>) -> bool {
    suffix.len() <= s.len() && s.subrange(s.len() - suffix.len(), s.len() as int) == suffix
}

/// `s` starts with the characters of `prefix`.
pub open spec fn has_prefix(s: Seq<char>, prefix: Seq<char>) -> bool {
    prefix.len() <= s.len() && s.subrange(0, prefix.len() as int) == prefix
}

/// `i` is the position of the first `c` in `s`.
pub open spec fn is_first_index_of(s: Seq<char>, c: char, i: int) -> bool {
    &&& 0 <= i < s.len()
    &&& s[i] == c
    &&& forall|j: int| 0 <= j < i ==> s[j] != c
}

/// `s` holds `c` somewhere.
pub open spec fn holds_char(s: Seq<char>, c: char) -> bool {
    exists|i: int| 0 <= i < s.len() && s[i] == c
}

/// `s` cut around its first `c`: the characters before it and those after
/// it, or nothing where `s` holds no `c`.
pub open spec fn split_once_spec(s: Seq<char>, c: char) -> Option<(Seq<char>, Seq<char>)> {
    if holds_char(s, c) {
        let i = choose|i: int| is_first_index_of(s, c, i);
        Some((s.take(i), s.skip(i + 1)))
    } else {
        None
    }
}

/// The characters that end an object path's components.
pub open spec fn is_path_separator(c: char) -> bool {
    c == '/' || c == '.' || c == ':'
}

/// Where the last component of a path begins: just after its last
/// separator, or at 0 where it has none.
pub open spec fn last_component_start(s: Seq<char>) -> int
    decreases s.len(),
{
    if s.len() == 0 {
        0
    } else if is_path_separator(s.last()) {
        s.len() as int
    } else {
        last_component_start(s.drop_last())
    }
}

/// The last component of an object path: what follows its last `/`, `.`
/// or `:` (the whole path where it has none; empty where it ends in one).
pub open spec fn spec_obj_name(s: Seq<char>) -> Seq<char> {
    s.subrange(last_component_start(s), s.len() as int)
}

/// Whether `s` ends with `suffix`.
pub fn ends_with(s: &str, suffix: &str) -> (b: bool)
    ensures
        b == has_suffix(s@, suffix@),
{
    let n = s.unicode_len();
    let m = suffix.unicode_len();
    if m > n {
        return false;
    }
    let off = n - m;
    let mut i: usize = 0;
    while i < m
        invariant
            n == s@.len(),
            m == suffix@.len(),
            off + m == n,
            i <= m,
            forall|j: int| 0 <= j < i ==> s@[off + j] == suffix@[j],
        decreases m - i,
    {
        if s.get_char(off + i) != suffix.get_char(i) {
            assert(s@.subrange(off as int, n as int)[i as int] != suffix@[i as int]);
            return false;
        }
        i = i + 1;
    }
    assert(s@.subrange(off as int, n as int) =~= suffix@);
    true
}

/// `s` without its leading `prefix`, where it starts with it.
pub fn strip_prefix<'a>(s: &'a str, prefix: &str) -> (r: Option<&'a str>)
    ensures
        r is Some <==> has_prefix(s@, prefix@),
        r matches Some(t) ==> t@ == s@.skip(prefix@.len() as int),
{
    let n = s.unicode_len();
    let m = prefix.unicode_len();
    if m > n {
        return None;
    }
    let mut i: usize = 0;
    while i < m
        invariant
            n == s@.len(),
            m == prefix@.len(),
            m <= n,
            i <= m,
            forall|j: int| 0 <= j < i ==> s@[j] == prefix@[j],
        decreases m - i,
    {
        if s.get_char(i) != prefix.get_char(i) {
            assert(s@.subrange(0, m as int)[i as int] != prefix@[i as int]);
            return None;
        }
        i = i + 1;
    }
    assert(s@.subrange(0, m as int) =~= prefix@);
    let t = s.substring_char(m, n);
    assert(t@ =~= s@.skip(m as int));
    Some(t)
}

/// `s` cut around its first `c`: the text before and the text after it.
pub fn split_once<'a>(s: &'a str, c: char) -> (r: Option<(&'a str, &'a str)>)
    ensures
        match r {
            Some((a, b)) => split_once_spec(s@, c) == Some((a@, b@)),
            None => split_once_spec(s@, c) is None,
        },
{
    let n = s.unicode_len();
    let mut i: usize = 0;
    while i < n
        invariant
            n == s@.len(),
            i <= n,
            forall|j: int| 0 <= j < i ==> s@[j] != c,
        decreases n - i,
    {
        if s.get_char(i) == c {
            let a = s.substring_char(0, i);
            let b = s.substring_char(i + 1, n);
            proof {
                assert(is_first_index_of(s@, c, i as int));
                assert(holds_char(s@, c));
                let k = choose|k: int| is_first_index_of(s@, c, k);
                assert(k == i) by {
                    if k < i {
                        assert(s@[k] != c);
                    } else if i < k {
                        assert(s@[i as int] != c);
                    }
                }
                assert(a@ =~= s@.take(i as int));
                assert(b@ =~= s@.skip(i + 1));
            }
            return Some((a, b));
        }
        i = i + 1;
    }
    None
}

/// The last component of an object path, e.g. `Actor` for
/// `/Script/Engine.Actor`.
pub fn obj_name(path: &str) -> (r: &str)
    ensures
        r@ == spec_obj_name(path@),
{
    let n = path.unicode_len();
    let mut start: usize = 0;
    let mut i: usize = 0;
    while i < n
        invariant
            n == path@.len(),
            i <= n,
            start <= i,
            start == last_component_start(path@.take(i as int)),
        decreases n - i,
    {
        let c = path.get_char(i);
        proof {
            assert(path@.take(i + 1).drop_last() =~= path@.take(i as int));
        }
        if c == '/' || c == '.' || c == ':' {
            start = i + 1;
        }
        i = i + 1;
    }
    assert(path@.take(n as int) =~= path@);
    path.substring_char(start, n)
}


/// Cutting at the first `c`: text free of `c`, then `c`, then anything, is
/// cut into exactly that text and that anything.
pub proof fn law_split_once_at_first(a: Seq<char>, b: Seq<char>, c: char)
    requires
        !holds_char(a, c),
    ensures
        split_once_spec(a + seq![c] + b, c) == Some((a, b)),
{
    let s = a + seq![c] + b;
    let i = a.len() as int;
    assert(s[i] == c);
    assert forall|j: int| 0 <= j < i implies s[j] != c by {
        assert(s[j] == a[j]);
    }
    assert(is_first_index_of(s, c, i));
    assert(holds_char(s, c));
    let k = choose|k: int| is_first_index_of(s, c, k);
    assert(k == i) by {
        if k < i {
            assert(s[k] == a[k]);
        } else if i < k {
            assert(s[i] != c);
        }
    }
    assert(s.take(i) =~= a);
    assert(s.skip(i + 1) =~= b);
}

/// The last component holds no separator, and it is preceded by one unless
/// it is the whole path.
pub proof fn law_obj_name_is_last_component(s: Seq<char>)
    ensures
        0 <= last_component_start(s) <= s.len(),
        forall|i: int| last_component_start(s) <= i < s.len() ==> !is_path_separator(#[trigger] s[i]),
        last_component_start(s) > 0 ==> is_path_separator(s[last_component_start(s) - 1]),
    decreases s.len(),
{
    if s.len() > 0 && !is_path_separator(s.last()) {
        law_obj_name_is_last_component(s.drop_last());
        assert forall|i: int| last_component_start(s) <= i < s.len() implies !is_path_separator(
            #[trigger] s[i],
        ) by {
            if i < s.len() - 1 {
                assert(s[i] == s.drop_last()[i]);
            }
        }
    }
}

/// A path with no separator starts its last component at 0.
proof fn lemma_plain_path_starts_at_zero(s: Seq<char>)
    requires
        forall|i: int| 0 <= i < s.len() ==> !is_path_separator(#[trigger] s[i]),
    ensures
        last_component_start(s) == 0,
    decreases s.len(),
{
    if s.len() > 0 {
        assert(!is_path_separator(s[s.len() - 1]));
        assert forall|i: int| 0 <= i < s.drop_last().len() implies !is_path_separator(
            #[trigger] s.drop_last()[i],
        ) by {
            assert(s.drop_last()[i] == s[i]);
        }
        lemma_plain_path_starts_at_zero(s.drop_last());
    }
}

/// The short name of a short name is itself.
pub proof fn law_obj_name_idempotent(s: Seq<char>)
    ensures
        spec_obj_name(spec_obj_name(s)) == spec_obj_name(s),
{
    law_obj_name_is_last_component(s);
    let t = spec_obj_name(s);
    assert forall|i: int| 0 <= i < t.len() implies !is_path_separator(#[trigger] t[i]) by {
        assert(t[i] == s[last_component_start(s) + i]);
    }
    lemma_plain_path_starts_at_zero(t);
    assert(t.subrange(0, t.len() as int) =~= t);
}

/// Text with none of `/`, `.`, `:` appended to a path leaves that path's
/// component start unchanged.
proof fn lemma_start_past_plain_tail(t: Seq<char>, name: Seq<char>)
    requires
        forall|i: int|
            0 <= i < name.len() ==> #[trigger] name[i] != '/' && name[i] != '.' && name[i] != ':',
    ensures
        last_component_start(t + name) == last_component_start(t),
    decreases name.len(),
{
    if name.len() == 0 {
        assert(t + name =~= t);
    } else {
        let s = t + name;
        assert(s.last() == name[name.len() - 1]);
        assert(s.drop_last() =~= t + name.drop_last());
        assert forall|i: int| 0 <= i < name.drop_last().len() implies #[trigger] name.drop_last()[i]
            != '/' && name.drop_last()[i] != '.' && name.drop_last()[i] != ':' by {
            assert(name.drop_last()[i] == name[i]);
        }
        lemma_start_past_plain_tail(t, name.drop_last());
    }
}

/// The short name is everything after the last `/`, `.` or `:`: any other
/// character, `_` included, stays in it, and a name holding none of the
/// three is its own short name.
pub proof fn law_short_name_follows_last_separator(prefix: Seq<char>, sep: char, name: Seq<char>)
    requires
        sep == '/' || sep == '.' || sep == ':',
        forall|i: int|
            0 <= i < name.len() ==> #[trigger] name[i] != '/' && name[i] != '.' && name[i] != ':',
    ensures
        spec_obj_name(prefix + seq![sep] + name) == name,
        spec_obj_name(name) == name,
{
    let t = prefix + seq![sep];
    assert(t.drop_last() =~= prefix);
    assert(last_component_start(t) == t.len());
    lemma_start_past_plain_tail(t, name);
    let s = t + name;
    assert(s.subrange(t.len() as int, s.len() as int) =~= name);
    let e = Seq::<char>::empty();
    lemma_start_past_plain_tail(e, name);
    assert(e + name =~= name);
    assert(name.subrange(0, name.len() as int) =~= name);
}

} // verus!
