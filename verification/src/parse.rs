//! Parsers for the command line's numeric values: hexadecimal addresses and
//! `MAJOR.MINOR` engine versions.

use vstd::prelude::*;
use vstd::string::*;
use crate::text::{has_prefix, holds_char, law_split_once_at_first, split_once, split_once_spec, strip_prefix};
use vstd::arithmetic::power::pow;

verus! {

/// The value of a digit character: `0`-`9`, then `a`-`z` and `A`-`Z` from 10
/// on; any other character has no value (here -1).
pub open spec fn digit_value(c: char) -> int {
    if '0' <= c && c <= '9' {
        (c as int) - ('0' as int)
    } else if 'a' <= c && c <= 'z' {
        (c as int) - ('a' as int) + 10
    } else if 'A' <= c && c <= 'Z' {
        (c as int) - ('A' as int) + 10
    } else {
        -1
    }
}

/// `c` is a digit of base `radix`.
pub open spec fn is_digit_in(c: char, radix: int) -> bool {
    0 <= digit_value(c) < radix
}

/// The number that the digit string `d` writes in base `radix`.
pub open spec fn digits_value(d: Seq<char>, radix: int) -> int
    decreases d.len(),
{
    if d.len() == 0 {
        0
    } else {
        digits_value(d.drop_last(), radix) * radix + digit_value(d.last())
    }
}

/// The digits of an unsigned number's text: all but an optional leading `+`.
pub open spec fn unsigned_digits(s: Seq<char>) -> Seq<char> {
    if s.len() > 0 && s[0] == '+' {
        s.drop_first()
    } else {
        s
    }
}

/// `s` is the text of an unsigned number in base `radix` no larger than
/// `max`: an optional `+`, then at least one digit, nothing else.
pub open spec fn is_unsigned_text(s: Seq<char>, radix: int, max: int) -> bool {
    let d = unsigned_digits(s);
    &&& d.len() > 0
    &&& forall|i: int| 0 <= i < d.len() ==> is_digit_in(#[trigger] d[i], radix)
    &&& digits_value(d, radix) <= max
}

/// The number that the unsigned text `s` writes in base `radix`.
pub open spec fn unsigned_value(s: Seq<char>, radix: int) -> int {
    digits_value(unsigned_digits(s), radix)
}

/// The text that `u64::from_str_radix(digits, 16)` displays for its error
/// on `digits`.
pub uninterp spec fn hex_u64_error_text(digits: Seq<char>) -> Seq<char>;

/// The text that `u16::from_str(digits)` displays for its error on `digits`.
pub uninterp spec fn u16_error_text(digits: Seq<char>) -> Seq<char>;

/// The text that `{:?}` writes for the string slice `s`: `s` quoted, with
/// escapes.
pub uninterp spec fn str_debug_text(s: Seq<char>) -> Seq<char>;

/// Calls `u64::from_str_radix(digits, 16)` and gives its error as the text
/// that the error displays.  Claimed, from std's documentation: the call
/// succeeds exactly on an optional `+` followed by one or more hexadecimal
/// digits (either case) whose value fits in `u64`, and then returns that
/// value; the error text is left to a name.
#[verifier::external_body]
fn u64_from_hex_digits(digits: &str) -> (r: Result<u64, String>)
    ensures
        r is Ok <==> is_unsigned_text(digits@, 16, u64::MAX as int),
        r matches Ok(v) ==> v == unsigned_value(digits@, 16),
        r matches Err(m) ==> m@ == hex_u64_error_text(digits@),
{
    match u64::from_str_radix(digits, 16) {
        Ok(v) => Ok(v),
        Err(e) => Err(e.to_string()),
    }
}

/// Calls `str::parse::<u16>` on `digits` and gives its error as the text
/// that the error displays.  Claimed, from std's documentation: the call
/// succeeds exactly on an optional `+` followed by one or more decimal
/// digits whose value fits in `u16`, and then returns that value; the error
/// text is left to a name.
#[verifier::external_body]
fn u16_from_decimal(digits: &str) -> (r: Result<u16, String>)
    ensures
        r is Ok <==> is_unsigned_text(digits@, 10, u16::MAX as int),
        r matches Ok(v) ==> v == unsigned_value(digits@, 10),
        r matches Err(m) ==> m@ == u16_error_text(digits@),
{
    match digits.parse::<u16>() {
        Ok(v) => Ok(v),
        Err(e) => Err(e.to_string()),
    }
}

/// Writes `s` with `{:?}` formatting; the text is left to a name.
#[verifier::external_body]
fn debug_text(s: &str) -> (r: String)
    ensures
        r@ == str_debug_text(s@),
{
    format!("{s:?}")
}

/// `s` without a leading `0x` or `0X`.
pub open spec fn without_hex_prefix(s: Seq<char>) -> Seq<char> {
    if s.len() >= 2 && s[0] == '0' && (s[1] == 'x' || s[1] == 'X') {
        s.skip(2)
    } else {
        s
    }
}

/// The error text of `parse_hex_u64` on `s`.
pub open spec fn hex_error_message(s: Seq<char>) -> Seq<char> {
    "invalid hex u64 "@ + str_debug_text(s) + ": "@ + hex_u64_error_text(without_hex_prefix(s))
}

/// Parses a hexadecimal `u64` such as `0x7ff6a0000000`, with or without a
/// `0x`/`0X` prefix.
pub fn parse_hex_u64(s: &str) -> (r: Result<u64, String>)
    ensures
        r is Ok <==> is_unsigned_text(without_hex_prefix(s@), 16, u64::MAX as int),
        r matches Ok(v) ==> v == unsigned_value(without_hex_prefix(s@), 16),
        r matches Err(m) ==> m@ == hex_error_message(s@),
{
    proof {
        reveal_strlit("0x");
        reveal_strlit("0X");
    }
    let trimmed = match strip_prefix(s, "0x") {
        Some(t) => t,
        None => match strip_prefix(s, "0X") {
            Some(t) => t,
            None => s,
        },
    };
    proof {
        assert("0x"@ =~= seq!['0', 'x']);
        assert("0X"@ =~= seq!['0', 'X']);
        if has_prefix(s@, "0x"@) {
            assert(s@[0] == s@.subrange(0, 2)[0]);
            assert(s@[1] == s@.subrange(0, 2)[1]);
        }
        if has_prefix(s@, "0X"@) {
            assert(s@[0] == s@.subrange(0, 2)[0]);
            assert(s@[1] == s@.subrange(0, 2)[1]);
        }
        if s@.len() >= 2 && s@[0] == '0' && s@[1] == 'x' {
            assert(s@.subrange(0, 2) =~= "0x"@);
        }
        if s@.len() >= 2 && s@[0] == '0' && s@[1] == 'X' {
            assert(s@.subrange(0, 2) =~= "0X"@);
        }
        assert(trimmed@ == without_hex_prefix(s@));
    }
    match u64_from_hex_digits(trimmed) {
        Ok(v) => Ok(v),
        Err(e) => {
            let mut msg = "invalid hex u64 ".to_owned();
            let quoted = debug_text(s);
            msg.append(quoted.as_str());
            msg.append(": ");
            msg.append(e.as_str());
            Err(msg)
        },
    }
}

/// The result of `parse_engine_version` on `s`.
pub open spec fn engine_version_result(s: Seq<char>) -> Result<(int, int), Seq<char>> {
    match split_once_spec(s, '.') {
        None => Err("expected MAJOR.MINOR, got "@ + str_debug_text(s)),
        Some((major, minor)) => if !is_unsigned_text(major, 10, u16::MAX as int) {
            Err("major: "@ + u16_error_text(major))
        } else if !is_unsigned_text(minor, 10, u16::MAX as int) {
            Err("minor: "@ + u16_error_text(minor))
        } else {
            Ok((unsigned_value(major, 10), unsigned_value(minor, 10)))
        },
    }
}

/// Parses an engine version written `MAJOR.MINOR`, such as `5.4`: the text
/// is cut at its first `.` and each side read as a decimal `u16`.
pub fn parse_engine_version(s: &str) -> (r: Result<(u16, u16), String>)
    ensures
        match (r, engine_version_result(s@)) {
            (Ok((major, minor)), Ok((a, b))) => major == a && minor == b,
            (Err(m), Err(t)) => m@ == t,
            _ => false,
        },
{
    let (maj, min) = match split_once(s, '.') {
        Some(parts) => parts,
        None => {
            let mut msg = "expected MAJOR.MINOR, got ".to_owned();
            let quoted = debug_text(s);
            msg.append(quoted.as_str());
            return Err(msg);
        },
    };
    let major = match u16_from_decimal(maj) {
        Ok(v) => v,
        Err(e) => {
            let mut msg = "major: ".to_owned();
            msg.append(e.as_str());
            return Err(msg);
        },
    };
    let minor = match u16_from_decimal(min) {
        Ok(v) => v,
        Err(e) => {
            let mut msg = "minor: ".to_owned();
            msg.append(e.as_str());
            return Err(msg);
        },
    };
    Ok((major, minor))
}

/// A `0x` or `0X` prefix never changes what is parsed: the digits read are
/// those that follow it.
pub proof fn law_hex_prefix_optional(d: Seq<char>)
    ensures
        without_hex_prefix(seq!['0', 'x'] + d) == d,
        without_hex_prefix(seq!['0', 'X'] + d) == d,
{
    assert((seq!['0', 'x'] + d).skip(2) =~= d);
    assert((seq!['0', 'X'] + d).skip(2) =~= d);
}

/// Hexadecimal digits read the same in either case.
pub proof fn law_hex_digits_case_insensitive(c: char)
    requires
        'a' <= c <= 'f',
    ensures
        is_digit_in(c, 16),
        digit_value(c) == digit_value(((c as int) - 32) as char),
        is_digit_in(((c as int) - 32) as char, 16),
{
}

/// A digit string's value is positional: the leading digit counts
/// `radix^k` times, `k` being the number of digits after it.
pub proof fn law_digits_value_positional(c: char, s: Seq<char>, radix: int)
    ensures
        digits_value(seq![c] + s, radix) == digit_value(c) * pow(radix, s.len()) + digits_value(s, radix),
    decreases s.len(),
{
    let t = seq![c] + s;
    if s.len() == 0 {
        assert(t.drop_last() =~= Seq::<char>::empty());
        assert(pow(radix, 0) == 1) by {
            reveal(pow);
        }
        assert(digits_value(t, radix) == digits_value(t.drop_last(), radix) * radix + digit_value(t.last()));
        assert(digits_value(t.drop_last(), radix) == 0);
        assert(t.last() == c);
        assert(digits_value(s, radix) == 0);
        assert(digit_value(c) * 1 == digit_value(c));
    } else {
        let s1 = s.drop_last();
        assert(t.drop_last() =~= seq![c] + s1);
        assert(t.last() == s.last());
        law_digits_value_positional(c, s1, radix);
        assert(pow(radix, s.len()) == radix * pow(radix, s1.len())) by {
            reveal(pow);
        }
        let a = digit_value(c);
        let p = pow(radix, s1.len());
        let v = digits_value(s1, radix);
        assert((a * p + v) * radix == a * (radix * p) + v * radix) by (nonlinear_arith);
        assert(digits_value(t, radix) == digits_value(t.drop_last(), radix) * radix + digit_value(t.last()));
        assert(digits_value(s, radix) == v * radix + digit_value(s.last()));
    }
}

/// A decimal digit string: one or more of `0`-`9`.
pub open spec fn is_decimal_digits(s: Seq<char>) -> bool {
    s.len() > 0 && forall|i: int| 0 <= i < s.len() ==> '0' <= #[trigger] s[i] && s[i] <= '9'
}

/// `MAJOR.MINOR` with both parts decimal digit strings that fit in `u16`
/// parses to the values of the whole parts, and the text is cut at the dot.
pub proof fn law_engine_version_reads_both_parts(a: Seq<char>, b: Seq<char>)
    requires
        is_decimal_digits(a),
        is_decimal_digits(b),
        digits_value(a, 10) <= u16::MAX,
        digits_value(b, 10) <= u16::MAX,
    ensures
        engine_version_result(a + seq!['.'] + b) == Ok::<(int, int), Seq<char>>(
            (digits_value(a, 10), digits_value(b, 10)),
        ),
{
    assert(!holds_char(a, '.')) by {
        if holds_char(a, '.') {
            let i = choose|i: int| 0 <= i < a.len() && a[i] == '.';
            assert('0' <= a[i] && a[i] <= '9');
        }
    }
    law_split_once_at_first(a, b, '.');
    assert('0' <= a[0] && a[0] <= '9');
    assert('0' <= b[0] && b[0] <= '9');
    assert(unsigned_digits(a) == a);
    assert(unsigned_digits(b) == b);
    assert forall|i: int| 0 <= i < a.len() implies is_digit_in(#[trigger] a[i], 10) by {
        assert('0' <= a[i] && a[i] <= '9');
    }
    assert forall|i: int| 0 <= i < b.len() implies is_digit_in(#[trigger] b[i], 10) by {
        assert('0' <= b[i] && b[i] <= '9');
    }
}

/// The digits and their values: `0`-`9` count 0 to 9, `a`-`f` and `A`-`F`
/// count 10 to 15, and nothing else is a hexadecimal digit; only `0`-`9`
/// are decimal digits.
pub proof fn law_digit_table(c: char)
    ensures
        is_digit_in(c, 16) <==> (('0' <= c && c <= '9') || ('a' <= c && c <= 'f') || ('A' <= c
            && c <= 'F')),
        is_digit_in(c, 10) <==> ('0' <= c && c <= '9'),
        '0' <= c && c <= '9' ==> digit_value(c) == (c as int) - 48,
        'a' <= c && c <= 'f' ==> digit_value(c) == (c as int) - 87,
        'A' <= c && c <= 'F' ==> digit_value(c) == (c as int) - 55,
{
}

/// A single leading `+` is allowed and changes nothing; empty text, or a
/// `+` alone, is no number.
pub proof fn law_plus_sign_optional(d: Seq<char>, radix: int, max: int)
    requires
        d.len() > 0,
        d[0] != '+',
    ensures
        is_unsigned_text(seq!['+'] + d, radix, max) == is_unsigned_text(d, radix, max),
        unsigned_value(seq!['+'] + d, radix) == unsigned_value(d, radix),
        !is_unsigned_text(Seq::<char>::empty(), radix, max),
        !is_unsigned_text(seq!['+'], radix, max),
{
    assert((seq!['+'] + d).drop_first() =~= d);
    assert(seq!['+'].drop_first() =~= Seq::<char>::empty());
}

} // verus!
