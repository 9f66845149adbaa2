//! Which dump format a file name asks for, decided by its extension.

use vstd::prelude::*;
use crate::text::{ends_with, has_suffix};

verus! {

/// The formats a dump can be written in.
#[derive(Clone, Copy, Debug, PartialEq, Eq, Structural)]
pub enum OutputFormat {
    /// Reflection data as JSON (`.jmap`).
    Jmap,
    /// Reflection data as gzip-compressed JSON (`.jmap.gz`).
    JmapGz,
    /// The `.usmap` property schema.
    Usmap,
    /// A C++ header (`.h` or `.hpp`).
    Header,
}

/// The formats an existing dump can be read from.
#[derive(Clone, Copy, Debug, PartialEq, Eq, Structural)]
pub enum InputFormat {
    /// Reflection data as JSON (`.jmap`).
    Jmap,
    /// Reflection data as gzip-compressed JSON (`.jmap.gz`).
    JmapGz,
}

/// The output format that a file name selects.
pub open spec fn spec_output_format(name: Seq<char>) -> Option<OutputFormat> {
    if has_suffix(name, ".jmap"@) {
        Some(OutputFormat::Jmap)
    } else if has_suffix(name, ".jmap.gz"@) {
        Some(OutputFormat::JmapGz)
    } else if has_suffix(name, ".usmap"@) {
        Some(OutputFormat::Usmap)
    } else if has_suffix(name, ".h"@) || has_suffix(name, ".hpp"@) {
        Some(OutputFormat::Header)
    } else {
        None
    }
}

/// The input format that a file name selects.
pub open spec fn spec_input_format(name: Seq<char>) -> Option<InputFormat> {
    if has_suffix(name, ".jmap.gz"@) {
        Some(InputFormat::JmapGz)
    } else if has_suffix(name, ".jmap"@) {
        Some(InputFormat::Jmap)
    } else {
        None
    }
}

/// The format to write a dump to the file `file_name` in: `.jmap`,
/// `.jmap.gz`, `.usmap`, or `.h`/`.hpp`; none for any other name.
pub fn output_format(file_name: &str) -> (r: Option<OutputFormat>)
    ensures
        r == spec_output_format(file_name@),
{
    if ends_with(file_name, ".jmap") {
        Some(OutputFormat::Jmap)
    } else if ends_with(file_name, ".jmap.gz") {
        Some(OutputFormat::JmapGz)
    } else if ends_with(file_name, ".usmap") {
        Some(OutputFormat::Usmap)
    } else if ends_with(file_name, ".h") || ends_with(file_name, ".hpp") {
        Some(OutputFormat::Header)
    } else {
        None
    }
}

/// The format to read an existing dump from the file `file_name` in:
/// `.jmap.gz` or `.jmap`; none for any other name.
pub fn input_format(file_name: &str) -> (r: Option<InputFormat>)
    ensures
        r == spec_input_format(file_name@),
{
    if ends_with(file_name, ".jmap.gz") {
        Some(InputFormat::JmapGz)
    } else if ends_with(file_name, ".jmap") {
        Some(InputFormat::Jmap)
    } else {
        None
    }
}

/// A dump written as `.jmap` or `.jmap.gz` can be read back from the same
/// file name in the same format, and every readable name is one that a dump
/// can be written to.
pub proof fn law_written_dumps_read_back(name: Seq<char>)
    ensures
        spec_output_format(name) == Some(OutputFormat::Jmap) <==> spec_input_format(name) == Some(InputFormat::Jmap),
        spec_output_format(name) == Some(OutputFormat::JmapGz) <==> spec_input_format(name) == Some(InputFormat::JmapGz),
{
    reveal_strlit(".jmap");
    reveal_strlit(".jmap.gz");
    if has_suffix(name, ".jmap"@) && has_suffix(name, ".jmap.gz"@) {
        let a = name.subrange(name.len() - 5, name.len() as int);
        let b = name.subrange(name.len() - 8, name.len() as int);
        assert(a[4] == name[name.len() - 1]);
        assert(b[7] == name[name.len() - 1]);
        assert(".jmap"@[4] == 'p');
        assert(".jmap.gz"@[7] == 'z');
    }
}

/// Each extension selects its format, whatever the file name before it.
pub proof fn law_extension_selects_format(stem: Seq<char>)
    ensures
        spec_output_format(stem + seq!['.', 'j', 'm', 'a', 'p']) == Some(OutputFormat::Jmap),
        spec_output_format(stem + seq!['.', 'j', 'm', 'a', 'p', '.', 'g', 'z']) == Some(
            OutputFormat::JmapGz,
        ),
        spec_output_format(stem + seq!['.', 'u', 's', 'm', 'a', 'p']) == Some(OutputFormat::Usmap),
        spec_output_format(stem + seq!['.', 'h']) == Some(OutputFormat::Header),
        spec_output_format(stem + seq!['.', 'h', 'p', 'p']) == Some(OutputFormat::Header),
        spec_input_format(stem + seq!['.', 'j', 'm', 'a', 'p']) == Some(InputFormat::Jmap),
        spec_input_format(stem + seq!['.', 'j', 'm', 'a', 'p', '.', 'g', 'z']) == Some(
            InputFormat::JmapGz,
        ),
{
    reveal_strlit(".jmap");
    reveal_strlit(".jmap.gz");
    reveal_strlit(".usmap");
    reveal_strlit(".h");
    reveal_strlit(".hpp");
    let e1 = seq!['.', 'j', 'm', 'a', 'p'];
    let e2 = seq!['.', 'j', 'm', 'a', 'p', '.', 'g', 'z'];
    let e3 = seq!['.', 'u', 's', 'm', 'a', 'p'];
    let e4 = seq!['.', 'h'];
    let e5 = seq!['.', 'h', 'p', 'p'];
    assert(".jmap"@ =~= e1);
    assert(".jmap.gz"@ =~= e2);
    assert(".usmap"@ =~= e3);
    assert(".h"@ =~= e4);
    assert(".hpp"@ =~= e5);
    let s1 = stem + e1;
    let s2 = stem + e2;
    let s3 = stem + e3;
    let s4 = stem + e4;
    let s5 = stem + e5;
    assert(s1.subrange(s1.len() - 5, s1.len() as int) =~= e1);
    assert(s2.subrange(s2.len() - 8, s2.len() as int) =~= e2);
    assert(s3.subrange(s3.len() - 6, s3.len() as int) =~= e3);
    assert(s4.subrange(s4.len() - 2, s4.len() as int) =~= e4);
    assert(s5.subrange(s5.len() - 4, s5.len() as int) =~= e5);
    // the names differ from the earlier extensions at a telling position
    assert(s2.subrange(s2.len() - 5, s2.len() as int)[4] == 'z');
    assert(!has_suffix(s1, e2)) by {
        if has_suffix(s1, e2) {
            assert(s1.subrange(s1.len() - 8, s1.len() as int)[7] == s1[s1.len() - 1]);
        }
    }
    assert(s3.subrange(s3.len() - 5, s3.len() as int)[1] == 's');
    assert(!has_suffix(s3, e2)) by {
        if has_suffix(s3, e2) {
            assert(s3.subrange(s3.len() - 8, s3.len() as int)[7] == s3[s3.len() - 1]);
        }
    }
    assert(!has_suffix(s4, e1)) by {
        if has_suffix(s4, e1) {
            assert(s4.subrange(s4.len() - 5, s4.len() as int)[4] == s4[s4.len() - 1]);
        }
    }
    assert(!has_suffix(s4, e2)) by {
        if has_suffix(s4, e2) {
            assert(s4.subrange(s4.len() - 8, s4.len() as int)[7] == s4[s4.len() - 1]);
        }
    }
    assert(!has_suffix(s4, e3)) by {
        if has_suffix(s4, e3) {
            assert(s4.subrange(s4.len() - 6, s4.len() as int)[5] == s4[s4.len() - 1]);
        }
    }
    assert(!has_suffix(s5, e1)) by {
        if has_suffix(s5, e1) {
            assert(s5.subrange(s5.len() - 5, s5.len() as int)[3] == s5[s5.len() - 2]);
        }
    }
    assert(!has_suffix(s5, e2)) by {
        if has_suffix(s5, e2) {
            assert(s5.subrange(s5.len() - 8, s5.len() as int)[7] == s5[s5.len() - 1]);
        }
    }
    assert(!has_suffix(s5, e3)) by {
        if has_suffix(s5, e3) {
            assert(s5.subrange(s5.len() - 6, s5.len() as int)[4] == s5[s5.len() - 2]);
        }
    }
    assert(!has_suffix(s5, e4)) by {
        if has_suffix(s5, e4) {
            assert(s5.subrange(s5.len() - 2, s5.len() as int)[1] == s5[s5.len() - 1]);
        }
    }
}

} // verus!
