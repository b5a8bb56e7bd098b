//! Friendly display name for an executable: its version-info
//! `FileDescription` ("Windows Calculator") when it has one, else the
//! cleaned exe stem ("CalculatorApp").

use vstd::prelude::*;

use crate::model::{basename, basename_chars, exe_suffix};
use crate::text::{chars_of, lower_seq, slice_chars, string_of, trim, trim_chars};

verus! {

/// The exe name without any directory prefix and without one trailing
/// ".exe" (any ASCII case).
pub open spec fn stem_spec(exe_name: Seq<char>) -> Seq<char> {
    let b = basename(exe_name);
    if b.len() >= 4 && lower_seq(b.skip(b.len() - 4)) == exe_suffix() {
        b.take(b.len() - 4)
    } else {
        b
    }
}

/// Exe name minus any directory prefix and one trailing `.exe`.
pub fn stem(exe_name: &str) -> (r: String)
    ensures
        r@ == stem_spec(exe_name@),
{
    let v = chars_of(exe_name);
    let b = basename_chars(&v);
    let n = b.len();
    if n >= 4 && (b[n - 4] == '.') && (b[n - 3] == 'e' || b[n - 3] == 'E') && (b[n - 2] == 'x'
        || b[n - 2] == 'X') && (b[n - 1] == 'e' || b[n - 1] == 'E') {
        proof {
            let t = b@.skip(n - 4);
            assert(lower_seq(t) =~= exe_suffix());
        }
        string_of(&slice_chars(&b, 0, n - 4))
    } else {
        proof {
            if n >= 4 {
                let t = b@.skip(n - 4);
                if lower_seq(t) == exe_suffix() {
                    assert(lower_seq(t)[0] == '.');
                    assert(lower_seq(t)[1] == 'e');
                    assert(lower_seq(t)[2] == 'x');
                    assert(lower_seq(t)[3] == 'e');
                    assert(t[0] == b@[n - 4]);
                    assert(t[1] == b@[n - 3]);
                    assert(t[2] == b@[n - 2]);
                    assert(t[3] == b@[n - 1]);
                    assert(false);
                }
            }
        }
        string_of(&b)
    }
}

/// The first candidate description that is not blank, trimmed.
pub open spec fn first_description(cands: Seq<Seq<char>>) -> Option<Seq<char>>
    decreases cands.len(),
{
    if cands.len() == 0 {
        None
    } else if trim(cands[0]).len() > 0 {
        Some(trim(cands[0]))
    } else {
        first_description(cands.drop_first())
    }
}

/// Of the `FileDescription` strings found in an exe's version info (in the
/// order the language and code-page pairs are tried), the first that is not
/// blank, trimmed.
pub fn pick_description(cands: &Vec<String>) -> (r: Option<String>)
    ensures
        crate::model::opt_view(r) == first_description(crate::model::strs_view(cands@)),
{
    let ghost all = crate::model::strs_view(cands@);
    let mut i: usize = 0;
    assert(all.skip(0) =~= all);
    while i < cands.len()
        invariant
            i <= cands.len(),
            all == crate::model::strs_view(cands@),
            first_description(all) == first_description(all.skip(i as int)),
        decreases cands.len() - i,
    {
        let v = chars_of(cands[i].as_str());
        let t = trim_chars(&v);
        proof {
            assert(all.skip(i as int)[0] == cands@[i as int]@);
            assert(all.skip(i as int).drop_first() =~= all.skip(i + 1));
        }
        if t.len() > 0 {
            return Some(string_of(&t));
        }
        i = i + 1;
    }
    proof {
        assert(all.skip(i as int).len() == 0);
    }
    None
}

/// The name to show for an app: its description when it has one, else the
/// exe stem.
pub open spec fn display_name_spec(description: Option<Seq<char>>, exe_name: Seq<char>) -> Seq<
    char,
> {
    match description {
        Some(d) => d,
        None => stem_spec(exe_name),
    }
}

/// Best display name for a foreground exe, given the description read from
/// its version info, if any.
pub fn display_name(file_description: Option<String>, exe_name: &str) -> (r: String)
    ensures
        r@ == display_name_spec(crate::model::opt_view(file_description), exe_name@),
{
    match file_description {
        Some(d) => d,
        None => stem(exe_name),
    }
}

} // verus!
