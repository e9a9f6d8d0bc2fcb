use vstd::prelude::*;
use vstd::string::StringExecFns;

use crate::text::{chars_of, copy_chars, string_from_chars, trim, trim_chars};

verus! {

/// How a `--max-alloc` value is shown: the number with its unit (`GB`, `MB`, `KB`, or `B` for a
/// value without a unit suffix).
pub open spec fn max_alloc_label(value: Seq<char>) -> Seq<char> {
    let t = trim(value);
    if t.len() > 0 && (t.last() == 'G' || t.last() == 'g') {
        trim(t.drop_last()) + " GB"@
    } else if t.len() > 0 && (t.last() == 'M' || t.last() == 'm') {
        trim(t.drop_last()) + " MB"@
    } else if t.len() > 0 && (t.last() == 'K' || t.last() == 'k') {
        trim(t.drop_last()) + " KB"@
    } else {
        t + " B"@
    }
}

pub fn format_max_alloc(value: &str) -> (r: String)
    ensures
        r@ == max_alloc_label(value@),
{
    let t = trim_chars(chars_of(value).as_slice());
    let n = t.len();
    let unit = if n > 0 && (t[n - 1] == 'G' || t[n - 1] == 'g') {
        " GB"
    } else if n > 0 && (t[n - 1] == 'M' || t[n - 1] == 'm') {
        " MB"
    } else if n > 0 && (t[n - 1] == 'K' || t[n - 1] == 'k') {
        " KB"
    } else {
        let mut out = string_from_chars(t.as_slice());
        out.append(" B");
        return out;
    };
    let number = copy_chars(t.as_slice(), 0, n - 1);
    assert(number@ =~= t@.drop_last());
    let number = trim_chars(number.as_slice());
    let mut out = string_from_chars(number.as_slice());
    out.append(unit);
    out
}

} // verus!
