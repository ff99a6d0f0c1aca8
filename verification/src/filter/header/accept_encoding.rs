//! The `Accept-Encoding` header.
use vstd::prelude::*;

use crate::text::{chars_eq_str, chars_of, pieces_view, pos_of, split_chars, split_spec, trim_chars, trim_spec};

verus! {

broadcast use vstd::string::group_string_axioms;

/// The coding that one entry of the header names: its text before any `;`
/// parameters, trimmed.
pub open spec fn coding_of(entry: Seq<char>) -> Seq<char> {
    trim_spec(entry.take(pos_of(entry, ';')))
}

/// Whether an `Accept-Encoding` value lists `gzip` among its comma-separated
/// codings.
pub fn accepts_gzip(header: &str) -> (r: bool)
    ensures
        r == exists|k: int|
            0 <= k < split_spec(header@, ',').len() && coding_of(
                #[trigger] split_spec(header@, ',')[k],
            ) == "gzip"@,
{
    let cs = chars_of(header);
    let entries = split_chars(cs.as_slice(), ',');
    let ghost ev = pieces_view(entries@);
    let mut k: usize = 0;
    while k < entries.len()
        invariant
            k <= entries.len(),
            ev == pieces_view(entries@),
            ev == split_spec(header@, ','),
            forall|m: int| 0 <= m < k ==> coding_of(#[trigger] ev[m]) != "gzip"@,
        decreases entries.len() - k,
    {
        let entry = &entries[k];
        let cut = crate::text::find_char(entry.as_slice(), 0, ';');
        assert(entry@.skip(0) == entry@);
        let first = crate::text::sub_chars(entry.as_slice(), 0, cut);
        let coding = trim_chars(first.as_slice());
        assert(ev[k as int] == entry@);
        if chars_eq_str(coding.as_slice(), "gzip") {
            return true;
        }
        k = k + 1;
    }
    false
}

} // verus!
