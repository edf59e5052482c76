//! Timecode resolution and preview-extraction planning.
//!
//! The library derives a video's frame rate from probe metadata, scans an
//! editorial XML document for raw timecode tokens, converts those tokens to
//! wall-clock runtime strings under the resolved rate's timebase, and plans
//! one frame-extraction job per converted timecode.

pub mod convert;
pub mod dispatch;
pub mod errors;
pub mod pipeline;
pub mod probe;
pub mod rate;
pub mod scanner;

use vstd::prelude::*;

verus! {

/// The views of a sequence of strings.
pub open spec fn string_views(v: Seq<String>) -> Seq<Seq<char>> {
    v.map_values(|s: String| s@)
}

/// Compares two strings character by character.
pub fn str_eq(a: &str, b: &str) -> (r: bool)
    ensures
        r == (a@ == b@),
{
    let alen = a.unicode_len();
    let blen = b.unicode_len();
    if alen != blen {
        return false;
    }
    let mut i: usize = 0;
    while i < alen
        invariant
            0 <= i <= alen,
            alen == a@.len() && alen == b@.len(),
            forall|k: int| 0 <= k < i ==> a@[k] == b@[k],
        decreases alen - i,
    {
        if a.get_char(i) != b.get_char(i) {
            return false;
        }
        i = i + 1;
    }
    proof {
        assert(a@ =~= b@);
    }
    true
}

} // verus!
