//! Grapheme-cluster segmentation into a restartable segment sequence, and
//! terminal display width of a character from its East Asian Width class.

pub mod iterator;
pub mod segmenter;
pub mod width;

use crate::iterator::{texts, SegmentIterator};
use crate::segmenter::{graphemes, Segmenter};
use vstd::prelude::*;

verus! {

/// A fixed two-segment sequence, `Hello` then `World`.
pub fn test_segmenter() -> (r: SegmentIterator)
    ensures
        r.items() == seq!["Hello"@, "World"@],
        r.cursor() == 0,
{
    let segments = vec!["Hello".to_owned(), "World".to_owned()];
    proof {
        assert(texts(segments@) =~= seq!["Hello"@, "World"@]);
    }
    SegmentIterator::new(segments)
}

/// Segments `input` into grapheme clusters in one call. An unsupported `mode` falls back
/// to grapheme mode, so this never fails.
pub fn icu_segmenter(input: String, mode: Option<String>, locale: Option<String>) -> (r:
    SegmentIterator)
    ensures
        r.items() == graphemes(input@),
        r.cursor() == 0,
        r.items().flatten() == input@,
        forall|i: int| 0 <= i < r.items().len() ==> (#[trigger] r.items()[i]).len() > 0,
{
    let segmenter = match Segmenter::new(mode, locale) {
        Ok(seg) => seg,
        Err(_) => Segmenter::new(Some("grapheme".to_owned()), None).unwrap(),
    };
    segmenter.segment(input)
}

} // verus!
