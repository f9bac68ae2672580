//! The two Unicode facts the document model rests on: how a string splits
//! into grapheme clusters, and how many terminal columns a cluster occupies.
//! Both come from outside crates and are named by uninterpreted functions;
//! everything else about rows is proved.
use vstd::prelude::*;

verus! {

/// The extended grapheme clusters of a string, in order.
pub uninterp spec fn clusters_of(s: Seq<char>) -> Seq<Seq<char>>;

/// The display width of a string, in terminal columns.
pub uninterp spec fn width_of(s: Seq<char>) -> usize;

/// Relies on unicode_segmentation::UnicodeSegmentation::graphemes (UAX #29,
/// extended clusters): it yields consecutive, non-empty substrings of the
/// input whose concatenation is the whole input.
#[verifier::external_body]
pub fn segment_clusters(s: &str) -> (r: Vec<String>)
    ensures
        r.deep_view() == clusters_of(s@),
        r.deep_view().flatten() == s@,
        forall|i: int| 0 <= i < r.deep_view().len() ==> #[trigger] r.deep_view()[i].len() >= 1,
{
    unicode_segmentation::UnicodeSegmentation::graphemes(s, true)
        .map(|g| g.to_string())
        .collect()
}

/// Relies on unicode_width::UnicodeWidthStr::width: the display width of a
/// string, a function of its characters alone.
#[verifier::external_body]
pub fn cluster_width(s: &str) -> (w: usize)
    ensures
        w == width_of(s@),
{
    unicode_width::UnicodeWidthStr::width(s)
}

} // verus!
