//! Document positions: a row index paired with a grapheme-cluster column.
use vstd::prelude::*;

verus! {

/// A position in the document: `(row, cluster column)`.
pub type PosInDocument = (usize, usize);

/// Lexicographic order on positions: earlier row, or same row and earlier
/// column.
pub open spec fn is_before_spec(a: PosInDocument, b: PosInDocument) -> bool {
    a.0 < b.0 || (a.0 == b.0 && a.1 < b.1)
}

/// The two positions in document order: the earlier first.
pub open spec fn ordered_pair(a: PosInDocument, b: PosInDocument) -> (PosInDocument, PosInDocument) {
    if is_before_spec(b, a) {
        (b, a)
    } else {
        (a, b)
    }
}

/// Selection ordering: which of the two positions is the anchor and which
/// the cursor never affects the reported span.
pub proof fn lemma_ordered_pair_symmetric(a: PosInDocument, b: PosInDocument)
    ensures
        ordered_pair(a, b) == ordered_pair(b, a),
{
}

pub trait PosInDocumentExt {
    spec fn before_spec(&self, other: &Self) -> bool;

    /// Whether this position lies strictly before `other`.
    fn is_before(&self, other: &Self) -> (r: bool)
        ensures
            r == self.before_spec(other),
    ;
}

impl PosInDocumentExt for (usize, usize) {
    open spec fn before_spec(&self, other: &Self) -> bool {
        is_before_spec(*self, *other)
    }

    fn is_before(&self, other: &Self) -> (r: bool) {
        self.0 < other.0 || (self.0 == other.0 && self.1 < other.1)
    }
}

} // verus!
