//! One line of the document, stored as its sequence of grapheme clusters
//! together with a table of cumulative display columns. The cluster index is
//! the only position unit this type exposes; display columns appear only
//! through `mono_col_at` / `char_idx_at`.
use vstd::prelude::*;

use crate::editor::unicode::{cluster_width, clusters_of, segment_clusters, width_of};

verus! {

/// Addition of display widths, saturating at the machine limit.
pub open spec fn sat_add(a: usize, w: usize) -> usize {
    if a + w > usize::MAX {
        usize::MAX
    } else {
        (a + w) as usize
    }
}

/// The total display width of a sequence of clusters, accumulated with
/// saturation.
pub open spec fn cum_width(cs: Seq<Seq<char>>) -> usize
    decreases cs.len(),
{
    if cs.len() == 0 {
        0
    } else {
        sat_add(cum_width(cs.drop_last()), width_of(cs.last()))
    }
}

/// The display column at which cluster `i` starts; saturates to the row's
/// total width for `i` past the end.
pub open spec fn col_of(cs: Seq<Seq<char>>, i: int) -> usize {
    cum_width(cs.take(if i <= cs.len() { i } else { cs.len() as int }))
}

/// The first cluster index whose starting column is at least `col`, or
/// `cs.len() + 1` when even the end of the row lies left of `col`.
pub open spec fn char_idx_of(cs: Seq<Seq<char>>, col: usize) -> int
    decreases cs.len(),
{
    if col == 0 {
        0
    } else if cs.len() == 0 {
        1
    } else if width_of(cs.first()) >= col {
        1
    } else {
        1 + char_idx_of(cs.drop_first(), (col - width_of(cs.first())) as usize)
    }
}

#[derive(Debug, PartialEq)]
pub struct Row {
    clusters: Vec<String>,
    cols: Vec<usize>,
}

impl View for Row {
    type V = Seq<Seq<char>>;

    closed spec fn view(&self) -> Seq<Seq<char>> {
        self.clusters.deep_view()
    }
}

impl DeepView for Row {
    type V = Seq<Seq<char>>;

    open spec fn deep_view(&self) -> Seq<Seq<char>> {
        self.view()
    }
}

impl Clone for Row {
    fn clone(&self) -> (r: Self)
        ensures
            r@ == self@,
            r.wf() == self.wf(),
    {
        let mut clusters: Vec<String> = Vec::new();
        let mut cols: Vec<usize> = Vec::new();
        let mut i: usize = 0;
        while i < self.clusters.len()
            invariant
                i <= self.clusters@.len(),
                clusters@.len() == i,
                forall|j: int| 0 <= j < i ==> clusters@[j] == self.clusters@[j],
            decreases self.clusters@.len() - i,
        {
            clusters.push(self.clusters[i].clone());
            i = i + 1;
        }
        let mut k: usize = 0;
        while k < self.cols.len()
            invariant
                k <= self.cols@.len(),
                cols@.len() == k,
                forall|j: int| 0 <= j < k ==> cols@[j] == self.cols@[j],
            decreases self.cols@.len() - k,
        {
            cols.push(self.cols[k]);
            k = k + 1;
        }
        let r = Row { clusters, cols };
        proof {
            assert(r.clusters@ =~= self.clusters@);
            assert(r.cols@ =~= self.cols@);
            assert(r.clusters.deep_view() =~~= self.clusters.deep_view());
        }
        r
    }
}

impl Row {
    /// The private tie between the cluster list and the column table.
    pub closed spec fn wf(&self) -> bool {
        &&& self.cols@.len() == self@.len() + 1
        &&& self.cols@[0] == 0
        &&& forall|i: int|
            0 <= i < self@.len() ==> self.cols@[i + 1] == sat_add(
                self.cols@[i],
                width_of(#[trigger] self@[i]),
            )
        &&& forall|i: int| 0 <= i < self@.len() ==> (#[trigger] self@[i]).len() >= 1
    }

    proof fn lemma_cols_are_cum_width(&self, i: int)
        requires
            self.wf(),
            0 <= i <= self@.len(),
        ensures
            self.cols@[i] == cum_width(self@.take(i)),
        decreases i,
    {
        if i == 0 {
            assert(self@.take(0) =~= Seq::<Seq<char>>::empty());
        } else {
            self.lemma_cols_are_cum_width(i - 1);
            assert(self@.take(i).drop_last() =~= self@.take(i - 1));
            assert(self@.take(i).last() == self@[i - 1]);
        }
    }

    fn from_clusters(clusters: Vec<String>) -> (r: Row)
        requires
            forall|i: int|
                0 <= i < clusters.deep_view().len() ==> (#[trigger] clusters.deep_view()[i]).len()
                    >= 1,
        ensures
            r@ == clusters.deep_view(),
            r.wf(),
    {
        let mut cols: Vec<usize> = Vec::new();
        cols.push(0);
        let mut i: usize = 0;
        while i < clusters.len()
            invariant
                i <= clusters@.len(),
                cols@.len() == i + 1,
                cols@[0] == 0,
                forall|j: int|
                    0 <= j < i ==> cols@[j + 1] == sat_add(
                        cols@[j],
                        width_of(#[trigger] clusters.deep_view()[j]),
                    ),
            decreases clusters@.len() - i,
        {
            let w = cluster_width(clusters[i].as_str());
            let next = cols[i].saturating_add(w);
            cols.push(next);
            i = i + 1;
        }
        Row { clusters, cols }
    }

    /// Builds a row by segmenting `str` into grapheme clusters and measuring
    /// each cluster's display width.
    pub fn new(str: &str) -> (r: Self)
        ensures
            r@ == clusters_of(str@),
            r@.flatten() == str@,
            r.wf(),
    {
        let clusters = segment_clusters(str);
        Self::from_clusters(clusters)
    }

    /// The number of grapheme clusters in the row.
    pub fn len(&self) -> (n: usize)
        ensures
            n == self@.len(),
    {
        self.clusters.len()
    }

    /// The display column at which cluster `char_idx` starts; saturates to
    /// the end of the row.
    pub fn mono_col_at(&self, char_idx: usize) -> (col: usize)
        requires
            self.wf(),
        ensures
            col == col_of(self@, char_idx as int),
    {
        proof {
            if char_idx as int <= self@.len() {
                self.lemma_cols_are_cum_width(char_idx as int);
            } else {
                self.lemma_cols_are_cum_width(self@.len() as int);
                assert(self@.take(self@.len() as int) =~= self@);
            }
        }
        if char_idx < self.cols.len() {
            self.cols[char_idx]
        } else {
            proof {
                assert(self@.take(self@.len() as int) =~= self@);
            }
            self.cols[self.cols.len() - 1]
        }
    }

    /// The first cluster whose starting column is at least `mono_col`; one
    /// past the row's end when the whole row lies left of `mono_col`.
    pub fn char_idx_at(&self, mono_col: usize) -> (idx: usize)
        requires
            self.wf(),
        ensures
            idx as int == char_idx_of(self@, mono_col),
    {
        proof {
            lemma_char_idx_bounds(self@, mono_col);
        }
        let mut i: usize = 0;
        while i < self.cols.len()
            invariant
                self.wf(),
                i <= self.cols@.len(),
                forall|j: int| 0 <= j < i ==> cum_width(self@.take(j)) < mono_col,
            decreases self.cols@.len() - i,
        {
            proof {
                self.lemma_cols_are_cum_width(i as int);
            }
            if self.cols[i] >= mono_col {
                proof {
                    lemma_char_idx_unique(self@, mono_col, i as int);
                }
                return i;
            }
            i = i + 1;
        }
        proof {
            lemma_char_idx_unique(self@, mono_col, self@.len() as int + 1);
        }
        self.clusters.len() + 1
    }

    /// Splits the row at a cluster index into two new rows; an index past the
    /// end splits at the end.
    pub fn split_at(&self, at: usize) -> (r: (Row, Row))
        requires
            self.wf(),
        ensures
            r.0@ == self@.take(min_int(at as int, self@.len() as int)),
            r.1@ == self@.skip(min_int(at as int, self@.len() as int)),
            r.0.wf(),
            r.1.wf(),
    {
        let k = if at < self.clusters.len() {
            at
        } else {
            self.clusters.len()
        };
        let left = self.cluster_range(0, k);
        let right = self.cluster_range(k, self.clusters.len());
        proof {
            assert(self@.subrange(0, k as int) =~= self@.take(k as int));
            assert(self@.subrange(k as int, self@.len() as int) =~= self@.skip(k as int));
        }
        (Self::from_clusters(left), Self::from_clusters(right))
    }

    /// A new row holding this row's clusters followed by `other`'s.
    pub fn concat(&self, other: &Row) -> (r: Row)
        requires
            self.wf(),
            other.wf(),
        ensures
            r@ == self@ + other@,
            r.wf(),
    {
        let mut clusters = self.cluster_range(0, self.clusters.len());
        let mut i: usize = 0;
        while i < other.clusters.len()
            invariant
                i <= other.clusters@.len(),
                clusters@.len() == self.clusters@.len() + i,
                forall|j: int|
                    0 <= j < self.clusters@.len() ==> clusters@[j] == self.clusters@[j],
                forall|j: int|
                    0 <= j < i ==> clusters@[self.clusters@.len() + j] == other.clusters@[j],
            decreases other.clusters@.len() - i,
        {
            clusters.push(other.clusters[i].clone());
            i = i + 1;
        }
        proof {
            assert(clusters.deep_view() =~~= self@ + other@);
        }
        Self::from_clusters(clusters)
    }

    /// The clusters `[from, to)` of the row, as owned strings.
    fn cluster_range(&self, from: usize, to: usize) -> (r: Vec<String>)
        requires
            from <= to <= self@.len(),
        ensures
            r.deep_view() == self@.subrange(from as int, to as int),
            r@.len() == to - from,
            forall|j: int| 0 <= j < to - from ==> r@[j] == self.clusters@[from + j],
            self.wf() ==> forall|i: int|
                0 <= i < r.deep_view().len() ==> (#[trigger] r.deep_view()[i]).len() >= 1,
    {
        let mut r: Vec<String> = Vec::new();
        let mut i: usize = from;
        while i < to
            invariant
                from <= i <= to <= self.clusters@.len(),
                r@.len() == i - from,
                forall|j: int| 0 <= j < i - from ==> r@[j] == self.clusters@[from + j],
            decreases to - i,
        {
            r.push(self.clusters[i].clone());
            i = i + 1;
        }
        proof {
            assert(r.deep_view() =~~= self@.subrange(from as int, to as int));
        }
        r
    }

    /// The row slice `[from, to)` in cluster units, as new a row.
    pub fn slice(&self, from: usize, to: usize) -> (r: Row)
        requires
            self.wf(),
            from <= to <= self@.len(),
        ensures
            r@ == self@.subrange(from as int, to as int),
            r.wf(),
    {
        Self::from_clusters(self.cluster_range(from, to))
    }

    /// The text of the clusters `[from, to)`, with both bounds clamped to the
    /// row's end.
    pub fn text_range(&self, from: usize, to: usize) -> (s: String)
        requires
            self.wf(),
            from <= to,
        ensures
            s@ == self@.subrange(
                min_int(from as int, self@.len() as int),
                min_int(to as int, self@.len() as int),
            ).flatten(),
    {
        let f = if from < self.clusters.len() {
            from
        } else {
            self.clusters.len()
        };
        let t = if to < self.clusters.len() {
            to
        } else {
            self.clusters.len()
        };
        let mut s = String::new();
        let mut i: usize = f;
        proof {
            assert(self@.subrange(f as int, f as int) =~= Seq::<Seq<char>>::empty());
            assert(Seq::<Seq<char>>::empty().flatten() =~= Seq::<char>::empty());
        }
        while i < t
            invariant
                f <= i <= t <= self.clusters@.len(),
                s@ == self@.subrange(f as int, i as int).flatten(),
            decreases t - i,
        {
            s.append(self.clusters[i].as_str());
            proof {
                let prev = self@.subrange(f as int, i as int);
                assert(self@.subrange(f as int, i + 1) =~= prev.push(self@[i as int]));
                prev.lemma_flatten_push(self@[i as int]);
            }
            i = i + 1;
        }
        s
    }

    /// The whole text of the row.
    pub fn text(&self) -> (s: String)
        requires
            self.wf(),
        ensures
            s@ == self@.flatten(),
    {
        let s = self.text_range(0, self.clusters.len());
        proof {
            assert(self@.subrange(0, self@.len() as int) =~= self@);
        }
        s
    }
}

/// The texts of a sequence of rows, each row's clusters flattened.
pub open spec fn texts_of(rows: Seq<Seq<Seq<char>>>) -> Seq<Seq<char>> {
    rows.map_values(|cs: Seq<Seq<char>>| cs.flatten())
}

pub trait RowVecExt {
    spec fn all_wf(&self) -> bool;

    spec fn rows_view(&self) -> Seq<Seq<Seq<char>>>;

    /// The rows' texts joined with `sep` between neighbours.
    fn join(&self, sep: &str) -> (r: String)
        requires
            self.all_wf(),
        ensures
            r@ == crate::text::join_seqs(texts_of(self.rows_view()), sep@),
    ;
}

impl RowVecExt for Vec<Row> {
    open spec fn all_wf(&self) -> bool {
        forall|i: int| 0 <= i < self@.len() ==> (#[trigger] self@[i]).wf()
    }

    open spec fn rows_view(&self) -> Seq<Seq<Seq<char>>> {
        self.deep_view()
    }

    fn join(&self, sep: &str) -> (r: String) {
        let mut s = String::new();
        let mut i: usize = 0;
        proof {
            assert(texts_of(self.deep_view().take(0)) =~= Seq::<Seq<char>>::empty());
        }
        while i < self.len()
            invariant
                self.all_wf(),
                i <= self@.len(),
                s@ == crate::text::join_seqs(texts_of(self.deep_view().take(i as int)), sep@),
            decreases self@.len() - i,
        {
            proof {
                assert(self.deep_view().take(i + 1) =~= self.deep_view().take(i as int).push(
                    self@[i as int]@,
                ));
                assert(texts_of(self.deep_view().take(i + 1)) =~= texts_of(
                    self.deep_view().take(i as int),
                ).push(self@[i as int]@.flatten()));
                crate::text::lemma_join_push(
                    texts_of(self.deep_view().take(i as int)),
                    sep@,
                    self@[i as int]@.flatten(),
                );
            }
            if i > 0 {
                s.append(sep);
            }
            let t = self[i].text();
            s.append(t.as_str());
            proof {
                if i == 0 {
                    assert(s@ =~= self@[0]@.flatten());
                }
            }
            i = i + 1;
        }
        proof {
            assert(self.deep_view().take(self@.len() as int) =~= self.deep_view());
        }
        s
    }
}

/// The smaller of two mathematical integers.
pub open spec fn min_int(a: int, b: int) -> int {
    if a <= b {
        a
    } else {
        b
    }
}

/// Grapheme safety: a row split at any cluster boundary and put back
/// together is the original row, cluster for cluster — what `split_at`
/// followed by `concat` yields.
pub proof fn lemma_split_concat_identity(cs: Seq<Seq<char>>, i: int)
    requires
        0 <= i <= cs.len(),
    ensures
        cs.take(i) + cs.skip(i) == cs,
{
    assert(cs.take(i) + cs.skip(i) =~= cs);
}

/// Display-column monotonicity: `mono_col_at` never decreases as the
/// cluster index grows.
pub proof fn lemma_col_of_monotone(cs: Seq<Seq<char>>, i: int, j: int)
    requires
        0 <= i <= j,
    ensures
        col_of(cs, i) <= col_of(cs, j),
{
    let ci = if i <= cs.len() {
        i
    } else {
        cs.len() as int
    };
    let cj = if j <= cs.len() {
        j
    } else {
        cs.len() as int
    };
    lemma_cum_width_monotone(cs, ci, cj);
}

/// `char_idx_at` inverts `mono_col_at` at every cluster index whose
/// display column differs from its predecessor's — in particular at every
/// index when no cluster is zero-width.
pub proof fn lemma_char_idx_inverts_col(cs: Seq<Seq<char>>, i: int)
    requires
        0 <= i <= cs.len(),
        i == 0 || col_of(cs, i - 1) != col_of(cs, i),
    ensures
        char_idx_of(cs, col_of(cs, i)) == i,
{
    let col = col_of(cs, i);
    if i == 0 {
        assert(cs.take(0) =~= Seq::<Seq<char>>::empty());
        assert(col == 0);
    } else {
        lemma_cum_width_monotone(cs, i - 1, i);
        assert(cum_width(cs.take(i - 1)) < cum_width(cs.take(i)));
        assert forall|j: int| 0 <= j <= cs.len() && j < i implies cum_width(
            #[trigger] cs.take(j),
        ) < col by {
            lemma_cum_width_monotone(cs, j, i - 1);
        }
        lemma_char_idx_unique(cs, col, i);
    }
}

/// Starting columns never decrease as the cluster index grows.
pub proof fn lemma_cum_width_monotone(cs: Seq<Seq<char>>, i: int, j: int)
    requires
        0 <= i <= j <= cs.len(),
    ensures
        cum_width(cs.take(i)) <= cum_width(cs.take(j)),
    decreases j - i,
{
    if i < j {
        lemma_cum_width_monotone(cs, i, j - 1);
        assert(cs.take(j).drop_last() =~= cs.take(j - 1));
    }
}

proof fn lemma_cum_width_shift(cs: Seq<Seq<char>>, j: int)
    requires
        1 <= j <= cs.len(),
    ensures
        cum_width(cs.take(j)) == sat_add(
            width_of(cs.first()),
            cum_width(cs.drop_first().take(j - 1)),
        ),
    decreases j,
{
    if j == 1 {
        assert(cs.take(1).drop_last() =~= Seq::<Seq<char>>::empty());
        assert(cs.take(1).last() == cs.first());
        assert(cs.drop_first().take(0) =~= Seq::<Seq<char>>::empty());
    } else {
        lemma_cum_width_shift(cs, j - 1);
        assert(cs.take(j).drop_last() =~= cs.take(j - 1));
        assert(cs.take(j).last() == cs[j - 1]);
        assert(cs.drop_first().take(j - 1).drop_last() =~= cs.drop_first().take(j - 2));
        assert(cs.drop_first().take(j - 1).last() == cs[j - 1]);
    }
}

/// Characterises `char_idx_of`: every column strictly before it lies left of
/// `col`, and the column at it (when it is a real index) lies at or right of
/// `col`.
pub proof fn lemma_char_idx_bounds(cs: Seq<Seq<char>>, col: usize)
    ensures
        0 <= char_idx_of(cs, col) <= cs.len() + 1,
        forall|j: int|
            0 <= j <= cs.len() && j < char_idx_of(cs, col) ==> cum_width(#[trigger] cs.take(j))
                < col,
        char_idx_of(cs, col) <= cs.len() ==> cum_width(cs.take(char_idx_of(cs, col))) >= col,
    decreases cs.len(),
{
    let r = char_idx_of(cs, col);
    if col == 0 {
        assert(cs.take(0) =~= Seq::<Seq<char>>::empty());
    } else if cs.len() == 0 {
        assert(cs.take(0) =~= Seq::<Seq<char>>::empty());
    } else if width_of(cs.first()) >= col {
        assert(cs.take(0) =~= Seq::<Seq<char>>::empty());
        lemma_cum_width_shift(cs, 1);
        assert(cs.drop_first().take(0) =~= Seq::<Seq<char>>::empty());
    } else {
        let w0 = width_of(cs.first());
        let rest = cs.drop_first();
        let col2 = (col - w0) as usize;
        lemma_char_idx_bounds(rest, col2);
        let r2 = char_idx_of(rest, col2);
        assert(r == 1 + r2);
        assert forall|j: int| 0 <= j <= cs.len() && j < r implies cum_width(
            #[trigger] cs.take(j),
        ) < col by {
            if j == 0 {
                assert(cs.take(0) =~= Seq::<Seq<char>>::empty());
            } else {
                lemma_cum_width_shift(cs, j);
                assert(cum_width(rest.take(j - 1)) < col2);
            }
        }
        if r <= cs.len() {
            lemma_cum_width_shift(cs, r);
            assert(cum_width(rest.take(r2)) >= col2);
        }
    }
}

/// Any index with the two properties of `lemma_char_idx_bounds` is
/// `char_idx_of` itself.
proof fn lemma_char_idx_unique(cs: Seq<Seq<char>>, col: usize, i: int)
    requires
        0 <= i <= cs.len() + 1,
        forall|j: int| 0 <= j <= cs.len() && j < i ==> cum_width(#[trigger] cs.take(j)) < col,
        i <= cs.len() ==> cum_width(cs.take(i)) >= col,
    ensures
        i == char_idx_of(cs, col),
{
    lemma_char_idx_bounds(cs, col);
    let r = char_idx_of(cs, col);
    if r < i {
        if r <= cs.len() {
            assert(cum_width(cs.take(r)) >= col);
            assert(cum_width(cs.take(r)) < col);
        }
    } else if i < r {
        if i <= cs.len() {
            assert(cum_width(cs.take(i)) < col);
            assert(cum_width(cs.take(i)) >= col);
        }
    }
}


} // verus!
