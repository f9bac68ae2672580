//! Edit operations over the document: Insert, Delete and Replace. Each op
//! records the exact rows it adds or removes, computes its own end position
//! and its inverse, and `process` applies it by splicing rows.
use vstd::prelude::*;

use crate::editor::content::{captured_lines, pos_valid, rows_of_texts, EditorContent};
use crate::editor::pos::PosInDocument;
use crate::editor::row::Row;
use crate::editor::split::{detected_delimiter, split_spec};

verus! {

#[derive(Debug, PartialEq)]
pub enum EditOp {
    Insert { from: PosInDocument, lines: Vec<Row> },
    Delete { from: PosInDocument, lines: Vec<Row> },
    Replace { from: PosInDocument, inserted_lines: Vec<Row>, deleted_lines: Vec<Row> },
}

/// The rows that replace row `row` of the document when the rows `ls` are
/// inserted at column `c`: the pre-`c` prefix is glued onto the first
/// inserted row, the post-`c` suffix onto the last.
pub open spec fn spliced_rows(row: Seq<Seq<char>>, c: int, ls: Seq<Seq<Seq<char>>>) -> Seq<
    Seq<Seq<char>>,
> {
    Seq::new(
        ls.len(),
        |i: int|
            (if i == 0 {
                row.take(c)
            } else {
                Seq::empty()
            }) + ls[i] + (if i == ls.len() - 1 {
                row.skip(c)
            } else {
                Seq::empty()
            }),
    )
}

/// The document after inserting the rows `ls` at `(r, c)`.
pub open spec fn insert_applied(
    doc: Seq<Seq<Seq<char>>>,
    r: int,
    c: int,
    ls: Seq<Seq<Seq<char>>>,
) -> Seq<Seq<Seq<char>>> {
    doc.take(r) + spliced_rows(doc[r], c, ls) + doc.skip(r + 1)
}

/// The document after deleting the span `[(fr, fc), (tr, tc))`: the first
/// row's prefix and the last row's suffix are glued into one row.
pub open spec fn delete_applied(
    doc: Seq<Seq<Seq<char>>>,
    fr: int,
    fc: int,
    tr: int,
    tc: int,
) -> Seq<Seq<Seq<char>>> {
    doc.take(fr) + seq![doc[fr].take(fc) + doc[tr].skip(tc)] + doc.skip(tr + 1)
}

/// The row of the position just past rows `ls` laid down at row `fr`.
pub open spec fn end_row(fr: int, ls: Seq<Seq<Seq<char>>>) -> int {
    fr + ls.len() - 1
}

/// The column of the position just past rows `ls` laid down at `(fr, fc)`.
pub open spec fn end_col(fc: int, ls: Seq<Seq<Seq<char>>>) -> int {
    if ls.len() == 1 {
        fc + ls.last().len()
    } else {
        ls.last().len() as int
    }
}

impl EditOp {
    /// The position the operation starts at.
    pub open spec fn from_pos(self) -> PosInDocument {
        match self {
            EditOp::Insert { from, .. } => from,
            EditOp::Delete { from, .. } => from,
            EditOp::Replace { from, .. } => from,
        }
    }

    /// The rows that determine the end position: the inserted rows, or for a
    /// pure deletion the deleted ones.
    pub open spec fn main_lines(self) -> Seq<Seq<Seq<char>>> {
        match self {
            EditOp::Insert { lines, .. } => lines.deep_view(),
            EditOp::Delete { lines, .. } => lines.deep_view(),
            EditOp::Replace { inserted_lines, .. } => inserted_lines.deep_view(),
        }
    }

    /// The rows a Delete or Replace removes.
    pub open spec fn del_lines(self) -> Seq<Seq<Seq<char>>> {
        match self {
            EditOp::Insert { lines, .. } => lines.deep_view(),
            EditOp::Delete { lines, .. } => lines.deep_view(),
            EditOp::Replace { deleted_lines, .. } => deleted_lines.deep_view(),
        }
    }

    pub open spec fn is_insert(self) -> bool {
        self is Insert
    }

    pub open spec fn is_delete(self) -> bool {
        self is Delete
    }

    pub open spec fn is_replace(self) -> bool {
        self is Replace
    }

    /// Every row the operation carries is well-formed and non-empty lists.
    pub open spec fn rows_wf(self) -> bool {
        match self {
            EditOp::Insert { lines, .. } => all_rows_wf(lines) && lines@.len() >= 1,
            EditOp::Delete { lines, .. } => all_rows_wf(lines) && lines@.len() >= 1,
            EditOp::Replace { inserted_lines, deleted_lines, .. } => all_rows_wf(inserted_lines)
                && inserted_lines@.len() >= 1 && all_rows_wf(deleted_lines)
                && deleted_lines@.len() >= 1,
        }
    }

    /// The machine bounds under which the end position is computable.
    pub open spec fn fits(self) -> bool {
        &&& self.main_lines().len() >= 1
        &&& self.from_pos().0 + self.main_lines().len() - 1 <= usize::MAX
        &&& end_col(self.from_pos().1 as int, self.main_lines()) <= usize::MAX
    }

    /// Whether the operation can be applied to `doc`: its positions address
    /// real rows and columns, and its end position is computable.
    pub open spec fn valid_for(self, doc: Seq<Seq<Seq<char>>>) -> bool {
        &&& pos_valid(doc, self.from_pos())
        &&& self.fits()
        &&& (self.is_delete() || self.is_replace()) ==> {
            let tr = end_row(self.from_pos().0 as int, self.del_lines());
            let tc = end_col(self.from_pos().1 as int, self.del_lines());
            &&& self.del_lines().len() >= 1
            &&& tr < doc.len()
            &&& 0 <= tc <= doc[tr].len()
            &&& tc <= usize::MAX
            &&& tr <= usize::MAX
        }
    }

    /// Whether the deleted rows the operation records are exactly the rows
    /// standing in `doc` over the deleted span. An Insert records nothing to
    /// delete, so it is always consistent.
    pub open spec fn consistent_with(self, doc: Seq<Seq<Seq<char>>>) -> bool {
        (self.is_delete() || self.is_replace()) ==> self.del_lines() == captured_lines(
            doc,
            self.from_pos().0 as int,
            self.from_pos().1 as int,
            end_row(self.from_pos().0 as int, self.del_lines()),
            end_col(self.from_pos().1 as int, self.del_lines()),
        )
    }

    /// The document after the operation: Insert splices its rows in, Delete
    /// removes its span, Replace deletes and then inserts from the same
    /// origin.
    pub open spec fn apply(self, doc: Seq<Seq<Seq<char>>>) -> Seq<Seq<Seq<char>>> {
        let r = self.from_pos().0 as int;
        let c = self.from_pos().1 as int;
        match self {
            EditOp::Insert { .. } => insert_applied(doc, r, c, self.main_lines()),
            EditOp::Delete { .. } => delete_applied(
                doc,
                r,
                c,
                end_row(r, self.del_lines()),
                end_col(c, self.del_lines()),
            ),
            EditOp::Replace { .. } => insert_applied(
                delete_applied(
                    doc,
                    r,
                    c,
                    end_row(r, self.del_lines()),
                    end_col(c, self.del_lines()),
                ),
                r,
                c,
                self.main_lines(),
            ),
        }
    }

    /// Whether `self` is the mirror of `op`: the same origin, with inserted
    /// and deleted rows swapped.
    pub open spec fn is_inverse_of(self, op: EditOp) -> bool {
        &&& self.from_pos() == op.from_pos()
        &&& (op.is_insert() <==> self.is_delete())
        &&& (op.is_delete() <==> self.is_insert())
        &&& (op.is_replace() <==> self.is_replace())
        &&& self.main_lines() == op.del_lines()
        &&& self.del_lines() == op.main_lines()
    }

    /// The document from which applying this operation would have produced
    /// `doc`: what applying any mirror of the operation to `doc` yields.
    pub open spec fn unapplied(self, doc: Seq<Seq<Seq<char>>>) -> Seq<Seq<Seq<char>>> {
        let r = self.from_pos().0 as int;
        let c = self.from_pos().1 as int;
        match self {
            EditOp::Insert { .. } => delete_applied(
                doc,
                r,
                c,
                end_row(r, self.main_lines()),
                end_col(c, self.main_lines()),
            ),
            EditOp::Delete { .. } => insert_applied(doc, r, c, self.del_lines()),
            EditOp::Replace { .. } => insert_applied(
                delete_applied(
                    doc,
                    r,
                    c,
                    end_row(r, self.main_lines()),
                    end_col(c, self.main_lines()),
                ),
                r,
                c,
                self.del_lines(),
            ),
        }
    }

    /// What `valid_for` means for any mirror of this operation on `doc`.
    pub open spec fn mirror_valid(self, doc: Seq<Seq<Seq<char>>>) -> bool {
        let r = self.from_pos().0 as int;
        let c = self.from_pos().1 as int;
        &&& pos_valid(doc, self.from_pos())
        &&& self.del_lines().len() >= 1
        &&& r + self.del_lines().len() - 1 <= usize::MAX
        &&& end_col(c, self.del_lines()) <= usize::MAX
        &&& (self.is_insert() || self.is_replace()) ==> {
            let tr = end_row(r, self.main_lines());
            let tc = end_col(c, self.main_lines());
            &&& self.main_lines().len() >= 1
            &&& tr < doc.len()
            &&& 0 <= tc <= doc[tr].len()
            &&& tc <= usize::MAX
            &&& tr <= usize::MAX
        }
    }

    /// What `consistent_with` means for any mirror of this operation on
    /// `doc`: the rows this operation inserted are what stands there.
    pub open spec fn mirror_consistent(self, doc: Seq<Seq<Seq<char>>>) -> bool {
        (self.is_insert() || self.is_replace()) ==> self.main_lines() == captured_lines(
            doc,
            self.from_pos().0 as int,
            self.from_pos().1 as int,
            end_row(self.from_pos().0 as int, self.main_lines()),
            end_col(self.from_pos().1 as int, self.main_lines()),
        )
    }

    /// The position a cursor lands on after the operation: the end of the
    /// inserted rows, or the origin for a pure deletion.
    pub open spec fn landing_pos(self, doc: Seq<Seq<Seq<char>>>) -> (int, int) {
        if self.is_delete() {
            (self.from_pos().0 as int, self.from_pos().1 as int)
        } else {
            (
                end_row(self.from_pos().0 as int, self.main_lines()),
                end_col(self.from_pos().1 as int, self.main_lines()),
            )
        }
    }

    /// An operation that inserts `str` at `from`, split into rows by the
    /// same delimiter detection as a parsed document.
    pub fn insert(from: PosInDocument, str: &str) -> (op: Self)
        ensures
            op.is_insert(),
            op.from_pos() == from,
            op.main_lines() == rows_of_texts(split_spec(str@, detected_delimiter(str@))),
            op.rows_wf(),
    {
        let (lines, _delimiter) = crate::editor::content::split(str);
        EditOp::Insert { from, lines }
    }

    /// An operation that deletes the span `[from, to)` of `content`,
    /// capturing the exact rows standing there.
    pub fn delete(content: &EditorContent, from: PosInDocument, to: PosInDocument) -> (op: Self)
        requires
            content.wf(),
            pos_valid(content.rows(), from),
            pos_valid(content.rows(), to),
            from.0 < to.0 || (from.0 == to.0 && from.1 <= to.1),
        ensures
            op.is_delete(),
            op.from_pos() == from,
            op.del_lines() == captured_lines(
                content.rows(),
                from.0 as int,
                from.1 as int,
                to.0 as int,
                to.1 as int,
            ),
            op.rows_wf(),
            end_row(from.0 as int, op.del_lines()) == to.0 as int,
            end_col(from.1 as int, op.del_lines()) == to.1 as int,
            op.valid_for(content.rows()),
            op.consistent_with(content.rows()),
    {
        let lines = content.selection(from, to);
        proof {
            lemma_captured_end(content.rows(), from.0 as int, from.1 as int, to.0 as int, to.1 as int);
        }
        EditOp::Delete { from, lines }
    }

    /// An operation that replaces the span `[from, to)` of `content` with
    /// `str`, applied as delete-then-insert from the same origin.
    pub fn replace(content: &EditorContent, from: PosInDocument, to: PosInDocument, str: &str) -> (op:
        Self)
        requires
            content.wf(),
            pos_valid(content.rows(), from),
            pos_valid(content.rows(), to),
            from.0 < to.0 || (from.0 == to.0 && from.1 <= to.1),
        ensures
            op.is_replace(),
            op.from_pos() == from,
            op.main_lines() == rows_of_texts(split_spec(str@, detected_delimiter(str@))),
            op.del_lines() == captured_lines(
                content.rows(),
                from.0 as int,
                from.1 as int,
                to.0 as int,
                to.1 as int,
            ),
            op.rows_wf(),
            end_row(from.0 as int, op.del_lines()) == to.0 as int,
            end_col(from.1 as int, op.del_lines()) == to.1 as int,
            op.fits() ==> op.valid_for(content.rows()),
            op.consistent_with(content.rows()),
    {
        let (inserted_lines, _delimiter) = crate::editor::content::split(str);
        let deleted_lines = content.selection(from, to);
        proof {
            lemma_captured_end(content.rows(), from.0 as int, from.1 as int, to.0 as int, to.1 as int);
        }
        EditOp::Replace { from, inserted_lines, deleted_lines }
    }

    /// The operation, when its end position is computable on this machine;
    /// `None` otherwise.
    pub fn if_fits(self) -> (r: Option<EditOp>)
        ensures
            match r {
                Some(op) => op == self && self.fits(),
                None => !self.fits(),
            },
    {
        let fits = {
            let (from, lines): (&PosInDocument, &Vec<Row>) = match &self {
                EditOp::Insert { from, lines } => (from, lines),
                EditOp::Delete { from, lines } => (from, lines),
                EditOp::Replace { from, inserted_lines, .. } => (from, inserted_lines),
            };
            let n = lines.len();
            if n == 0 {
                false
            } else if from.0 > usize::MAX - (n - 1) {
                false
            } else if n == 1 {
                let l0 = lines[0].len();
                from.1 <= usize::MAX - l0
            } else {
                let last_len = lines[n - 1].len();
                last_len <= usize::MAX
            }
        };
        if fits {
            Some(self)
        } else {
            None
        }
    }

    /// The mirror operation: Insert and Delete swap, Replace swaps its two
    /// row lists. Applying it undoes this operation.
    pub fn inverse(&self) -> (r: Self)
        ensures
            r.is_inverse_of(*self),
            self.rows_wf() ==> r.rows_wf(),
    {
        match self {
            EditOp::Insert { from, lines } => EditOp::Delete {
                from: *from,
                lines: clone_rows(lines),
            },
            EditOp::Delete { from, lines } => EditOp::Insert {
                from: *from,
                lines: clone_rows(lines),
            },
            EditOp::Replace { from, inserted_lines, deleted_lines } => EditOp::Replace {
                from: *from,
                inserted_lines: clone_rows(deleted_lines),
                deleted_lines: clone_rows(inserted_lines),
            },
        }
    }

    /// The end position of the operation: its origin advanced over the rows
    /// it lays down.
    pub fn to(&self) -> (r: PosInDocument)
        requires
            self.fits(),
        ensures
            r.0 as int == end_row(self.from_pos().0 as int, self.main_lines()),
            r.1 as int == end_col(self.from_pos().1 as int, self.main_lines()),
    {
        let (from, lines): (&PosInDocument, &Vec<Row>) = match self {
            EditOp::Insert { from, lines } => (from, lines),
            EditOp::Delete { from, lines } => (from, lines),
            EditOp::Replace { from, inserted_lines, .. } => (from, inserted_lines),
        };
        let (from_row, from_col) = *from;
        let n = lines.len();
        let to_row = from_row + (n - 1);
        let last_len = lines[n - 1].len();
        let to_col = if n == 1 {
            from_col + last_len
        } else {
            last_len
        };
        (to_row, to_col)
    }
}

/// Every row in the vector is well-formed.
pub open spec fn all_rows_wf(lines: Vec<Row>) -> bool {
    forall|i: int| 0 <= i < lines@.len() ==> (#[trigger] lines@[i]).wf()
}

/// A copy of a row vector, row views preserved.
pub fn clone_rows(lines: &Vec<Row>) -> (r: Vec<Row>)
    ensures
        r.deep_view() == lines.deep_view(),
        r@.len() == lines@.len(),
        all_rows_wf(*lines) ==> all_rows_wf(r),
{
    let mut r: Vec<Row> = Vec::new();
    let mut i: usize = 0;
    while i < lines.len()
        invariant
            i <= lines@.len(),
            r@.len() == i,
            forall|j: int| 0 <= j < i ==> (#[trigger] r@[j])@ == lines@[j]@,
            forall|j: int| 0 <= j < i ==> (#[trigger] r@[j]).wf() == lines@[j].wf(),
        decreases lines@.len() - i,
    {
        r.push(lines[i].clone());
        i = i + 1;
    }
    proof {
        assert(r.deep_view() =~~= lines.deep_view());
        if all_rows_wf(*lines) {
            assert forall|j: int| 0 <= j < r@.len() implies (#[trigger] r@[j]).wf() by {
                assert(lines@[j].wf());
            }
        }
    }
    r
}


/// Applies an insertion to `content`: splices `lines` in at `from`, gluing
/// the pre-`from` prefix of the original row onto the first inserted row and
/// the suffix onto the last.
fn process_insert(content: &mut EditorContent, from: PosInDocument, lines: &Vec<Row>) -> (to:
    PosInDocument)
    requires
        old(content).wf(),
        pos_valid(old(content).rows(), from),
        lines@.len() >= 1,
        all_rows_wf(*lines),
        from.0 + lines@.len() - 1 <= usize::MAX,
        lines@.len() == 1 ==> from.1 + lines.deep_view().last().len() <= usize::MAX,
    ensures
        final(content).wf(),
        final(content).rows() == insert_applied(
            old(content).rows(),
            from.0 as int,
            from.1 as int,
            lines.deep_view(),
        ),
        final(content).delimiter == old(content).delimiter,
        to.0 as int == end_row(from.0 as int, lines.deep_view()),
        to.1 as int == end_col(from.1 as int, lines.deep_view()),
{
    let ghost doc = old(content).rows();
    let ghost dv = lines.deep_view();
    let (from_row, from_col) = from;
    let row_count = content.lines.len();
    let n = lines.len();
    let (pre, post) = content.lines[from_row].split_at(from_col);
    proof {
        assert(pre@ == doc[from_row as int].take(from_col as int));
        assert(post@ == doc[from_row as int].skip(from_col as int));
    }
    let mut new_lines: Vec<Row> = Vec::new();
    let mut i: usize = 0;
    while i < from_row
        invariant
            *content == *old(content),
            content.wf(),
            i <= from_row < content.lines@.len(),
            new_lines@.len() == i,
            forall|j: int| 0 <= j < i ==> (#[trigger] new_lines@[j]).wf(),
            forall|j: int| 0 <= j < i ==> (#[trigger] new_lines@[j])@ == content.rows()[j],
        decreases from_row - i,
    {
        new_lines.push(content.lines[i].clone());
        i = i + 1;
    }
    let mut k: usize = 0;
    while k < n
        invariant
            *content == *old(content),
            content.wf(),
            n == lines@.len(),
            1 <= n,
            from_row < content.lines@.len(),
            from_col <= content.rows()[from_row as int].len(),
            dv == lines.deep_view(),
            all_rows_wf(*lines),
            pre.wf(),
            post.wf(),
            pre@ == content.rows()[from_row as int].take(from_col as int),
            post@ == content.rows()[from_row as int].skip(from_col as int),
            k <= n,
            new_lines@.len() == from_row + k,
            forall|j: int| 0 <= j < new_lines@.len() ==> (#[trigger] new_lines@[j]).wf(),
            forall|j: int| 0 <= j < from_row ==> (#[trigger] new_lines@[j])@ == content.rows()[j],
            forall|j: int|
                from_row <= j < new_lines@.len() ==> (#[trigger] new_lines@[j])@ == spliced_rows(
                    content.rows()[from_row as int],
                    from_col as int,
                    dv,
                )[j - from_row],
        decreases n - k,
    {
        let mut row = lines[k].clone();
        if k == 0 {
            row = pre.concat(&row);
        }
        if k == n - 1 {
            row = row.concat(&post);
        }
        proof {
            assert(spliced_rows(content.rows()[from_row as int], from_col as int, dv)[k as int]
                =~= row@);
        }
        new_lines.push(row);
        k = k + 1;
    }
    let mut t: usize = from_row + 1;
    while t < content.lines.len()
        invariant
            *content == *old(content),
            content.wf(),
            n == lines@.len(),
            1 <= n,
            from_row < content.lines@.len(),
            dv == lines.deep_view(),
            from_row + 1 <= t <= content.lines@.len(),
            new_lines@.len() == from_row + n + (t - from_row - 1),
            forall|j: int| 0 <= j < new_lines@.len() ==> (#[trigger] new_lines@[j]).wf(),
            forall|j: int| 0 <= j < from_row ==> (#[trigger] new_lines@[j])@ == content.rows()[j],
            forall|j: int|
                from_row <= j < from_row + n ==> (#[trigger] new_lines@[j])@ == spliced_rows(
                    content.rows()[from_row as int],
                    from_col as int,
                    dv,
                )[j - from_row],
            forall|j: int|
                from_row + n <= j < new_lines@.len() ==> (#[trigger] new_lines@[j])@
                    == content.rows()[j - n + 1],
        decreases content.lines@.len() - t,
    {
        new_lines.push(content.lines[t].clone());
        t = t + 1;
    }
    proof {
        assert(new_lines.deep_view() =~~= insert_applied(doc, from_row as int, from_col as int, dv));
    }
    content.lines = new_lines;
    let to_row = from_row + (n - 1);
    let last_len = lines[n - 1].len();
    let to_col = if n == 1 {
        from_col + last_len
    } else {
        last_len
    };
    (to_row, to_col)
}

/// Applies a deletion to `content`: removes the span `[from, to)` and glues
/// the first row's prefix onto the last row's suffix.
fn process_delete(content: &mut EditorContent, from: PosInDocument, to: PosInDocument)
    requires
        old(content).wf(),
        pos_valid(old(content).rows(), from),
        pos_valid(old(content).rows(), to),
        from.0 <= to.0,
        from.0 == to.0 ==> from.1 <= to.1,
    ensures
        final(content).wf(),
        final(content).rows() == delete_applied(
            old(content).rows(),
            from.0 as int,
            from.1 as int,
            to.0 as int,
            to.1 as int,
        ),
        final(content).delimiter == old(content).delimiter,
{
    let ghost doc = old(content).rows();
    let (from_row, from_col) = from;
    let (to_row, to_col) = to;
    let row_count = content.lines.len();
    let pre = content.lines[from_row].slice(0, from_col);
    let post_len = content.lines[to_row].len();
    let post = content.lines[to_row].slice(to_col, post_len);
    let merged = pre.concat(&post);
    proof {
        assert(merged@ =~= doc[from_row as int].take(from_col as int) + doc[to_row as int].skip(
            to_col as int,
        ));
    }
    let mut new_lines: Vec<Row> = Vec::new();
    let mut i: usize = 0;
    while i < from_row
        invariant
            *content == *old(content),
            content.wf(),
            i <= from_row < content.lines@.len(),
            new_lines@.len() == i,
            forall|j: int| 0 <= j < i ==> (#[trigger] new_lines@[j]).wf(),
            forall|j: int| 0 <= j < i ==> (#[trigger] new_lines@[j])@ == content.rows()[j],
        decreases from_row - i,
    {
        new_lines.push(content.lines[i].clone());
        i = i + 1;
    }
    new_lines.push(merged);
    let mut t: usize = to_row + 1;
    while t < content.lines.len()
        invariant
            *content == *old(content),
            content.wf(),
            from_row < content.lines@.len(),
            to_row < content.lines@.len(),
            from_row <= to_row,
            merged.wf(),
            merged@ == doc[from_row as int].take(from_col as int) + doc[to_row as int].skip(
                to_col as int,
            ),
            doc == content.rows(),
            to_row + 1 <= t <= content.lines@.len(),
            new_lines@.len() == from_row + 1 + (t - to_row - 1),
            forall|j: int| 0 <= j < new_lines@.len() ==> (#[trigger] new_lines@[j]).wf(),
            forall|j: int| 0 <= j < from_row ==> (#[trigger] new_lines@[j])@ == content.rows()[j],
            new_lines@[from_row as int]@ == merged@,
            forall|j: int|
                from_row + 1 <= j < new_lines@.len() ==> (#[trigger] new_lines@[j])@
                    == content.rows()[j + to_row - from_row],
        decreases content.lines@.len() - t,
    {
        new_lines.push(content.lines[t].clone());
        t = t + 1;
    }
    proof {
        assert(new_lines.deep_view() =~~= delete_applied(
            doc,
            from_row as int,
            from_col as int,
            to_row as int,
            to_col as int,
        ));
    }
    content.lines = new_lines;
}

/// Applies `edit_op` to `content` and returns the position the cursor lands
/// on: the end of the inserted rows, or the origin for a pure deletion.
pub fn process(content: &mut EditorContent, edit_op: &EditOp) -> (pos: PosInDocument)
    requires
        old(content).wf(),
        edit_op.valid_for(old(content).rows()),
        edit_op.rows_wf(),
    ensures
        final(content).wf(),
        final(content).rows() == edit_op.apply(old(content).rows()),
        final(content).delimiter == old(content).delimiter,
        (pos.0 as int, pos.1 as int) == edit_op.landing_pos(old(content).rows()),
{
    match edit_op {
        EditOp::Insert { from, lines } => process_insert(content, *from, lines),
        EditOp::Delete { from, .. } => {
            let to = edit_op.to();
            process_delete(content, *from, to);
            *from
        },
        EditOp::Replace { from, inserted_lines, deleted_lines } => {
            let dn = deleted_lines.len();
            let to_row = from.0 + (dn - 1);
            let last_len = deleted_lines[dn - 1].len();
            let to_col = if dn == 1 {
                from.1 + last_len
            } else {
                last_len
            };
            process_delete(content, *from, (to_row, to_col));
            proof {
                let mid = content.rows();
                assert(from.0 < mid.len());
                assert(mid[from.0 as int].len() >= from.1);
            }
            process_insert(content, *from, inserted_lines)
        },
    }
}


/// Inserting rows and then deleting the span they cover restores the
/// document row for row, and that span captures exactly the inserted rows.
pub proof fn lemma_insert_delete_roundtrip(
    doc: Seq<Seq<Seq<char>>>,
    r: int,
    c: int,
    ls: Seq<Seq<Seq<char>>>,
)
    requires
        0 <= r < doc.len(),
        0 <= c <= doc[r].len(),
        ls.len() >= 1,
    ensures
        delete_applied(insert_applied(doc, r, c, ls), r, c, end_row(r, ls), end_col(c, ls)) == doc,
        captured_lines(insert_applied(doc, r, c, ls), r, c, end_row(r, ls), end_col(c, ls)) == ls,
{
    let doc2 = insert_applied(doc, r, c, ls);
    let spliced = spliced_rows(doc[r], c, ls);
    let n = ls.len() as int;
    let tr = end_row(r, ls);
    let tc = end_col(c, ls);
    assert(doc2.len() == doc.len() + n - 1);
    assert(forall|i: int| 0 <= i < r ==> doc2[i] == doc.take(r)[i]);
    assert(forall|k: int| 0 <= k < n ==> doc2[r + k] == spliced[k]);
    assert(forall|i: int| r + n <= i < doc2.len() ==> doc2[i] == doc[i - n + 1]);

    assert(doc2[r].take(c) =~= doc[r].take(c));
    assert(doc2[tr].skip(tc) =~= doc[r].skip(c));
    assert(doc2[r].take(c) + doc2[tr].skip(tc) =~= doc[r]);
    assert(delete_applied(doc2, r, c, tr, tc) =~~= doc);

    let cap = captured_lines(doc2, r, c, tr, tc);
    if n == 1 {
        assert(doc2[r].subrange(c, tc) =~= ls[0]);
        assert(cap =~~= ls);
    } else {
        assert(doc2[r].skip(c) =~= ls[0]);
        assert(doc2[tr].take(tc) =~= ls[n - 1]);
        assert forall|k: int| 1 <= k < n - 1 implies doc2.subrange(r + 1, tr)[k - 1] =~= ls[k] by {
            assert(doc2[r + k] == spliced[k]);
        }
        assert(cap =~~= ls);
    }
}

/// Deleting a span and then re-inserting the rows captured from it restores
/// the document row for row.
pub proof fn lemma_delete_insert_roundtrip(doc: Seq<Seq<Seq<char>>>, fr: int, fc: int, tr: int, tc: int)
    requires
        0 <= fr <= tr < doc.len(),
        0 <= fc <= doc[fr].len(),
        0 <= tc <= doc[tr].len(),
        fr == tr ==> fc <= tc,
    ensures
        insert_applied(
            delete_applied(doc, fr, fc, tr, tc),
            fr,
            fc,
            captured_lines(doc, fr, fc, tr, tc),
        ) == doc,
{
    let doc2 = delete_applied(doc, fr, fc, tr, tc);
    let cap = captured_lines(doc, fr, fc, tr, tc);
    let n = cap.len() as int;
    lemma_captured_end(doc, fr, fc, tr, tc);
    assert(n == tr - fr + 1);
    assert(doc2.len() == doc.len() - (tr - fr));
    assert(forall|i: int| 0 <= i < fr ==> doc2[i] == doc.take(fr)[i]);
    assert(doc2[fr] == doc[fr].take(fc) + doc[tr].skip(tc));
    assert(forall|i: int| fr < i < doc2.len() ==> doc2[i] == doc[i + (tr - fr)]);

    let spliced = spliced_rows(doc2[fr], fc, cap);
    assert(doc2[fr].take(fc) =~= doc[fr].take(fc));
    assert(doc2[fr].skip(fc) =~= doc[tr].skip(tc));
    if n == 1 {
        assert(cap[0] == doc[fr].subrange(fc, tc));
        assert(spliced[0] =~= doc[fr]);
    } else {
        assert(cap[0] == doc[fr].skip(fc));
        assert(cap[n - 1] == doc[tr].take(tc));
        assert(spliced[0] =~= doc[fr]);
        assert(spliced[n - 1] =~= doc[tr]);
        assert forall|k: int| 1 <= k < n - 1 implies spliced[k] =~= doc[fr + k] by {
            assert(cap[k] == doc.subrange(fr + 1, tr)[k - 1]);
        }
    }
    assert(insert_applied(doc2, fr, fc, cap) =~~= doc);
}

/// Any mirror of `op` applies to `doc` what `unapplied` describes, and its
/// validity and consistency are those of the mirror conditions.
pub proof fn lemma_inverse_congruent(op: EditOp, inv: EditOp, doc: Seq<Seq<Seq<char>>>)
    requires
        inv.is_inverse_of(op),
    ensures
        inv.apply(doc) == op.unapplied(doc),
        inv.valid_for(doc) == op.mirror_valid(doc),
        inv.consistent_with(doc) == op.mirror_consistent(doc),
{
}

/// Applying an operation can be undone: any mirror of it is applicable to
/// the result, agrees with the rows standing there, and takes the result
/// back to the original document.
pub proof fn lemma_apply_then_unapply(op: EditOp, doc: Seq<Seq<Seq<char>>>)
    requires
        op.valid_for(doc),
        op.consistent_with(doc),
    ensures
        op.mirror_valid(op.apply(doc)),
        op.mirror_consistent(op.apply(doc)),
        op.unapplied(op.apply(doc)) == doc,
{
    let r = op.from_pos().0 as int;
    let c = op.from_pos().1 as int;
    let doc2 = op.apply(doc);
    if op.is_insert() {
        let ls = op.main_lines();
        lemma_insert_delete_roundtrip(doc, r, c, ls);
        assert(doc2[r].len() >= c);
    } else if op.is_delete() {
        let ls = op.del_lines();
        let tr = end_row(r, ls);
        let tc = end_col(c, ls);
        lemma_captured_end(doc, r, c, tr, tc);
        lemma_delete_insert_roundtrip(doc, r, c, tr, tc);
        assert(doc2[r].len() >= c);
    } else {
        let ins = op.main_lines();
        let del = op.del_lines();
        let tr = end_row(r, del);
        let tc = end_col(c, del);
        let mid = delete_applied(doc, r, c, tr, tc);
        lemma_captured_end(doc, r, c, tr, tc);
        lemma_delete_insert_roundtrip(doc, r, c, tr, tc);
        assert(mid[r] == doc[r].take(c) + doc[tr].skip(tc));
        assert(mid[r].len() >= c);
        lemma_insert_delete_roundtrip(mid, r, c, ins);
        assert(doc2 == insert_applied(mid, r, c, ins));
        assert(doc2[r].len() >= c);
        assert(delete_applied(doc2, r, c, end_row(r, ins), end_col(c, ins)) == mid);
        assert(captured_lines(doc2, r, c, end_row(r, ins), end_col(c, ins)) == ins);
        assert(insert_applied(mid, r, c, del) == insert_applied(
            mid,
            r,
            c,
            captured_lines(doc, r, c, tr, tc),
        ));
    }
}

/// Undoing can be redone: an operation whose mirror conditions hold of
/// `doc` is applicable to the document its mirror produces, agrees with the
/// rows standing there, and applying it restores `doc`.
pub proof fn lemma_unapply_then_apply(op: EditOp, doc: Seq<Seq<Seq<char>>>)
    requires
        op.mirror_valid(doc),
        op.mirror_consistent(doc),
    ensures
        op.valid_for(op.unapplied(doc)),
        op.consistent_with(op.unapplied(doc)),
        op.apply(op.unapplied(doc)) == doc,
{
    let r = op.from_pos().0 as int;
    let c = op.from_pos().1 as int;
    let doc2 = op.unapplied(doc);
    if op.is_insert() {
        let ls = op.main_lines();
        let tr = end_row(r, ls);
        let tc = end_col(c, ls);
        lemma_captured_end(doc, r, c, tr, tc);
        lemma_delete_insert_roundtrip(doc, r, c, tr, tc);
        assert(doc2[r].len() >= c);
    } else if op.is_delete() {
        let ls = op.del_lines();
        lemma_insert_delete_roundtrip(doc, r, c, ls);
        assert(doc2[r].len() >= c);
    } else {
        let ins = op.main_lines();
        let del = op.del_lines();
        let tr = end_row(r, ins);
        let tc = end_col(c, ins);
        let mid = delete_applied(doc, r, c, tr, tc);
        lemma_captured_end(doc, r, c, tr, tc);
        lemma_delete_insert_roundtrip(doc, r, c, tr, tc);
        assert(mid[r] == doc[r].take(c) + doc[tr].skip(tc));
        assert(mid[r].len() >= c);
        lemma_insert_delete_roundtrip(mid, r, c, del);
        assert(doc2 == insert_applied(mid, r, c, del));
        assert(doc2[r].len() >= c);
        assert(delete_applied(doc2, r, c, end_row(r, del), end_col(c, del)) == mid);
        assert(captured_lines(doc2, r, c, end_row(r, del), end_col(c, del)) == del);
        assert(insert_applied(mid, r, c, ins) == insert_applied(
            mid,
            r,
            c,
            captured_lines(doc, r, c, tr, tc),
        ));
    }
}

/// Round trip: applying an operation and then its mirror restores the
/// document row for row. The mirror is moreover applicable to, and its
/// recorded rows agree with, the document the operation produced — which is
/// what lets undo and redo alternate.
pub proof fn lemma_edit_roundtrip(op: EditOp, inv: EditOp, doc: Seq<Seq<Seq<char>>>)
    requires
        op.valid_for(doc),
        op.consistent_with(doc),
        inv.is_inverse_of(op),
    ensures
        inv.valid_for(op.apply(doc)),
        inv.consistent_with(op.apply(doc)),
        inv.apply(op.apply(doc)) == doc,
{
    lemma_apply_then_unapply(op, doc);
    lemma_inverse_congruent(op, inv, op.apply(doc));
}

/// The span `[(fr, fc), (tr, tc))` captured from a document ends, laid down
/// again at `(fr, fc)`, exactly at `(tr, tc)`.
pub proof fn lemma_captured_end(doc: Seq<Seq<Seq<char>>>, fr: int, fc: int, tr: int, tc: int)
    requires
        0 <= fr <= tr < doc.len(),
        0 <= fc <= doc[fr].len(),
        0 <= tc <= doc[tr].len(),
        fr == tr ==> fc <= tc,
    ensures
        captured_lines(doc, fr, fc, tr, tc).len() == tr - fr + 1,
        end_row(fr, captured_lines(doc, fr, fc, tr, tc)) == tr,
        end_col(fc, captured_lines(doc, fr, fc, tr, tc)) == tc,
{
    let cap = captured_lines(doc, fr, fc, tr, tc);
    if fr == tr {
        assert(cap.len() == 1);
        assert(cap.last() == doc[fr].subrange(fc, tc));
    } else {
        assert(cap.len() == tr - fr + 1);
        assert(cap.last() == doc[tr].take(tc));
    }
}

} // verus!
