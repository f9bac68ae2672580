//! The document: an ordered sequence of rows plus the detected line
//! delimiter. At least one row always exists; an empty document is one empty
//! row. Positions address rows and grapheme-cluster columns, never bytes.
use vstd::prelude::*;

pub use crate::editor::split::{CR, CRLF, LF};

use crate::editor::pos::PosInDocument;
use crate::editor::row::{texts_of, Row, RowVecExt};
use crate::editor::split::{cr, crlf, detected_delimiter, lf, split_spec};
use crate::editor::unicode::clusters_of;
use crate::text::join_seqs;

verus! {

/// The cluster rows that stand for a sequence of line texts.
pub open spec fn rows_of_texts(parts: Seq<Seq<char>>) -> Seq<Seq<Seq<char>>> {
    parts.map_values(|l: Seq<char>| clusters_of(l))
}

/// Whether `d` is one of the three recognised line delimiters.
pub open spec fn is_delimiter(d: Seq<char>) -> bool {
    d == crlf() || d == lf() || d == cr()
}

/// Whether `p` addresses a row of `doc` and a column within that row.
pub open spec fn pos_valid(doc: Seq<Seq<Seq<char>>>, p: PosInDocument) -> bool {
    p.0 < doc.len() && p.1 <= doc[p.0 as int].len()
}

/// The rows of text spanning `[(fr, fc), (tr, tc))` of `doc`: a single-row
/// slice, or the first row's suffix, the whole interior rows, and the last
/// row's prefix.
pub open spec fn captured_lines(doc: Seq<Seq<Seq<char>>>, fr: int, fc: int, tr: int, tc: int) -> Seq<
    Seq<Seq<char>>,
> {
    if fr == tr {
        seq![doc[fr].subrange(fc, tc)]
    } else {
        seq![doc[fr].skip(fc)] + doc.subrange(fr + 1, tr) + seq![doc[tr].take(tc)]
    }
}

pub struct EditorContent {
    pub lines: Vec<Row>,
    pub delimiter: String,
}

impl EditorContent {
    /// The document as a sequence of rows, each a sequence of clusters.
    pub open spec fn rows(&self) -> Seq<Seq<Seq<char>>> {
        self.lines.deep_view()
    }

    /// At least one row, every row well-formed, and a recognised delimiter.
    pub open spec fn wf(&self) -> bool {
        &&& self.lines@.len() >= 1
        &&& forall|i: int| 0 <= i < self.lines@.len() ==> (#[trigger] self.lines@[i]).wf()
        &&& is_delimiter(self.delimiter@)
    }

    pub fn new(lines: Vec<Row>, delimiter: String) -> (c: Self)
        requires
            lines@.len() >= 1,
            forall|i: int| 0 <= i < lines@.len() ==> (#[trigger] lines@[i]).wf(),
            is_delimiter(delimiter@),
        ensures
            c.lines == lines,
            c.delimiter == delimiter,
            c.wf(),
    {
        Self { lines, delimiter }
    }

    /// Parses raw text: detects the delimiter and splits into rows.
    pub fn parse(content: &str) -> (c: Self)
        ensures
            c.rows() == rows_of_texts(split_spec(content@, detected_delimiter(content@))),
            texts_of(c.rows()) == split_spec(content@, detected_delimiter(content@)),
            c.delimiter@ == detected_delimiter(content@),
            c.wf(),
    {
        let (lines, delimiter) = split(content);
        Self { lines, delimiter }
    }

    /// The length of row `row`, in clusters.
    pub fn line_len(&self, row: usize) -> (n: usize)
        requires
            row < self.rows().len(),
        ensures
            n == self.rows()[row as int].len(),
    {
        self.lines[row].len()
    }

    /// The position just past the last cluster of row `row`.
    pub fn line_end(&self, row: usize) -> (p: PosInDocument)
        requires
            row < self.rows().len(),
        ensures
            p.0 == row,
            p.1 as int == self.rows()[row as int].len(),
    {
        (row, self.line_len(row))
    }

    /// The index of the last row.
    pub fn last_line_row(&self) -> (r: usize)
        requires
            self.wf(),
        ensures
            r == self.rows().len() - 1,
    {
        self.lines.len() - 1
    }

    /// The position just past the last cluster of the last row.
    pub fn last_line_end(&self) -> (p: PosInDocument)
        requires
            self.wf(),
        ensures
            p.0 as int == self.rows().len() - 1,
            p.1 as int == self.rows().last().len(),
    {
        self.line_end(self.last_line_row())
    }

    /// The rows of text spanning `[from, to)`.
    pub fn selection(&self, from: PosInDocument, to: PosInDocument) -> (r: Vec<Row>)
        requires
            self.wf(),
            pos_valid(self.rows(), from),
            pos_valid(self.rows(), to),
            from.0 < to.0 || (from.0 == to.0 && from.1 <= to.1),
        ensures
            r.deep_view() == captured_lines(self.rows(), from.0 as int, from.1 as int, to.0 as int, to.1 as int),
            forall|i: int| 0 <= i < r@.len() ==> (#[trigger] r@[i]).wf(),
            r@.len() >= 1,
    {
        let (from_row, from_col) = from;
        let (to_row, to_col) = to;
        let mut r: Vec<Row> = Vec::new();
        if from_row == to_row {
            r.push(self.lines[from_row].slice(from_col, to_col));
            proof {
                assert(r.deep_view() =~= captured_lines(self.rows(), from.0 as int, from.1 as int, to.0 as int, to.1 as int));
            }
        } else {
            let first_len = self.lines[from_row].len();
            r.push(self.lines[from_row].slice(from_col, first_len));
            let mut i: usize = from_row + 1;
            while i < to_row
                invariant
                    from_row < i <= to_row < self.lines@.len(),
                    self.wf(),
                    pos_valid(self.rows(), from),
                    r@.len() == i - from_row,
                    r@[0].wf(),
                    r@[0]@ == self.rows()[from.0 as int].skip(from.1 as int),
                    forall|j: int| 1 <= j < r@.len() ==> (#[trigger] r@[j]).wf(),
                    forall|j: int|
                        1 <= j < r@.len() ==> (#[trigger] r@[j])@ == self.rows()[from_row + j],
                    from == (from_row, from_col),
                decreases to_row - i,
            {
                r.push(self.lines[i].clone());
                i = i + 1;
            }
            r.push(self.lines[to_row].slice(0, to_col));
            proof {
                assert(self.rows()[from.0 as int].skip(from.1 as int) =~= self.rows()[
                    from.0 as int].subrange(from.1 as int, self.rows()[from.0 as int].len() as int));
                assert(r.deep_view() =~~= captured_lines(self.rows(), from.0 as int, from.1 as int, to.0 as int, to.1 as int));
            }
        }
        r
    }

    /// The text spanning `[from, to)`, rows joined with the document's
    /// delimiter.
    pub fn selected_text(&self, from: PosInDocument, to: PosInDocument) -> (s: String)
        requires
            self.wf(),
            pos_valid(self.rows(), from),
            pos_valid(self.rows(), to),
            from.0 < to.0 || (from.0 == to.0 && from.1 <= to.1),
        ensures
            s@ == join_seqs(texts_of(captured_lines(self.rows(), from.0 as int, from.1 as int, to.0 as int, to.1 as int)), self.delimiter@),
    {
        self.selection(from, to).join(self.delimiter.as_str())
    }
}

/// Splits raw text into rows on its detected delimiter.
pub fn split(content: &str) -> (r: (Vec<Row>, String))
    ensures
        r.0.deep_view() == rows_of_texts(split_spec(content@, detected_delimiter(content@))),
        texts_of(r.0.deep_view()) == split_spec(content@, detected_delimiter(content@)),
        r.1@ == detected_delimiter(content@),
        r.0@.len() >= 1,
        forall|i: int| 0 <= i < r.0@.len() ==> (#[trigger] r.0@[i]).wf(),
{
    let (texts, delimiter) = crate::editor::split::split(content);
    let ghost parts = split_spec(content@, detected_delimiter(content@));
    proof {
        crate::editor::split::lemma_split_spec_len(content@, detected_delimiter(content@));
    }
    let mut rows: Vec<Row> = Vec::new();
    let mut i: usize = 0;
    while i < texts.len()
        invariant
            i <= texts@.len(),
            texts.deep_view() == parts,
            rows@.len() == i,
            forall|j: int| 0 <= j < i ==> (#[trigger] rows@[j]).wf(),
            forall|j: int| 0 <= j < i ==> (#[trigger] rows@[j])@ == clusters_of(parts[j]),
            forall|j: int| 0 <= j < i ==> (#[trigger] rows@[j])@.flatten() == parts[j],
        decreases texts@.len() - i,
    {
        let row = Row::new(texts[i].as_str());
        rows.push(row);
        i = i + 1;
    }
    proof {
        assert(rows.deep_view() =~= rows_of_texts(parts));
        assert(texts_of(rows.deep_view()) =~= parts);
    }
    (rows, delimiter)
}

} // verus!
