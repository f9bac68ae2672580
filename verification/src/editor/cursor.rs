//! The cursor: a document position plus the display column remembered
//! across a run of vertical moves. Every move is a pure query returning a
//! new cursor, or `None` when the move would not change the position — so
//! callers can skip redundant redraw and scroll work.
use vstd::prelude::*;

use crate::editor::content::{pos_valid, EditorContent};
use crate::editor::pos::PosInDocument;
use crate::editor::row::{char_idx_of, col_of, min_int};

verus! {

#[derive(Debug, PartialEq)]
pub struct Cursor {
    row: usize,
    col: usize,
    furthest_col: Option<usize>,
}

pub type NavigationCommand = Option<Cursor>;

/// `p` clamped into the document: first the row into the real rows, then
/// the column into that row's length.
pub open spec fn clamped(doc: Seq<Seq<Seq<char>>>, p: PosInDocument) -> (int, int) {
    let r = min_int(p.0 as int, doc.len() - 1);
    (r, min_int(p.1 as int, doc[r].len() as int))
}

impl Cursor {
    pub closed spec fn pos_spec(&self) -> PosInDocument {
        (self.row, self.col)
    }

    pub closed spec fn furthest_spec(&self) -> Option<usize> {
        self.furthest_col
    }

    /// The display column a vertical run aims at: the remembered column, or
    /// the display column of the cursor's position in `doc`.
    pub open spec fn vertical_mono_col(&self, doc: Seq<Seq<Seq<char>>>) -> usize {
        match self.furthest_spec() {
            Some(m) => m,
            None => col_of(doc[self.pos_spec().0 as int], self.pos_spec().1 as int),
        }
    }

    /// A cursor at `pos`, with no remembered column.
    pub fn from(pos: PosInDocument) -> (c: Self)
        ensures
            c.pos_spec() == pos,
            c.furthest_spec() is None,
    {
        let (row, col) = pos;
        Self { row, col, furthest_col: None }
    }

    /// A cursor at `(row, col)` remembering `furthest_col`.
    pub fn new(row: usize, col: usize, furthest_col: Option<usize>) -> (c: Self)
        ensures
            c.pos_spec() == (row, col),
            c.furthest_spec() == furthest_col,
    {
        Self { row, col, furthest_col }
    }

    /// The cursor's document position.
    pub fn pos(&self) -> (p: PosInDocument)
        ensures
            p == self.pos_spec(),
    {
        (self.row, self.col)
    }

    /// A move to `pos` clamped into the document; `None` when that is where
    /// the cursor already stands.
    pub fn move_to(&self, content: &EditorContent, pos: PosInDocument) -> (r: NavigationCommand)
        requires
            content.wf(),
        ensures
            self.move_ensures(content.rows(), clamped(content.rows(), pos), None, r),
    {
        self.move_to_set_furthest_col(content, pos, None)
    }

    /// What every clamping move guarantees: `None` exactly when the clamped
    /// target is the current position; otherwise a cursor standing on the
    /// valid target, carrying `furthest`.
    pub open spec fn move_ensures(
        &self,
        doc: Seq<Seq<Seq<char>>>,
        target: (int, int),
        furthest: Option<usize>,
        r: NavigationCommand,
    ) -> bool {
        &&& (r is None <==> target == (self.pos_spec().0 as int, self.pos_spec().1 as int))
        &&& match r {
            Some(cur) => {
                &&& cur.pos_spec().0 as int == target.0
                &&& cur.pos_spec().1 as int == target.1
                &&& pos_valid(doc, cur.pos_spec())
                &&& cur.furthest_spec() == furthest
                &&& cur.pos_spec() != self.pos_spec()
            },
            None => true,
        }
    }

    fn move_to_set_furthest_col(
        &self,
        content: &EditorContent,
        pos: PosInDocument,
        furthest_col: Option<usize>,
    ) -> (r: NavigationCommand)
        requires
            content.wf(),
        ensures
            self.move_ensures(content.rows(), clamped(content.rows(), pos), furthest_col, r),
    {
        let new_cursor_pos = Self::within_text(content, pos);
        self.move_cmd(new_cursor_pos, furthest_col)
    }

    fn within_text(content: &EditorContent, pos: PosInDocument) -> (r: PosInDocument)
        requires
            content.wf(),
        ensures
            r.0 as int == clamped(content.rows(), pos).0,
            r.1 as int == clamped(content.rows(), pos).1,
            pos_valid(content.rows(), r),
    {
        let (row, col) = pos;
        let last = content.last_line_row();
        let new_row = if row < last {
            row
        } else {
            last
        };
        let len = content.line_len(new_row);
        let new_col = if col < len {
            col
        } else {
            len
        };
        (new_row, new_col)
    }

    fn move_cmd(&self, pos: PosInDocument, furthest_col: Option<usize>) -> (r: NavigationCommand)
        ensures
            r is None <==> pos == self.pos_spec(),
            match r {
                Some(cur) => cur.pos_spec() == pos && cur.furthest_spec() == furthest_col
                    && cur.pos_spec() != self.pos_spec(),
                None => true,
            },
    {
        let (row, col) = pos;
        if self.row == row && self.col == col {
            None
        } else {
            Some(Cursor { row, col, furthest_col })
        }
    }

    /// A move `n` rows up, aiming at the remembered display column.
    pub fn move_up(&self, content: &EditorContent, n: usize) -> (r: NavigationCommand)
        requires
            content.wf(),
            pos_valid(content.rows(), self.pos_spec()),
        ensures
            self.vertical_move_ensures(
                content.rows(),
                self.pos_spec().0 as int - min_int(n as int, self.pos_spec().0 as int),
                r,
            ),
    {
        let step = if n < self.row {
            n
        } else {
            self.row
        };
        self.move_vertical(content, self.row - step)
    }

    /// A move `n` rows down, aiming at the remembered display column.
    pub fn move_down(&self, content: &EditorContent, n: usize) -> (r: NavigationCommand)
        requires
            content.wf(),
            pos_valid(content.rows(), self.pos_spec()),
        ensures
            self.vertical_move_ensures(
                content.rows(),
                self.pos_spec().0 as int + min_int(
                    n as int,
                    content.rows().len() - 1 - self.pos_spec().0 as int,
                ),
                r,
            ),
    {
        let last = content.last_line_row();
        let dist = last - self.row;
        let step = if n < dist {
            n
        } else {
            dist
        };
        self.move_vertical(content, self.row + step)
    }

    /// What a vertical move to `target_row` guarantees: the landing column
    /// is the cluster at the aimed display column, clamped into the row, and
    /// the result remembers that display column.
    pub open spec fn vertical_move_ensures(
        &self,
        doc: Seq<Seq<Seq<char>>>,
        target_row: int,
        r: NavigationCommand,
    ) -> bool {
        let m = self.vertical_mono_col(doc);
        let dest_col = min_int(char_idx_of(doc[target_row], m), doc[target_row].len() as int);
        &&& (r is None <==> (target_row, dest_col) == (
            self.pos_spec().0 as int,
            self.pos_spec().1 as int,
        ))
        &&& match r {
            Some(cur) => {
                &&& cur.pos_spec().0 as int == target_row
                &&& cur.pos_spec().1 as int == dest_col
                &&& pos_valid(doc, cur.pos_spec())
                &&& cur.furthest_spec() == Some(m)
                &&& cur.pos_spec() != self.pos_spec()
            },
            None => true,
        }
    }

    fn move_vertical(&self, content: &EditorContent, target_row: usize) -> (r: NavigationCommand)
        requires
            content.wf(),
            pos_valid(content.rows(), self.pos_spec()),
            target_row < content.rows().len(),
        ensures
            self.vertical_move_ensures(content.rows(), target_row as int, r),
    {
        let mono_col = match self.furthest_col {
            Some(m) => m,
            None => self.current_line(content).mono_col_at(self.col),
        };
        let new_col = self.line_at(content, target_row).char_idx_at(mono_col);
        self.move_to_set_furthest_col(content, (target_row, new_col), Some(mono_col))
    }

    fn current_line<'a>(&self, content: &'a EditorContent) -> (line: &'a crate::editor::row::Row)
        requires
            content.wf(),
            self.pos_spec().0 < content.rows().len(),
        ensures
            line@ == content.rows()[self.pos_spec().0 as int],
            line.wf(),
    {
        &content.lines[self.row]
    }

    fn line_at<'a>(&self, content: &'a EditorContent, row: usize) -> (line: &'a crate::editor::row::Row)
        requires
            content.wf(),
            row < content.rows().len(),
        ensures
            line@ == content.rows()[row as int],
            line.wf(),
    {
        &content.lines[row]
    }

    /// A move one cluster left; crossing the line start wraps to the end of
    /// the previous line; at the document start, no move.
    pub fn move_left(&self, content: &EditorContent) -> (r: NavigationCommand)
        requires
            content.wf(),
            pos_valid(content.rows(), self.pos_spec()),
        ensures
            self.move_ensures(
                content.rows(),
                clamped(content.rows(), left_target(content.rows(), self.pos_spec())),
                None,
                r,
            ),
    {
        let move_to: PosInDocument = if self.row == 0 && self.col == 0 {
            (0, 0)
        } else if self.col == 0 {
            content.line_end(self.row - 1)
        } else {
            (self.row, self.col - 1)
        };
        self.move_to(content, move_to)
    }

    /// A move one cluster right; crossing the line end wraps to the start of
    /// the next line; at the document end, no move.
    pub fn move_right(&self, content: &EditorContent) -> (r: NavigationCommand)
        requires
            content.wf(),
            pos_valid(content.rows(), self.pos_spec()),
        ensures
            self.move_ensures(
                content.rows(),
                clamped(content.rows(), right_target(content.rows(), self.pos_spec())),
                None,
                r,
            ),
    {
        let move_to: PosInDocument = if self.col < content.line_len(self.row) {
            (self.row, self.col + 1)
        } else if self.row < content.last_line_row() {
            (self.row + 1, 0)
        } else {
            (self.row, self.col)
        };
        self.move_to(content, move_to)
    }

    /// A jump to column 0 of the current row.
    pub fn move_line_start(&self, content: &EditorContent) -> (r: NavigationCommand)
        requires
            content.wf(),
            pos_valid(content.rows(), self.pos_spec()),
        ensures
            self.move_ensures(
                content.rows(),
                clamped(content.rows(), (self.pos_spec().0, 0)),
                None,
                r,
            ),
    {
        self.move_to(content, (self.row, 0))
    }

    /// A jump to the end of the current row.
    pub fn move_line_end(&self, content: &EditorContent) -> (r: NavigationCommand)
        requires
            content.wf(),
            pos_valid(content.rows(), self.pos_spec()),
        ensures
            self.move_ensures(
                content.rows(),
                (
                    self.pos_spec().0 as int,
                    content.rows()[self.pos_spec().0 as int].len() as int,
                ),
                None,
                r,
            ),
    {
        let p = content.line_end(self.row);
        let r = self.move_to(content, p);
        proof {
            assert(clamped(content.rows(), p).0 == self.pos_spec().0 as int);
            assert(clamped(content.rows(), p).1 == content.rows()[self.pos_spec().0 as int].len() as int);
            assert(clamped(content.rows(), p) == (
                self.pos_spec().0 as int,
                content.rows()[self.pos_spec().0 as int].len() as int,
            ));
        }
        r
    }

    /// A jump to the document start.
    pub fn move_document_start(&self, content: &EditorContent) -> (r: NavigationCommand)
        requires
            content.wf(),
        ensures
            self.move_ensures(content.rows(), (0, 0), None, r),
    {
        self.move_to(content, (0, 0))
    }

    /// A jump to the end of the last row.
    pub fn move_document_end(&self, content: &EditorContent) -> (r: NavigationCommand)
        requires
            content.wf(),
        ensures
            self.move_ensures(
                content.rows(),
                (content.rows().len() - 1, content.rows().last().len() as int),
                None,
                r,
            ),
    {
        let p = content.last_line_end();
        let r = self.move_to(content, p);
        proof {
            assert(clamped(content.rows(), p).0 == content.rows().len() - 1);
            assert(clamped(content.rows(), p).1 == content.rows().last().len() as int);
            assert(clamped(content.rows(), p) == (
                content.rows().len() - 1,
                content.rows().last().len() as int,
            ));
        }
        r
    }
}

/// The position one cluster left of `p`, wrapping to the previous line end.
pub open spec fn left_target(doc: Seq<Seq<Seq<char>>>, p: PosInDocument) -> PosInDocument {
    if p.0 == 0 && p.1 == 0 {
        (0usize, 0usize)
    } else if p.1 == 0 {
        (((p.0 - 1) as int) as usize, doc[p.0 - 1].len() as usize)
    } else {
        (p.0, ((p.1 - 1) as int) as usize)
    }
}

/// The position one cluster right of `p`, wrapping to the next line start.
pub open spec fn right_target(doc: Seq<Seq<Seq<char>>>, p: PosInDocument) -> PosInDocument {
    if (p.1 as int) < doc[p.0 as int].len() {
        (p.0, ((p.1 + 1) as int) as usize)
    } else if (p.0 as int) < doc.len() - 1 {
        (((p.0 + 1) as int) as usize, 0usize)
    } else {
        p
    }
}

} // verus!
