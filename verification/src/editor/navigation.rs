//! Navigation queries on the whole editor state: each one asks the cursor
//! for a move against the current document and returns the new cursor, or
//! `None` for a move that would change nothing.
use vstd::prelude::*;

use crate::editor::content::pos_valid;
use crate::editor::cursor::{clamped, left_target, right_target, NavigationCommand};
use crate::editor::pos::PosInDocument;
use crate::editor::row::min_int;
use crate::editor::state::EditorState;

verus! {

impl EditorState {
    /// A move `n` rows up from the cursor.
    pub fn move_up(&self, n: usize) -> (r: NavigationCommand)
        requires
            self.wf(),
        ensures
            self.cursor.vertical_move_ensures(
                self.content.rows(),
                self.cursor.pos_spec().0 as int - min_int(n as int, self.cursor.pos_spec().0 as int),
                r,
            ),
    {
        self.cursor.move_up(&self.content, n)
    }

    /// A move `n` rows down from the cursor.
    pub fn move_down(&self, n: usize) -> (r: NavigationCommand)
        requires
            self.wf(),
        ensures
            self.cursor.vertical_move_ensures(
                self.content.rows(),
                self.cursor.pos_spec().0 as int + min_int(
                    n as int,
                    self.content.rows().len() - 1 - self.cursor.pos_spec().0 as int,
                ),
                r,
            ),
    {
        self.cursor.move_down(&self.content, n)
    }

    /// A move one cluster left, wrapping to the previous line end.
    pub fn move_left(&self) -> (r: NavigationCommand)
        requires
            self.wf(),
        ensures
            self.cursor.move_ensures(
                self.content.rows(),
                clamped(self.content.rows(), left_target(self.content.rows(), self.cursor.pos_spec())),
                None,
                r,
            ),
    {
        self.cursor.move_left(&self.content)
    }

    /// A move one cluster right, wrapping to the next line start.
    pub fn move_right(&self) -> (r: NavigationCommand)
        requires
            self.wf(),
        ensures
            self.cursor.move_ensures(
                self.content.rows(),
                clamped(
                    self.content.rows(),
                    right_target(self.content.rows(), self.cursor.pos_spec()),
                ),
                None,
                r,
            ),
    {
        self.cursor.move_right(&self.content)
    }

    /// A jump to column 0 of the cursor's row.
    pub fn move_line_start(&self) -> (r: NavigationCommand)
        requires
            self.wf(),
        ensures
            self.cursor.move_ensures(
                self.content.rows(),
                clamped(self.content.rows(), (self.cursor.pos_spec().0, 0)),
                None,
                r,
            ),
    {
        self.cursor.move_line_start(&self.content)
    }

    /// A jump to the end of the cursor's row.
    pub fn move_line_end(&self) -> (r: NavigationCommand)
        requires
            self.wf(),
        ensures
            self.cursor.move_ensures(
                self.content.rows(),
                (
                    self.cursor.pos_spec().0 as int,
                    self.content.rows()[self.cursor.pos_spec().0 as int].len() as int,
                ),
                None,
                r,
            ),
    {
        self.cursor.move_line_end(&self.content)
    }

    /// A jump to the document start.
    pub fn move_document_start(&self) -> (r: NavigationCommand)
        requires
            self.wf(),
        ensures
            self.cursor.move_ensures(self.content.rows(), (0, 0), None, r),
    {
        self.cursor.move_document_start(&self.content)
    }

    /// A jump to the end of the last row.
    pub fn move_document_end(&self) -> (r: NavigationCommand)
        requires
            self.wf(),
        ensures
            self.cursor.move_ensures(
                self.content.rows(),
                (self.content.rows().len() - 1, self.content.rows().last().len() as int),
                None,
                r,
            ),
    {
        self.cursor.move_document_end(&self.content)
    }

    /// A jump to an arbitrary position, clamped into the document.
    pub fn click(&self, new_pos: PosInDocument) -> (r: NavigationCommand)
        requires
            self.wf(),
        ensures
            self.cursor.move_ensures(
                self.content.rows(),
                clamped(self.content.rows(), new_pos),
                None,
                r,
            ),
    {
        self.cursor.move_to(&self.content, new_pos)
    }
}

} // verus!
