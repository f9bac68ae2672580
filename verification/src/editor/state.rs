//! The orchestrator: owns the document, the viewport, the cursor, the
//! optional selection anchor and the undo/redo stacks, and composes them
//! into cursor motion, editing, undo and redo. The stack invariants say
//! that every recorded operation can be undone against the document as it
//! now stands, and redone again — linear history, verified.
use vstd::prelude::*;

use crate::editor::content::{pos_valid, EditorContent};
use crate::editor::cursor::Cursor;
use crate::editor::edit::{
    lemma_apply_then_unapply, lemma_inverse_congruent, lemma_unapply_then_apply, process, EditOp,
};
use crate::editor::pos::{ordered_pair, PosInDocument, PosInDocumentExt};
use crate::editor::viewport::{scroll_into, Viewport};

verus! {

pub type ReRenderContent = bool;

pub type Selection = Option<(PosInDocument, PosInDocument)>;

/// The reported selection: nothing without an anchor, else anchor and
/// cursor in document order.
pub open spec fn selection_of(anchor: Option<PosInDocument>, cur: PosInDocument) -> Selection {
    match anchor {
        None => None,
        Some(a) => Some(ordered_pair(a, cur)),
    }
}

/// The undo stack read from its top (the last element): each operation's
/// mirror applies to the current document, agrees with the rows standing
/// there, and restores the document the rest of the stack speaks of.
pub open spec fn undo_ok(doc: Seq<Seq<Seq<char>>>, stack: Seq<EditOp>) -> bool
    decreases stack.len(),
{
    stack.len() == 0 || {
        let op = stack.last();
        &&& op.rows_wf()
        &&& op.mirror_valid(doc)
        &&& op.mirror_consistent(doc)
        &&& undo_ok(op.unapplied(doc), stack.drop_last())
    }
}

/// The redo stack read from its top: each operation applies to the current
/// document, and the rest to the document it produces.
pub open spec fn redo_ok(doc: Seq<Seq<Seq<char>>>, stack: Seq<EditOp>) -> bool
    decreases stack.len(),
{
    stack.len() == 0 || {
        let op = stack.last();
        &&& op.rows_wf()
        &&& op.valid_for(doc)
        &&& op.consistent_with(doc)
        &&& redo_ok(op.apply(doc), stack.drop_last())
    }
}

/// The viewport after the minimal scroll that brings `pos` into view.
pub open spec fn scrolled_to(v_old: Viewport, v_new: Viewport, pos: PosInDocument) -> bool {
    &&& v_new.top as int == scroll_into(pos.0 as int, v_old.top as int, v_old.height as int)
    &&& v_new.left as int == scroll_into(pos.1 as int, v_old.left as int, v_old.width as int)
    &&& v_new.width == v_old.width
    &&& v_new.height == v_old.height
}

pub struct EditorState {
    pub content: EditorContent,
    pub viewport: Viewport,
    pub cursor: Cursor,
    pub selection_pos: Option<PosInDocument>,
    pub undo_stack: Vec<EditOp>,
    pub redo_stack: Vec<EditOp>,
}

impl EditorState {
    pub open spec fn anchor_spec(&self) -> Option<PosInDocument> {
        self.selection_pos
    }

    pub open spec fn undo_ops(&self) -> Seq<EditOp> {
        self.undo_stack@
    }

    pub open spec fn redo_ops(&self) -> Seq<EditOp> {
        self.redo_stack@
    }

    /// The whole state is coherent: the document is well-formed, cursor,
    /// anchor and viewport address it, and both history stacks replay
    /// against it.
    pub open spec fn wf(&self) -> bool {
        &&& self.content.wf()
        &&& pos_valid(self.content.rows(), self.cursor.pos_spec())
        &&& self.viewport.top < self.content.rows().len()
        &&& self.viewport.height >= 1
        &&& match self.anchor_spec() {
            Some(p) => pos_valid(self.content.rows(), p),
            None => true,
        }
        &&& undo_ok(self.content.rows(), self.undo_ops())
        &&& redo_ok(self.content.rows(), self.redo_ops())
    }

    pub fn new(
        content: EditorContent,
        viewport: Viewport,
        cursor_pos: PosInDocument,
        selection_pos: Option<PosInDocument>,
    ) -> (s: Self)
        requires
            content.wf(),
            pos_valid(content.rows(), cursor_pos),
            viewport.top < content.rows().len(),
            viewport.height >= 1,
            match selection_pos {
                Some(p) => pos_valid(content.rows(), p),
                None => true,
            },
        ensures
            s.wf(),
            s.content == content,
            s.viewport == viewport,
            s.cursor.pos_spec() == cursor_pos,
            s.cursor.furthest_spec() is None,
            s.anchor_spec() == selection_pos,
            s.undo_ops().len() == 0,
            s.redo_ops().len() == 0,
    {
        Self {
            content,
            viewport,
            cursor: Cursor::from(cursor_pos),
            selection_pos,
            undo_stack: Vec::new(),
            redo_stack: Vec::new(),
        }
    }

    /// The selected span: anchor and cursor in document order, `None`
    /// without an anchor.
    pub fn selection(&self) -> (r: Selection)
        ensures
            r == selection_of(self.anchor_spec(), self.cursor.pos_spec()),
    {
        match self.selection_pos {
            None => None,
            Some(a) => {
                let cp = self.cursor.pos();
                if a.is_before(&cp) {
                    Some((a, cp))
                } else {
                    Some((cp, a))
                }
            },
        }
    }

    /// Adopts `new_cursor`: updates or clears the anchor, assigns the
    /// cursor, and scrolls it into view. Returns whether the visible
    /// content must be redrawn.
    pub fn move_cursor(&mut self, new_cursor: Cursor, is_selection: bool) -> (r: ReRenderContent)
        requires
            old(self).wf(),
            pos_valid(old(self).content.rows(), new_cursor.pos_spec()),
        ensures
            final(self).wf(),
            final(self).content == old(self).content,
            final(self).cursor == new_cursor,
            final(self).undo_ops() == old(self).undo_ops(),
            final(self).redo_ops() == old(self).redo_ops(),
            final(self).anchor_spec() == (if is_selection {
                if old(self).anchor_spec() is Some {
                    old(self).anchor_spec()
                } else {
                    Some(old(self).cursor.pos_spec())
                }
            } else {
                Option::<PosInDocument>::None
            }),
            scrolled_to(old(self).viewport, final(self).viewport, new_cursor.pos_spec()),
            r == (final(self).viewport.top != old(self).viewport.top || final(self).viewport.left
                != old(self).viewport.left || old(self).anchor_spec() is Some
                || final(self).anchor_spec() is Some),
    {
        let selection_updated = self.update_selection(is_selection);
        self.cursor = new_cursor;
        match self.viewport.scroll_into_view(self.cursor.pos()) {
            Some(scroll_to) => {
                let (top, left) = scroll_to;
                self.viewport.scroll(top, left);
                true
            },
            None => selection_updated,
        }
    }

    fn update_selection(&mut self, is_selection: bool) -> (r: ReRenderContent)
        ensures
            final(self).content == old(self).content,
            final(self).cursor == old(self).cursor,
            final(self).viewport == old(self).viewport,
            final(self).undo_ops() == old(self).undo_ops(),
            final(self).redo_ops() == old(self).redo_ops(),
            final(self).anchor_spec() == (if is_selection {
                if old(self).anchor_spec() is Some {
                    old(self).anchor_spec()
                } else {
                    Some(old(self).cursor.pos_spec())
                }
            } else {
                Option::<PosInDocument>::None
            }),
            r == (old(self).anchor_spec() is Some || final(self).anchor_spec() is Some),
    {
        let was_selected = self.selection_pos.is_some();
        self.selection_pos = if is_selection {
            match self.selection_pos {
                Some(p) => Some(p),
                None => Some(self.cursor.pos()),
            }
        } else {
            None
        };
        was_selected || self.selection_pos.is_some()
    }

    /// Selects the whole document: anchor at the start, cursor at the end.
    pub fn select_all(&mut self) -> (r: ReRenderContent)
        requires
            old(self).wf(),
        ensures
            final(self).wf(),
            final(self).content == old(self).content,
            final(self).viewport == old(self).viewport,
            final(self).undo_ops() == old(self).undo_ops(),
            final(self).redo_ops() == old(self).redo_ops(),
            final(self).anchor_spec() == Some((0usize, 0usize)),
            final(self).cursor.pos_spec().0 as int == old(self).content.rows().len() - 1,
            final(self).cursor.pos_spec().1 as int == old(self).content.rows().last().len(),
            r == true,
    {
        self.selection_pos = Some((0, 0));
        self.cursor = Cursor::from(self.content.last_line_end());
        true
    }

    /// Moves the viewport origin.
    pub fn scroll(&mut self, scroll_to: PosInDocument) -> (r: ReRenderContent)
        requires
            old(self).wf(),
            scroll_to.0 < old(self).content.rows().len(),
        ensures
            final(self).wf(),
            final(self).content == old(self).content,
            final(self).cursor == old(self).cursor,
            final(self).anchor_spec() == old(self).anchor_spec(),
            final(self).undo_ops() == old(self).undo_ops(),
            final(self).redo_ops() == old(self).redo_ops(),
            final(self).viewport.top == scroll_to.0,
            final(self).viewport.left == scroll_to.1,
            final(self).viewport.width == old(self).viewport.width,
            final(self).viewport.height == old(self).viewport.height,
            r == true,
    {
        let (top, left) = scroll_to;
        self.viewport.scroll(top, left);
        true
    }

    /// Applies `edit_op`: splices the document, pushes the operation onto
    /// the undo stack, clears the redo stack (linear history), moves the
    /// cursor to the operation's landing position and scrolls it into view.
    pub fn edit(&mut self, edit_op: EditOp) -> (r: ReRenderContent)
        requires
            old(self).wf(),
            edit_op.valid_for(old(self).content.rows()),
            edit_op.consistent_with(old(self).content.rows()),
            edit_op.rows_wf(),
        ensures
            final(self).wf(),
            final(self).content.rows() == edit_op.apply(old(self).content.rows()),
            final(self).content.delimiter == old(self).content.delimiter,
            (final(self).cursor.pos_spec().0 as int, final(self).cursor.pos_spec().1 as int)
                == edit_op.landing_pos(old(self).content.rows()),
            final(self).cursor.furthest_spec() is None,
            final(self).anchor_spec() is None,
            final(self).undo_ops() == old(self).undo_ops().push(edit_op),
            final(self).redo_ops().len() == 0,
            scrolled_to(old(self).viewport, final(self).viewport, final(self).cursor.pos_spec()),
            r == true,
    {
        let ghost doc = self.content.rows();
        let pos = process(&mut self.content, &edit_op);
        proof {
            lemma_apply_then_unapply(edit_op, doc);
        }
        self.undo_stack.push(edit_op);
        self.redo_stack = Vec::new();
        self.selection_pos = None;
        self.cursor = Cursor::from(pos);
        self.scroll_cursor_into_view();
        proof {
            assert(self.undo_stack@.drop_last() =~= old(self).undo_ops());
        }
        true
    }

    /// Undoes the most recent operation, if any: applies its mirror, moves
    /// the cursor back to the operation's origin, and makes the operation
    /// redoable.
    pub fn undo(&mut self) -> (r: ReRenderContent)
        requires
            old(self).wf(),
        ensures
            final(self).wf(),
            old(self).undo_ops().len() == 0 ==> {
                &&& r == false
                &&& final(self).content == old(self).content
                &&& final(self).cursor == old(self).cursor
                &&& final(self).viewport == old(self).viewport
                &&& final(self).anchor_spec() == old(self).anchor_spec()
                &&& final(self).undo_ops() == old(self).undo_ops()
                &&& final(self).redo_ops() == old(self).redo_ops()
            },
            old(self).undo_ops().len() > 0 ==> {
                let op = old(self).undo_ops().last();
                &&& r == true
                &&& final(self).content.rows() == op.unapplied(old(self).content.rows())
                &&& final(self).content.delimiter == old(self).content.delimiter
                &&& final(self).undo_ops() == old(self).undo_ops().drop_last()
                &&& final(self).redo_ops() == old(self).redo_ops().push(op)
                &&& final(self).cursor.pos_spec() == op.from_pos()
                &&& final(self).anchor_spec() is None
                &&& scrolled_to(
                    old(self).viewport,
                    final(self).viewport,
                    final(self).cursor.pos_spec(),
                )
            },
    {
        let ghost doc = self.content.rows();
        match self.undo_stack.pop() {
            Some(op) => {
                proof {
                    assert(op == old(self).undo_ops().last());
                    assert(self.undo_stack@ =~= old(self).undo_ops().drop_last());
                }
                let inv = op.inverse();
                proof {
                    lemma_inverse_congruent(op, inv, doc);
                }
                let _pos = process(&mut self.content, &inv);
                proof {
                    lemma_inverse_congruent(op, inv, doc);
                    lemma_unapply_then_apply(op, doc);
                }
                let from = match &op {
                    EditOp::Insert { from, .. } => *from,
                    EditOp::Delete { from, .. } => *from,
                    EditOp::Replace { from, .. } => *from,
                };
                self.selection_pos = None;
                self.cursor = Cursor::from(from);
                self.scroll_cursor_into_view();
                self.redo_stack.push(op);
                proof {
                    assert(self.redo_stack@.drop_last() =~= old(self).redo_ops());
                }
                true
            },
            None => false,
        }
    }

    /// Redoes the most recently undone operation, if any: applies it again,
    /// moves the cursor to its landing position, and makes it undoable.
    pub fn redo(&mut self) -> (r: ReRenderContent)
        requires
            old(self).wf(),
        ensures
            final(self).wf(),
            old(self).redo_ops().len() == 0 ==> {
                &&& r == false
                &&& final(self).content == old(self).content
                &&& final(self).cursor == old(self).cursor
                &&& final(self).viewport == old(self).viewport
                &&& final(self).anchor_spec() == old(self).anchor_spec()
                &&& final(self).undo_ops() == old(self).undo_ops()
                &&& final(self).redo_ops() == old(self).redo_ops()
            },
            old(self).redo_ops().len() > 0 ==> {
                let op = old(self).redo_ops().last();
                &&& r == true
                &&& final(self).content.rows() == op.apply(old(self).content.rows())
                &&& final(self).content.delimiter == old(self).content.delimiter
                &&& final(self).redo_ops() == old(self).redo_ops().drop_last()
                &&& final(self).undo_ops() == old(self).undo_ops().push(op)
                &&& (final(self).cursor.pos_spec().0 as int, final(self).cursor.pos_spec().1 as int)
                    == op.landing_pos(old(self).content.rows())
                &&& final(self).anchor_spec() is None
                &&& scrolled_to(
                    old(self).viewport,
                    final(self).viewport,
                    final(self).cursor.pos_spec(),
                )
            },
    {
        let ghost doc = self.content.rows();
        match self.redo_stack.pop() {
            Some(op) => {
                proof {
                    assert(op == old(self).redo_ops().last());
                    assert(self.redo_stack@ =~= old(self).redo_ops().drop_last());
                }
                let pos = process(&mut self.content, &op);
                proof {
                    lemma_apply_then_unapply(op, doc);
                }
                self.selection_pos = None;
                self.cursor = Cursor::from(pos);
                self.scroll_cursor_into_view();
                self.undo_stack.push(op);
                proof {
                    assert(self.undo_stack@.drop_last() =~= old(self).undo_ops());
                }
                true
            },
            None => false,
        }
    }

    fn scroll_cursor_into_view(&mut self)
        ensures
            final(self).content == old(self).content,
            final(self).cursor == old(self).cursor,
            final(self).anchor_spec() == old(self).anchor_spec(),
            final(self).undo_ops() == old(self).undo_ops(),
            final(self).redo_ops() == old(self).redo_ops(),
            scrolled_to(old(self).viewport, final(self).viewport, old(self).cursor.pos_spec()),
    {
        match self.viewport.scroll_into_view(self.cursor.pos()) {
            Some(scroll_to) => {
                let (top, left) = scroll_to;
                self.viewport.scroll(top, left);
            },
            None => {},
        }
    }
}

} // verus!
