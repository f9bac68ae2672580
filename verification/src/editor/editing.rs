//! Single-character editing on the editor state: typing one character and
//! deleting forward, both expressed as undoable edit operations so that
//! grapheme-cluster boundaries and line joins are respected.
use vstd::prelude::*;

use crate::editor::content::pos_valid;
use crate::editor::cursor::{clamped, right_target, Cursor};
use crate::editor::edit::EditOp;
use crate::editor::events::{delete_span_outcome, insert_outcome, state_unchanged};
use crate::editor::pos::PosInDocument;
use crate::editor::state::EditorState;

verus! {

impl EditorState {
    /// Types `c` at `pos`: a newline splits the row there, any other
    /// character is spliced in. The edit is undoable.
    pub fn insert_char(&mut self, pos: PosInDocument, c: char) -> (r: bool)
        requires
            old(self).wf(),
            pos_valid(old(self).content.rows(), pos),
        ensures
            final(self).wf(),
            insert_outcome(*old(self), *final(self), pos, seq![c], r),
    {
        let mut text = String::new();
        text.push(c);
        proof {
            assert(text@ =~= seq![c]);
        }
        let op = EditOp::insert(pos, text.as_str());
        match op.if_fits() {
            Some(op) => {
                let rr = self.edit(op);
                proof {
                    assert(self.undo_ops().drop_last() =~= old(self).undo_ops());
                }
                rr
            },
            None => false,
        }
    }

    /// Deletes the cluster at `pos`, or joins the next row onto this one
    /// when `pos` stands at a row's end; at the document end, nothing. The
    /// edit is undoable.
    pub fn delete_char(&mut self, pos: PosInDocument) -> (r: bool)
        requires
            old(self).wf(),
            pos_valid(old(self).content.rows(), pos),
        ensures
            final(self).wf(),
            ({
                let rt = right_target(old(self).content.rows(), pos);
                if rt == pos {
                    state_unchanged(*old(self), *final(self)) && r == false
                } else {
                    delete_span_outcome(*old(self), *final(self), pos, rt, r)
                }
            }),
    {
        let cursor = Cursor::from(pos);
        let row_count = self.content.lines.len();
        let line_len = self.content.line_len(pos.0);
        match cursor.move_right(&self.content) {
            Some(cursor_right) => {
                proof {
                    let doc = self.content.rows();
                    let rt = right_target(doc, pos);
                    if (pos.1 as int) < doc[pos.0 as int].len() {
                        assert(pos_valid(doc, rt));
                        assert(clamped(doc, rt).0 == rt.0 as int && clamped(doc, rt).1
                            == rt.1 as int);
                    } else if (pos.0 as int) < doc.len() - 1 {
                        assert(pos_valid(doc, rt));
                        assert(clamped(doc, rt).0 == rt.0 as int && clamped(doc, rt).1
                            == rt.1 as int);
                    } else {
                        assert(clamped(doc, rt).0 == rt.0 as int && clamped(doc, rt).1
                            == rt.1 as int);
                    }
                }
                let op = EditOp::delete(&self.content, pos, cursor_right.pos());
                let rr = self.edit(op);
                proof {
                    assert(self.undo_ops().drop_last() =~= old(self).undo_ops());
                }
                rr
            },
            None => false,
        }
    }
}

} // verus!
