//! Mapping terminal events to editor actions: cursor motion (with or
//! without selection), viewport scrolling, select-all, undo and redo,
//! clipboard capture, and edit operations built from typing, deleting and
//! pasting. The decision an event selects is the spec function
//! `command_of`; `process_event` carries it out.
use vstd::prelude::*;

use crate::editor::content::{captured_lines, pos_valid, rows_of_texts};
use crate::editor::cursor::{clamped, left_target, right_target, Cursor};
use crate::editor::edit::{delete_applied, end_col, end_row, insert_applied, EditOp};
use crate::editor::pos::PosInDocument;
use crate::editor::row::{char_idx_of, min_int, texts_of};
use crate::editor::split::{detected_delimiter, split_spec};
use crate::editor::state::{scrolled_to, EditorState, ReRenderContent};
use crate::editor::viewport::abs_coord;
use crate::terminal::events::{Event, KeyCode, Mouse, MouseButton, MouseEvent, CTRL, SHIFT};
use crate::text::join_seqs;

verus! {

/// The action an event selects, as pure data: a cursor target with its
/// remembered column and selection flag, a vertical scroll target, one of
/// the global commands, a clipboard capture, or an edit described by its
/// span and inserted text.
pub enum CommandSpec {
    Nav((int, int), Option<usize>, bool),
    ScrollV(int),
    SelectAll,
    Undo,
    Redo,
    Copy,
    Cut(PosInDocument, PosInDocument),
    InsertText(PosInDocument, Seq<char>),
    ReplaceText(PosInDocument, PosInDocument, Seq<char>),
    DeleteSpan(PosInDocument, PosInDocument),
    Nothing,
}

/// The vertical navigation target: `n` rows from the cursor, landing on
/// the cluster at the remembered display column, clamped into the row.
pub open spec fn vertical_target(st: EditorState, n: int, down: bool) -> (int, int) {
    let doc = st.content.rows();
    let row = st.cursor.pos_spec().0 as int;
    let tr = if down {
        row + min_int(n, doc.len() - 1 - row)
    } else {
        row - min_int(n, row)
    };
    let m = st.cursor.vertical_mono_col(doc);
    (tr, min_int(char_idx_of(doc[tr], m), doc[tr].len() as int))
}

/// The vertical scroll target: `n` rows from the viewport origin, clamped
/// at the document edges.
pub open spec fn scroll_target(st: EditorState, n: int, down: bool) -> int {
    let doc = st.content.rows();
    let top = st.viewport.top as int;
    if down {
        min_int(top + min_int(n, doc.len() - 1 - top), doc.len() - 1)
    } else {
        min_int(top - min_int(n, top), doc.len() - 1)
    }
}

/// What a key or mouse event asks of the editor under its key bindings:
/// plain and shifted motion, control chords, SGR mouse actions, and
/// pastes.
pub open spec fn command_of(e: Event, st: EditorState) -> CommandSpec {
    let doc = st.content.rows();
    let cur = st.cursor.pos_spec();
    let sel = crate::editor::state::selection_of(st.anchor_spec(), cur);
    match e {
        Event::Key(code, m) => {
            if (m == 0 || m == SHIFT) && code == KeyCode::Home {
                CommandSpec::Nav(clamped(doc, (cur.0, 0)), None, m == SHIFT)
            } else if (m == 0 || m == SHIFT) && code == KeyCode::End {
                CommandSpec::Nav((cur.0 as int, doc[cur.0 as int].len() as int), None, m == SHIFT)
            } else if (m == 0 || m == SHIFT) && code == KeyCode::Up {
                CommandSpec::Nav(
                    vertical_target(st, 1, false),
                    Some(st.cursor.vertical_mono_col(doc)),
                    m == SHIFT,
                )
            } else if (m == 0 || m == SHIFT) && code == KeyCode::Down {
                CommandSpec::Nav(
                    vertical_target(st, 1, true),
                    Some(st.cursor.vertical_mono_col(doc)),
                    m == SHIFT,
                )
            } else if (m == 0 || m == SHIFT) && code == KeyCode::Right {
                CommandSpec::Nav(clamped(doc, right_target(doc, cur)), None, m == SHIFT)
            } else if (m == 0 || m == SHIFT) && code == KeyCode::Left {
                CommandSpec::Nav(clamped(doc, left_target(doc, cur)), None, m == SHIFT)
            } else if (m == 0 || m == SHIFT) && code == KeyCode::PageDown {
                CommandSpec::Nav(
                    vertical_target(st, st.viewport.height - 1, true),
                    Some(st.cursor.vertical_mono_col(doc)),
                    m == SHIFT,
                )
            } else if (m == 0 || m == SHIFT) && code == KeyCode::PageUp {
                CommandSpec::Nav(
                    vertical_target(st, st.viewport.height - 1, false),
                    Some(st.cursor.vertical_mono_col(doc)),
                    m == SHIFT,
                )
            } else if m == CTRL && code == KeyCode::Home {
                CommandSpec::Nav((0, 0), None, false)
            } else if m == CTRL && code == KeyCode::End {
                CommandSpec::Nav((doc.len() - 1, doc.last().len() as int), None, false)
            } else if m == CTRL && code == KeyCode::Up {
                CommandSpec::ScrollV(scroll_target(st, 1, false))
            } else if m == CTRL && code == KeyCode::Down {
                CommandSpec::ScrollV(scroll_target(st, 1, true))
            } else if m == CTRL && code == KeyCode::Char('A') {
                CommandSpec::SelectAll
            } else if m == CTRL && code == KeyCode::Char('Z') {
                CommandSpec::Undo
            } else if m == CTRL && code == KeyCode::Char('Y') {
                CommandSpec::Redo
            } else if m == CTRL && code == KeyCode::Char('C') {
                if sel is Some {
                    CommandSpec::Copy
                } else {
                    CommandSpec::Nothing
                }
            } else if m == CTRL && code == KeyCode::Char('X') {
                match sel {
                    Some((f, t)) => CommandSpec::Cut(f, t),
                    None => CommandSpec::Nothing,
                }
            } else if m == 0 {
                match code {
                    KeyCode::Char(c) => match sel {
                        Some((f, t)) => CommandSpec::ReplaceText(f, t, seq![c]),
                        None => CommandSpec::InsertText(cur, seq![c]),
                    },
                    KeyCode::Enter => match sel {
                        Some((f, t)) => CommandSpec::ReplaceText(f, t, seq!['\n']),
                        None => CommandSpec::InsertText(cur, seq!['\n']),
                    },
                    KeyCode::Backspace => match sel {
                        Some((f, t)) => CommandSpec::DeleteSpan(f, t),
                        None => {
                            if cur == (0usize, 0usize) {
                                CommandSpec::Nothing
                            } else {
                                CommandSpec::DeleteSpan(left_target(doc, cur), cur)
                            }
                        },
                    },
                    KeyCode::Delete => match sel {
                        Some((f, t)) => CommandSpec::DeleteSpan(f, t),
                        None => {
                            if right_target(doc, cur) == cur {
                                CommandSpec::Nothing
                            } else {
                                CommandSpec::DeleteSpan(cur, right_target(doc, cur))
                            }
                        },
                    },
                    _ => CommandSpec::Nothing,
                }
            } else {
                CommandSpec::Nothing
            }
        },
        Event::Mouse(m) => match m {
            Mouse::Button(MouseButton::Left, MouseEvent::Press, x, y) => CommandSpec::Nav(
                clamped(
                    doc,
                    (
                        abs_coord(st.viewport.top as int, y as int) as usize,
                        abs_coord(st.viewport.left as int, x as int) as usize,
                    ),
                ),
                None,
                false,
            ),
            Mouse::Button(MouseButton::Left, MouseEvent::Drag, x, y) => CommandSpec::Nav(
                clamped(
                    doc,
                    (
                        abs_coord(st.viewport.top as int, y as int) as usize,
                        abs_coord(st.viewport.left as int, x as int) as usize,
                    ),
                ),
                None,
                true,
            ),
            Mouse::WheelUp(_, _) => CommandSpec::ScrollV(scroll_target(st, 1, false)),
            Mouse::WheelDown(_, _) => CommandSpec::ScrollV(scroll_target(st, 1, true)),
            _ => CommandSpec::Nothing,
        },
        Event::Paste(s) => match sel {
            Some((f, t)) => CommandSpec::ReplaceText(f, t, s@),
            None => CommandSpec::InsertText(cur, s@),
        },
    }
}

/// The state as the caller left it: every observable part unchanged.
pub open spec fn state_unchanged(pre: EditorState, post: EditorState) -> bool {
    &&& post.content == pre.content
    &&& post.cursor == pre.cursor
    &&& post.viewport == pre.viewport
    &&& post.anchor_spec() == pre.anchor_spec()
    &&& post.undo_ops() == pre.undo_ops()
    &&& post.redo_ops() == pre.redo_ops()
}

/// The rows that stand for `text` when it is inserted.
pub open spec fn ins_lines_of(text: Seq<char>) -> Seq<Seq<Seq<char>>> {
    rows_of_texts(split_spec(text, detected_delimiter(text)))
}

/// Whether the end position of inserting `text` at `at` is computable on
/// this machine.
pub open spec fn ins_fits(at: PosInDocument, text: Seq<char>) -> bool {
    let ls = ins_lines_of(text);
    &&& at.0 + ls.len() - 1 <= usize::MAX
    &&& end_col(at.1 as int, ls) <= usize::MAX
}

/// What every applied edit leaves behind: cleared selection and redo
/// history, one more undoable operation which restores the previous
/// document, and the cursor scrolled into view.
pub open spec fn edited_common(pre: EditorState, post: EditorState, r: ReRenderContent) -> bool {
    &&& post.anchor_spec() is None
    &&& post.redo_ops().len() == 0
    &&& post.undo_ops().drop_last() == pre.undo_ops()
    &&& post.undo_ops().len() == pre.undo_ops().len() + 1
    &&& post.undo_ops().last().apply(pre.content.rows()) == post.content.rows()
    &&& post.content.delimiter == pre.content.delimiter
    &&& post.cursor.furthest_spec() is None
    &&& scrolled_to(pre.viewport, post.viewport, post.cursor.pos_spec())
    &&& r == true
}

/// The outcome of a navigation command: no change at all when the target
/// is where the cursor stands, else the cursor moved there, the anchor
/// updated or cleared, and the viewport scrolled after it.
pub open spec fn nav_outcome(
    pre: EditorState,
    post: EditorState,
    target: (int, int),
    furthest: Option<usize>,
    selecting: bool,
    r: ReRenderContent,
) -> bool {
    if target == (pre.cursor.pos_spec().0 as int, pre.cursor.pos_spec().1 as int) {
        state_unchanged(pre, post) && r == false
    } else {
        &&& post.content == pre.content
        &&& post.cursor.pos_spec().0 as int == target.0
        &&& post.cursor.pos_spec().1 as int == target.1
        &&& post.cursor.furthest_spec() == furthest
        &&& post.undo_ops() == pre.undo_ops()
        &&& post.redo_ops() == pre.redo_ops()
        &&& post.anchor_spec() == (if selecting {
            if pre.anchor_spec() is Some {
                pre.anchor_spec()
            } else {
                Some(pre.cursor.pos_spec())
            }
        } else {
            Option::<PosInDocument>::None
        })
        &&& scrolled_to(pre.viewport, post.viewport, post.cursor.pos_spec())
        &&& r == (post.viewport.top != pre.viewport.top || post.viewport.left != pre.viewport.left
            || pre.anchor_spec() is Some || post.anchor_spec() is Some)
    }
}

/// The outcome of a vertical scroll: no change when the origin would not
/// move, else only the viewport origin row changes.
pub open spec fn scroll_outcome(
    pre: EditorState,
    post: EditorState,
    target_top: int,
    r: ReRenderContent,
) -> bool {
    if target_top == pre.viewport.top as int {
        state_unchanged(pre, post) && r == false
    } else {
        &&& post.content == pre.content
        &&& post.cursor == pre.cursor
        &&& post.anchor_spec() == pre.anchor_spec()
        &&& post.undo_ops() == pre.undo_ops()
        &&& post.redo_ops() == pre.redo_ops()
        &&& post.viewport.top as int == target_top
        &&& post.viewport.left == pre.viewport.left
        &&& post.viewport.width == pre.viewport.width
        &&& post.viewport.height == pre.viewport.height
        &&& r == true
    }
}

/// The outcome of inserting `text` at `at`: the splice, the cursor at its
/// end, a new undo entry — or nothing at all in the one case where the end
/// position is not computable.
pub open spec fn insert_outcome(
    pre: EditorState,
    post: EditorState,
    at: PosInDocument,
    text: Seq<char>,
    r: ReRenderContent,
) -> bool {
    if ins_fits(at, text) {
        let ls = ins_lines_of(text);
        &&& post.content.rows() == insert_applied(pre.content.rows(), at.0 as int, at.1 as int, ls)
        &&& post.cursor.pos_spec().0 as int == end_row(at.0 as int, ls)
        &&& post.cursor.pos_spec().1 as int == end_col(at.1 as int, ls)
        &&& edited_common(pre, post, r)
    } else {
        state_unchanged(pre, post) && r == false
    }
}

/// The outcome of deleting `[from, to)`: the span removed, the cursor at
/// `from`, a new undo entry.
pub open spec fn delete_span_outcome(
    pre: EditorState,
    post: EditorState,
    from: PosInDocument,
    to: PosInDocument,
    r: ReRenderContent,
) -> bool {
    &&& post.content.rows() == delete_applied(
        pre.content.rows(),
        from.0 as int,
        from.1 as int,
        to.0 as int,
        to.1 as int,
    )
    &&& post.cursor.pos_spec() == from
    &&& edited_common(pre, post, r)
}

/// The outcome of replacing `[from, to)` with `text`: delete then insert
/// from the same origin, the cursor at the end of the inserted text — or
/// nothing in the one case where the end position is not computable.
pub open spec fn replace_outcome(
    pre: EditorState,
    post: EditorState,
    from: PosInDocument,
    to: PosInDocument,
    text: Seq<char>,
    r: ReRenderContent,
) -> bool {
    if ins_fits(from, text) {
        let ls = ins_lines_of(text);
        let mid = delete_applied(
            pre.content.rows(),
            from.0 as int,
            from.1 as int,
            to.0 as int,
            to.1 as int,
        );
        &&& post.content.rows() == insert_applied(mid, from.0 as int, from.1 as int, ls)
        &&& post.cursor.pos_spec().0 as int == end_row(from.0 as int, ls)
        &&& post.cursor.pos_spec().1 as int == end_col(from.1 as int, ls)
        &&& edited_common(pre, post, r)
    } else {
        state_unchanged(pre, post) && r == false
    }
}

/// The outcome of an undo, mirroring `EditorState::undo`.
pub open spec fn undo_outcome(pre: EditorState, post: EditorState, r: ReRenderContent) -> bool {
    if pre.undo_ops().len() == 0 {
        state_unchanged(pre, post) && r == false
    } else {
        let op = pre.undo_ops().last();
        &&& r == true
        &&& post.content.rows() == op.unapplied(pre.content.rows())
        &&& post.content.delimiter == pre.content.delimiter
        &&& post.undo_ops() == pre.undo_ops().drop_last()
        &&& post.redo_ops() == pre.redo_ops().push(op)
        &&& post.cursor.pos_spec() == op.from_pos()
        &&& post.anchor_spec() is None
        &&& scrolled_to(pre.viewport, post.viewport, post.cursor.pos_spec())
    }
}

/// The outcome of a redo, mirroring `EditorState::redo`.
pub open spec fn redo_outcome(pre: EditorState, post: EditorState, r: ReRenderContent) -> bool {
    if pre.redo_ops().len() == 0 {
        state_unchanged(pre, post) && r == false
    } else {
        let op = pre.redo_ops().last();
        &&& r == true
        &&& post.content.rows() == op.apply(pre.content.rows())
        &&& post.content.delimiter == pre.content.delimiter
        &&& post.redo_ops() == pre.redo_ops().drop_last()
        &&& post.undo_ops() == pre.undo_ops().push(op)
        &&& post.anchor_spec() is None
        &&& scrolled_to(pre.viewport, post.viewport, post.cursor.pos_spec())
    }
}

/// The text a clipboard capture hands out: the selected rows joined with
/// the document delimiter.
pub open spec fn copied_text(st: EditorState) -> Seq<char> {
    let sel = crate::editor::state::selection_of(st.anchor_spec(), st.cursor.pos_spec());
    let f = sel.unwrap().0;
    let t = sel.unwrap().1;
    join_seqs(
        texts_of(
            captured_lines(st.content.rows(), f.0 as int, f.1 as int, t.0 as int, t.1 as int),
        ),
        st.content.delimiter@,
    )
}

/// Routes one event through the editor state. Returns whether the visible
/// content must be redrawn, and the text to hand to the clipboard when the
/// event was a copy or a cut.
pub fn process_event(event: &Event, state: &mut EditorState) -> (r: (
    ReRenderContent,
    Option<String>,
))
    requires
        old(state).wf(),
    ensures
        final(state).wf(),
        ({
            let cmd = command_of(*event, *old(state));
            match cmd {
                CommandSpec::Nav(target, fc, selecting) => nav_outcome(
                    *old(state),
                    *final(state),
                    target,
                    fc,
                    selecting,
                    r.0,
                ) && r.1 is None,
                CommandSpec::ScrollV(tt) => scroll_outcome(*old(state), *final(state), tt, r.0)
                    && r.1 is None,
                CommandSpec::SelectAll => {
                    &&& final(state).content == old(state).content
                    &&& final(state).viewport == old(state).viewport
                    &&& final(state).anchor_spec() == Some((0usize, 0usize))
                    &&& final(state).cursor.pos_spec().0 as int == old(
                        state,
                    ).content.rows().len() - 1
                    &&& final(state).cursor.pos_spec().1 as int == old(
                        state,
                    ).content.rows().last().len()
                    &&& final(state).undo_ops() == old(state).undo_ops()
                    &&& final(state).redo_ops() == old(state).redo_ops()
                    &&& r.0 == true
                    &&& r.1 is None
                },
                CommandSpec::Undo => undo_outcome(*old(state), *final(state), r.0) && r.1 is None,
                CommandSpec::Redo => redo_outcome(*old(state), *final(state), r.0) && r.1 is None,
                CommandSpec::Copy => state_unchanged(*old(state), *final(state)) && r.0 == false && match r.1 {
                    Some(s) => s@ == copied_text(*old(state)),
                    None => false,
                },
                CommandSpec::Cut(f, t) => delete_span_outcome(*old(state), *final(state), f, t, r.0)
                    && match r.1 {
                    Some(s) => s@ == copied_text(*old(state)),
                    None => false,
                },
                CommandSpec::InsertText(at, text) => insert_outcome(
                    *old(state),
                    *final(state),
                    at,
                    text,
                    r.0,
                ) && r.1 is None,
                CommandSpec::ReplaceText(f, t, text) => replace_outcome(
                    *old(state),
                    *final(state),
                    f,
                    t,
                    text,
                    r.0,
                ) && r.1 is None,
                CommandSpec::DeleteSpan(f, t) => delete_span_outcome(
                    *old(state),
                    *final(state),
                    f,
                    t,
                    r.0,
                ) && r.1 is None,
                CommandSpec::Nothing => state_unchanged(*old(state), *final(state)) && r.0 == false && r.1
                    is None,
            }
        }),
{
    match cursor_command(event, state) {
        Some((cursor, is_selection)) => {
            let moved = state.move_cursor(cursor, is_selection);
            return (moved, None);
        },
        None => {},
    }
    if is_select_all(event) {
        return (state.select_all(), None);
    }
    match scroll_command(event, state) {
        Some(scroll_to) => {
            return (state.scroll(scroll_to), None);
        },
        None => {},
    }
    if is_undo(event) {
        return (state.undo(), None);
    }
    if is_redo(event) {
        return (state.redo(), None);
    }
    match clipboard_command(event, state) {
        Some((edit_op, text)) => {
            match edit_op {
                Some(op) => {
                    let rr = state.edit(op);
                    proof {
                        assert(state.undo_ops().drop_last() =~= old(state).undo_ops());
                    }
                    return (rr, Some(text));
                },
                None => {
                    return (false, Some(text));
                },
            }
        },
        None => {},
    }
    match edit_command(event, state) {
        Some(edit_op) => {
            let rr = state.edit(edit_op);
            proof {
                assert(state.undo_ops().drop_last() =~= old(state).undo_ops());
            }
            return (rr, None);
        },
        None => {},
    }
    (false, None)
}

/// The cursor move an event selects, paired with its selection flag;
/// `None` when the event is no move or the move would not change the
/// position.
fn cursor_command(event: &Event, state: &EditorState) -> (r: Option<(Cursor, bool)>)
    requires
        state.wf(),
    ensures
        match command_of(*event, *state) {
            CommandSpec::Nav(target, fc, selecting) => {
                &&& (r is None <==> target == (
                    state.cursor.pos_spec().0 as int,
                    state.cursor.pos_spec().1 as int,
                ))
                &&& match r {
                    Some((cur, s)) => {
                        &&& cur.pos_spec().0 as int == target.0
                        &&& cur.pos_spec().1 as int == target.1
                        &&& pos_valid(state.content.rows(), cur.pos_spec())
                        &&& cur.furthest_spec() == fc
                        &&& s == selecting
                        &&& cur.pos_spec() != state.cursor.pos_spec()
                    },
                    None => true,
                }
            },
            _ => r is None,
        },
{
    let cursor = &state.cursor;
    let content = &state.content;
    let viewport = &state.viewport;
    let cmd: Option<Cursor> = match event {
        Event::Key(code, m) => {
            let m = *m;
            if m == 0 || m == SHIFT {
                match code {
                    KeyCode::Home => cursor.move_line_start(content),
                    KeyCode::End => cursor.move_line_end(content),
                    KeyCode::Up => cursor.move_up(content, 1),
                    KeyCode::Down => cursor.move_down(content, 1),
                    KeyCode::Right => cursor.move_right(content),
                    KeyCode::Left => cursor.move_left(content),
                    KeyCode::PageDown => cursor.move_down(
                        content,
                        (viewport.height - 1) as usize,
                    ),
                    KeyCode::PageUp => cursor.move_up(content, (viewport.height - 1) as usize),
                    _ => None,
                }
            } else if m == CTRL {
                match code {
                    KeyCode::Home => cursor.move_document_start(content),
                    KeyCode::End => cursor.move_document_end(content),
                    _ => None,
                }
            } else {
                None
            }
        },
        Event::Mouse(Mouse::Button(MouseButton::Left, kind, x, y)) => {
            match kind {
                MouseEvent::Press | MouseEvent::Drag => cursor.move_to(
                    content,
                    viewport.to_absolute((*y, *x)),
                ),
                _ => None,
            }
        },
        _ => None,
    };
    match cmd {
        Some(cur) => {
            let selecting = match event {
                Event::Key(_, m) => *m == SHIFT,
                Event::Mouse(Mouse::Button(_, MouseEvent::Drag, _, _)) => true,
                _ => false,
            };
            Some((cur, selecting))
        },
        None => None,
    }
}

fn is_select_all(event: &Event) -> (r: bool)
    ensures
        r == (*event == Event::Key(KeyCode::Char('A'), CTRL)),
{
    match event {
        Event::Key(KeyCode::Char(c), m) => *c == 'A' && *m == CTRL,
        _ => false,
    }
}

fn is_undo(event: &Event) -> (r: bool)
    ensures
        r == (*event == Event::Key(KeyCode::Char('Z'), CTRL)),
{
    match event {
        Event::Key(KeyCode::Char(c), m) => *c == 'Z' && *m == CTRL,
        _ => false,
    }
}

fn is_redo(event: &Event) -> (r: bool)
    ensures
        r == (*event == Event::Key(KeyCode::Char('Y'), CTRL)),
{
    match event {
        Event::Key(KeyCode::Char(c), m) => *c == 'Y' && *m == CTRL,
        _ => false,
    }
}

/// The scroll an event selects; `None` when the event is no scroll or the
/// origin would not move.
fn scroll_command(event: &Event, state: &EditorState) -> (r: Option<PosInDocument>)
    requires
        state.wf(),
    ensures
        match command_of(*event, *state) {
            CommandSpec::ScrollV(tt) => {
                &&& (r is None <==> tt == state.viewport.top as int)
                &&& match r {
                    Some(p) => p.0 as int == tt && p.1 == state.viewport.left && (
                    p.0 as int) < state.content.rows().len(),
                    None => true,
                }
            },
            _ => r is None,
        },
{
    let up = match event {
        Event::Key(code, m) => *m == CTRL && match code {
            KeyCode::Up => true,
            _ => false,
        },
        Event::Mouse(Mouse::WheelUp(_, _)) => true,
        _ => false,
    };
    let down = match event {
        Event::Key(code, m) => *m == CTRL && match code {
            KeyCode::Down => true,
            _ => false,
        },
        Event::Mouse(Mouse::WheelDown(_, _)) => true,
        _ => false,
    };
    if up {
        state.viewport.scroll_up(&state.content, 1)
    } else if down {
        state.viewport.scroll_down(&state.content, 1)
    } else {
        None
    }
}

/// The clipboard action an event selects when a selection exists: the text
/// to copy, and for a cut also the deletion of the selected span.
fn clipboard_command(event: &Event, state: &EditorState) -> (r: Option<(Option<EditOp>, String)>)
    requires
        state.wf(),
    ensures
        match command_of(*event, *state) {
            CommandSpec::Copy => match r {
                Some((op, text)) => op is None && text@ == copied_text(*state),
                None => false,
            },
            CommandSpec::Cut(f, t) => match r {
                Some((op, text)) => {
                    &&& text@ == copied_text(*state)
                    &&& match op {
                        Some(del) => del.is_delete() && del.from_pos() == f && del.valid_for(
                            state.content.rows(),
                        ) && del.consistent_with(state.content.rows()) && del.rows_wf()
                            && del.del_lines() == captured_lines(
                            state.content.rows(),
                            f.0 as int,
                            f.1 as int,
                            t.0 as int,
                            t.1 as int,
                        ) && end_row(f.0 as int, del.del_lines()) == t.0 as int && end_col(
                            f.1 as int,
                            del.del_lines(),
                        ) == t.1 as int,
                        None => false,
                    }
                },
                None => false,
            },
            _ => r is None,
        },
{
    let copy = match event {
        Event::Key(KeyCode::Char(c), m) => *c == 'C' && *m == CTRL,
        _ => false,
    };
    let cut = match event {
        Event::Key(KeyCode::Char(c), m) => *c == 'X' && *m == CTRL,
        _ => false,
    };
    if !copy && !cut {
        return None;
    }
    match state.selection() {
        Some((from, to)) => {
            proof {
                lemma_selection_valid(*state, from, to);
            }
            let text = state.content.selected_text(from, to);
            if cut {
                let op = EditOp::delete(&state.content, from, to);
                Some((Some(op), text))
            } else {
                Some((None, text))
            }
        },
        None => None,
    }
}

/// An ordered selection's two ends are valid positions of the document.
proof fn lemma_selection_valid(st: EditorState, f: PosInDocument, t: PosInDocument)
    requires
        st.wf(),
        crate::editor::state::selection_of(st.anchor_spec(), st.cursor.pos_spec()) == Some(
            (f, t),
        ),
    ensures
        pos_valid(st.content.rows(), f),
        pos_valid(st.content.rows(), t),
        f.0 < t.0 || (f.0 == t.0 && f.1 <= t.1),
{
}

/// The edit operation an event selects: typing, Enter, Backspace, Delete
/// or a paste, replacing the selection when one exists. `None` when the
/// event edits nothing, or in the one case where the operation's end
/// position is not computable.
fn edit_command(event: &Event, state: &EditorState) -> (r: Option<EditOp>)
    requires
        state.wf(),
    ensures
        match command_of(*event, *state) {
            CommandSpec::InsertText(at, text) => match r {
                Some(op) => {
                    &&& op.is_insert()
                    &&& op.from_pos() == at
                    &&& op.main_lines() == ins_lines_of(text)
                    &&& op.rows_wf()
                    &&& op.valid_for(state.content.rows())
                    &&& op.consistent_with(state.content.rows())
                },
                None => !ins_fits(at, text),
            },
            CommandSpec::ReplaceText(f, t, text) => match r {
                Some(op) => {
                    &&& op.is_replace()
                    &&& op.from_pos() == f
                    &&& op.main_lines() == ins_lines_of(text)
                    &&& op.del_lines() == captured_lines(
                        state.content.rows(),
                        f.0 as int,
                        f.1 as int,
                        t.0 as int,
                        t.1 as int,
                    )
                    &&& end_row(f.0 as int, op.del_lines()) == t.0 as int
                    &&& end_col(f.1 as int, op.del_lines()) == t.1 as int
                    &&& op.rows_wf()
                    &&& op.valid_for(state.content.rows())
                    &&& op.consistent_with(state.content.rows())
                },
                None => !ins_fits(f, text),
            },
            CommandSpec::DeleteSpan(f, t) => match r {
                Some(op) => {
                    &&& op.is_delete()
                    &&& op.from_pos() == f
                    &&& op.del_lines() == captured_lines(
                        state.content.rows(),
                        f.0 as int,
                        f.1 as int,
                        t.0 as int,
                        t.1 as int,
                    )
                    &&& end_row(f.0 as int, op.del_lines()) == t.0 as int
                    &&& end_col(f.1 as int, op.del_lines()) == t.1 as int
                    &&& op.rows_wf()
                    &&& op.valid_for(state.content.rows())
                    &&& op.consistent_with(state.content.rows())
                },
                None => false,
            },
            _ => r is None,
        },
{
    let plain_code: Option<KeyCode> = match event {
        Event::Key(code, m) => {
            if *m == 0 {
                Some(*code)
            } else {
                None
            }
        },
        _ => None,
    };
    match state.selection() {
        Some((from, to)) => {
            proof {
                lemma_selection_valid(*state, from, to);
            }
            match event {
                Event::Paste(s) => replace(&state.content, from, to, s.as_str()),
                _ => match plain_code {
                    Some(KeyCode::Char(c)) => {
                        let mut text = String::new();
                        text.push(c);
                        proof {
                            assert(text@ =~= seq![c]);
                        }
                        replace(&state.content, from, to, text.as_str())
                    },
                    Some(KeyCode::Enter) => {
                        let mut text = String::new();
                        text.push('\n');
                        proof {
                            assert(text@ =~= seq!['\n']);
                        }
                        replace(&state.content, from, to, text.as_str())
                    },
                    Some(KeyCode::Backspace) => delete(from, to, &state.content),
                    Some(KeyCode::Delete) => delete(from, to, &state.content),
                    _ => None,
                },
            }
        },
        None => {
            let cursor = &state.cursor;
            match event {
                Event::Paste(s) => insert(cursor, s.as_str(), &state.content),
                _ => match plain_code {
                    Some(KeyCode::Char(c)) => {
                        let mut text = String::new();
                        text.push(c);
                        proof {
                            assert(text@ =~= seq![c]);
                        }
                        insert(cursor, text.as_str(), &state.content)
                    },
                    Some(KeyCode::Enter) => {
                        let mut text = String::new();
                        text.push('\n');
                        proof {
                            assert(text@ =~= seq!['\n']);
                        }
                        insert(cursor, text.as_str(), &state.content)
                    },
                    Some(KeyCode::Backspace) => backspace(cursor, &state.content),
                    Some(KeyCode::Delete) => delete_char(cursor, &state.content),
                    _ => None,
                },
            }
        },
    }
}

fn insert(cursor: &Cursor, str: &str, content: &crate::editor::content::EditorContent) -> (r:
    Option<EditOp>)
    requires
        content.wf(),
        pos_valid(content.rows(), cursor.pos_spec()),
    ensures
        match r {
            Some(op) => {
                &&& op.is_insert()
                &&& op.from_pos() == cursor.pos_spec()
                &&& op.main_lines() == ins_lines_of(str@)
                &&& op.rows_wf()
                &&& op.valid_for(content.rows())
                &&& op.consistent_with(content.rows())
            },
            None => !ins_fits(cursor.pos_spec(), str@),
        },
{
    let op = EditOp::insert(cursor.pos(), str);
    op.if_fits()
}

fn replace(
    content: &crate::editor::content::EditorContent,
    from: PosInDocument,
    to: PosInDocument,
    str: &str,
) -> (r: Option<EditOp>)
    requires
        content.wf(),
        pos_valid(content.rows(), from),
        pos_valid(content.rows(), to),
        from.0 < to.0 || (from.0 == to.0 && from.1 <= to.1),
    ensures
        match r {
            Some(op) => {
                &&& op.is_replace()
                &&& op.from_pos() == from
                &&& op.main_lines() == ins_lines_of(str@)
                &&& op.del_lines() == captured_lines(
                    content.rows(),
                    from.0 as int,
                    from.1 as int,
                    to.0 as int,
                    to.1 as int,
                )
                &&& end_row(from.0 as int, op.del_lines()) == to.0 as int
                &&& end_col(from.1 as int, op.del_lines()) == to.1 as int
                &&& op.rows_wf()
                &&& op.valid_for(content.rows())
                &&& op.consistent_with(content.rows())
            },
            None => !ins_fits(from, str@),
        },
{
    let op = EditOp::replace(content, from, to, str);
    op.if_fits()
}

fn delete(
    from: PosInDocument,
    to: PosInDocument,
    content: &crate::editor::content::EditorContent,
) -> (r: Option<EditOp>)
    requires
        content.wf(),
        pos_valid(content.rows(), from),
        pos_valid(content.rows(), to),
        from.0 < to.0 || (from.0 == to.0 && from.1 <= to.1),
    ensures
        match r {
            Some(op) => {
                &&& op.is_delete()
                &&& op.from_pos() == from
                &&& op.del_lines() == captured_lines(
                    content.rows(),
                    from.0 as int,
                    from.1 as int,
                    to.0 as int,
                    to.1 as int,
                )
                &&& end_row(from.0 as int, op.del_lines()) == to.0 as int
                &&& end_col(from.1 as int, op.del_lines()) == to.1 as int
                &&& op.rows_wf()
                &&& op.valid_for(content.rows())
                &&& op.consistent_with(content.rows())
            },
            None => false,
        },
{
    Some(EditOp::delete(content, from, to))
}

fn backspace(cursor: &Cursor, content: &crate::editor::content::EditorContent) -> (r: Option<
    EditOp,
>)
    requires
        content.wf(),
        pos_valid(content.rows(), cursor.pos_spec()),
    ensures
        ({
            let cur = cursor.pos_spec();
            let lt = left_target(content.rows(), cur);
            if cur == (0usize, 0usize) {
                r is None
            } else {
                match r {
                    Some(op) => {
                        &&& op.is_delete()
                        &&& op.from_pos() == lt
                        &&& op.del_lines() == captured_lines(
                            content.rows(),
                            lt.0 as int,
                            lt.1 as int,
                            cur.0 as int,
                            cur.1 as int,
                        )
                        &&& end_row(lt.0 as int, op.del_lines()) == cur.0 as int
                        &&& end_col(lt.1 as int, op.del_lines()) == cur.1 as int
                        &&& op.rows_wf()
                        &&& op.valid_for(content.rows())
                        &&& op.consistent_with(content.rows())
                    },
                    None => false,
                }
            }
        }),
{
    match cursor.move_left(content) {
        Some(cursor_left) => {
            proof {
                let doc = content.rows();
                let cur = cursor.pos_spec();
                let lt = left_target(doc, cur);
                assert(pos_valid(doc, lt));
                assert(clamped(doc, lt).0 == lt.0 as int && clamped(doc, lt).1 == lt.1 as int);
            }
            delete(cursor_left.pos(), cursor.pos(), content)
        },
        None => None,
    }
}

fn delete_char(cursor: &Cursor, content: &crate::editor::content::EditorContent) -> (r: Option<
    EditOp,
>)
    requires
        content.wf(),
        pos_valid(content.rows(), cursor.pos_spec()),
    ensures
        ({
            let cur = cursor.pos_spec();
            let rt = right_target(content.rows(), cur);
            if rt == cur {
                r is None
            } else {
                match r {
                    Some(op) => {
                        &&& op.is_delete()
                        &&& op.from_pos() == cur
                        &&& op.del_lines() == captured_lines(
                            content.rows(),
                            cur.0 as int,
                            cur.1 as int,
                            rt.0 as int,
                            rt.1 as int,
                        )
                        &&& end_row(cur.0 as int, op.del_lines()) == rt.0 as int
                        &&& end_col(cur.1 as int, op.del_lines()) == rt.1 as int
                        &&& op.rows_wf()
                        &&& op.valid_for(content.rows())
                        &&& op.consistent_with(content.rows())
                    },
                    None => false,
                }
            }
        }),
{
    let cur_pos = cursor.pos();
    let row_count = content.lines.len();
    let line_len = content.line_len(cur_pos.0);
    match cursor.move_right(content) {
        Some(cursor_right) => {
            proof {
                assert(row_count == content.rows().len());
                assert(line_len as int == content.rows()[cur_pos.0 as int].len());
                let doc = content.rows();
                let cur = cursor.pos_spec();
                let rt = right_target(doc, cur);
                if (cur.1 as int) < doc[cur.0 as int].len() {
                    assert(pos_valid(doc, rt));
                    assert(clamped(doc, rt).0 == rt.0 as int && clamped(doc, rt).1 == rt.1 as int);
                } else if (cur.0 as int) < doc.len() - 1 {
                    assert(pos_valid(doc, rt));
                    assert(clamped(doc, rt).0 == rt.0 as int && clamped(doc, rt).1 == rt.1 as int);
                } else {
                    assert(clamped(doc, rt).0 == rt.0 as int && clamped(doc, rt).1 == rt.1 as int);
                }
            }
            delete(cursor.pos(), cursor_right.pos(), content)
        },
        None => None,
    }
}

} // verus!
