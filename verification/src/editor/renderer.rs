//! Derivation of drawing directives from the editor state: the visible
//! rows split into their before-, inside- and after-selection parts, blank
//! screen rows cleared, a status bar, and the cursor placed or hidden. The
//! whole emitted sequence is pinned by `render_spec`.
use vstd::prelude::*;

use crate::editor::row::{col_of, min_int, Row};
use crate::editor::split::{cr, crlf, lf};
use crate::editor::state::{selection_of, EditorState, Selection};
use crate::editor::viewport::Viewport;
use crate::terminal::commands::{Command, CommandModel};
use crate::text::{dec_digits, usize_to_string};

verus! {

/// An integer clamped at the machine limit, as saturating addition leaves
/// it.
pub open spec fn satu(x: int) -> int {
    if x > usize::MAX {
        usize::MAX as int
    } else {
        x
    }
}

/// The text of clusters `[a, b)` of `row`, both bounds clamped to its end.
pub open spec fn slice_txt(row: Seq<Seq<char>>, a: int, b: int) -> Seq<char> {
    row.subrange(min_int(a, row.len() as int), min_int(b, row.len() as int)).flatten()
}

/// The three parts of one visible row: the text before the selection, the
/// selected text (with a trailing space when the selection runs past the
/// window to a later row), and the text after it.
pub open spec fn part_texts(row_idx: int, row: Seq<Seq<char>>, vp: Viewport, sel: Selection) -> (
    Seq<char>,
    Seq<char>,
    Seq<char>,
) {
    let start = vp.left as int;
    if row.len() < start {
        (Seq::empty(), Seq::empty(), Seq::empty())
    } else {
        let width = vp.width as int;
        let len = min_int(row.len() - start, width);
        let in_sel = match sel {
            Some((s, e)) => s.0 <= row_idx && row_idx <= e.0,
            None => false,
        };
        if in_sel {
            let s = sel.unwrap().0;
            let e = sel.unwrap().1;
            let sel_start = if row_idx == s.0 {
                satu(s.1 + start)
            } else {
                start
            };
            let sel_end = if row_idx == e.0 {
                satu(e.1 + start)
            } else {
                satu(row.len() + start)
            };
            let pre = if sel_start > start {
                slice_txt(row, start, sel_start)
            } else {
                Seq::empty()
            };
            let selected = slice_txt(row, sel_start, sel_end) + (if row_idx < e.0 && sel_end
                >= satu(start + len) {
                seq![' ']
            } else {
                Seq::<char>::empty()
            });
            let post = if sel_end < satu(start + len) {
                slice_txt(row, sel_end, satu(start + len))
            } else {
                Seq::empty()
            };
            (pre, selected, post)
        } else {
            (slice_txt(row, start, satu(start + len)), Seq::empty(), Seq::empty())
        }
    }
}

/// The directives that draw one visible row.
pub open spec fn row_cmds(row_idx: int, row: Seq<Seq<char>>, vp: Viewport, sel: Selection) -> Seq<
    CommandModel,
> {
    let parts = part_texts(row_idx, row, vp, sel);
    seq![
        CommandModel::MoveToM(1, (1 + row_idx - vp.top) as u16),
        CommandModel::PrintM(parts.0),
        CommandModel::SetBackgroundColorM(100),
        CommandModel::PrintM(parts.1),
        CommandModel::SetBackgroundColorM(0),
        CommandModel::PrintM(parts.2),
        CommandModel::ClearToEndOfLineM,
    ]
}

/// The directives that blank one screen row below the document.
pub open spec fn clear_cmds(screen_row: int) -> Seq<CommandModel> {
    seq![CommandModel::MoveToM(1, (screen_row + 1) as u16), CommandModel::ClearLineM]
}

/// How many document rows are visible from the scroll origin.
pub open spec fn visible_count(st: EditorState) -> int {
    min_int(st.viewport.height as int, st.content.rows().len() - st.viewport.top as int)
}

/// The directives that redraw the whole visible region.
pub open spec fn content_cmds(st: EditorState) -> Seq<CommandModel> {
    let sel = selection_of(st.anchor_spec(), st.cursor.pos_spec());
    let vc = visible_count(st);
    Seq::new(
        vc as nat,
        |i: int| row_cmds(st.viewport.top + i, st.content.rows()[st.viewport.top + i], st.viewport, sel),
    ).flatten() + Seq::new(
        (st.viewport.height - vc) as nat,
        |j: int| clear_cmds(vc + j),
    ).flatten()
}

/// The label the status bar shows for a delimiter.
pub open spec fn label_of(d: Seq<char>) -> Seq<char> {
    if d == crlf() {
        seq!['C', 'R', 'L', 'F']
    } else if d == cr() {
        seq!['C', 'R']
    } else if d == lf() {
        seq!['L', 'F']
    } else {
        seq!['?']
    }
}

/// The status line: size, 1-based cursor position, 1-based scroll row, and
/// the delimiter label.
pub open spec fn status_text(st: EditorState) -> Seq<char> {
    dec_digits(st.viewport.width as nat) + seq!['x'] + dec_digits(st.viewport.height as nat)
        + seq![' ', '|', ' '] + dec_digits(satu(st.cursor.pos_spec().0 + 1) as nat) + seq![' ']
        + dec_digits(satu(st.cursor.pos_spec().1 + 1) as nat) + seq![' ', '|', ' '] + dec_digits(
        satu(st.viewport.top + 1) as nat,
    ) + seq![' ', '|', ' '] + label_of(st.content.delimiter@)
}

/// The directives that draw the status bar on the screen row below the
/// viewport.
pub open spec fn status_cmds(st: EditorState) -> Seq<CommandModel> {
    seq![
        CommandModel::MoveToM(1, (st.viewport.height + 1) as u16),
        CommandModel::ClearLineM,
        CommandModel::PrintM(status_text(st)),
    ]
}

/// Whether the cursor's display position lies inside the viewport.
pub open spec fn cursor_in_view(st: EditorState) -> bool {
    let row = st.cursor.pos_spec().0 as int;
    let col2 = col_of(st.content.rows()[row], st.cursor.pos_spec().1 as int) as int;
    &&& st.viewport.top <= row
    &&& row - st.viewport.top < st.viewport.height
    &&& st.viewport.left <= col2
    &&& col2 - st.viewport.left < st.viewport.width
}

/// The directives that place and show the cursor, when it is visible.
pub open spec fn cursor_cmds(st: EditorState) -> Seq<CommandModel> {
    if cursor_in_view(st) {
        let row = st.cursor.pos_spec().0 as int;
        let col2 = col_of(st.content.rows()[row], st.cursor.pos_spec().1 as int) as int;
        seq![
            CommandModel::MoveToM(
                (col2 - st.viewport.left + 1) as u16,
                (row - st.viewport.top + 1) as u16,
            ),
            CommandModel::ShowCursorM,
        ]
    } else {
        Seq::empty()
    }
}

/// Everything one frame draws: the cursor hidden, the visible region when
/// it must be redrawn, the status bar, and the cursor shown at its place.
pub open spec fn render_spec(st: EditorState, rerender: bool) -> Seq<CommandModel> {
    seq![CommandModel::HideCursorM] + (if rerender {
        content_cmds(st)
    } else {
        Seq::<CommandModel>::empty()
    }) + status_cmds(st) + cursor_cmds(st)
}

/// Derives the drawing directives for one frame.
pub fn render(state: &EditorState, rerender_content: bool) -> (r: Vec<Command>)
    requires
        state.wf(),
        state.viewport.height < u16::MAX,
    ensures
        r.deep_view() == render_spec(*state, rerender_content),
{
    let mut commands: Vec<Command> = Vec::new();
    hide_cursor(&mut commands);
    if rerender_content {
        render_content(state, &mut commands);
    }
    render_status_bar(state, &mut commands);
    render_cursor(state, &mut commands);
    proof {
        assert(commands.deep_view() =~= render_spec(*state, rerender_content));
    }
    commands
}

fn hide_cursor(commands: &mut Vec<Command>)
    ensures
        final(commands).deep_view() == old(commands).deep_view() + seq![CommandModel::HideCursorM],
{
    commands.push(Command::HideCursor);
    proof {
        crate::text::lemma_push_deep_view(*commands, *old(commands), Command::HideCursor);
        assert(old(commands).deep_view().push(CommandModel::HideCursorM) =~= old(
            commands,
        ).deep_view() + seq![CommandModel::HideCursorM]);
    }
}

fn render_content(state: &EditorState, commands: &mut Vec<Command>)
    requires
        state.wf(),
        state.viewport.height < u16::MAX,
    ensures
        final(commands).deep_view() == old(commands).deep_view() + content_cmds(*state),
{
    let ghost base = commands.deep_view();
    let ghost sel_g = selection_of(state.anchor_spec(), state.cursor.pos_spec());
    let selection = state.selection();
    let top = state.viewport.top;
    let height = state.viewport.height;
    let row_count = state.content.lines.len();
    let rest = row_count - top;
    let vc: usize = if (height as usize) < rest {
        height as usize
    } else {
        rest
    };
    let ghost rowfn = |i: int|
        row_cmds(
            state.viewport.top + i,
            state.content.rows()[state.viewport.top + i],
            state.viewport,
            sel_g,
        );
    let mut i: usize = 0;
    proof {
        assert(Seq::new(0nat, rowfn).flatten() =~= Seq::<CommandModel>::empty());
        assert(base + Seq::new(0nat, rowfn).flatten() =~= base);
    }
    while i < vc
        invariant
            state.wf(),
            sel_g == selection_of(state.anchor_spec(), state.cursor.pos_spec()),
            selection == sel_g,
            top == state.viewport.top,
            height == state.viewport.height,
            row_count == state.content.rows().len(),
            vc as int == visible_count(*state),
            vc <= height,
            top + vc <= row_count,
            i <= vc,
            rowfn == (|k: int|
                row_cmds(
                    state.viewport.top + k,
                    state.content.rows()[state.viewport.top + k],
                    state.viewport,
                    sel_g,
                )),
            commands.deep_view() == base + Seq::new(i as nat, rowfn).flatten(),
        decreases vc - i,
    {
        let ghost pre_loop = commands.deep_view();
        render_row(top + i, &state.content.lines[top + i], &state.viewport, selection, commands);
        proof {
            assert(Seq::new((i + 1) as nat, rowfn) =~= Seq::new(i as nat, rowfn).push(rowfn(i as int)));
            Seq::new(i as nat, rowfn).lemma_flatten_push(rowfn(i as int));
            assert(commands.deep_view() =~= base + Seq::new((i + 1) as nat, rowfn).flatten());
        }
        i = i + 1;
    }
    let ghost mid = commands.deep_view();
    let ghost clearfn = |j: int| clear_cmds(vc + j);
    let mut j: usize = vc;
    proof {
        assert(Seq::new(0nat, clearfn).flatten() =~= Seq::<CommandModel>::empty());
        assert(mid + Seq::new(0nat, clearfn).flatten() =~= mid);
    }
    while j < height as usize
        invariant
            vc <= j,
            j <= height as usize,
            height < u16::MAX,
            clearfn == (|k: int| clear_cmds(vc + k)),
            commands.deep_view() == mid + Seq::new((j - vc) as nat, clearfn).flatten(),
        decreases height as usize - j,
    {
        let ghost pre_loop = commands.deep_view();
        clear_row((j as u16) + 1, commands);
        proof {
            let k = (j - vc) as int;
            assert(clearfn(k) =~= clear_cmds(vc + k));
            assert(commands.deep_view() =~= pre_loop + clearfn(k));
            assert(Seq::new((k + 1) as nat, clearfn) =~= Seq::new(k as nat, clearfn).push(
                clearfn(k),
            ));
            Seq::new(k as nat, clearfn).lemma_flatten_push(clearfn(k));
            assert(commands.deep_view() =~= mid + Seq::new((k + 1) as nat, clearfn).flatten());
        }
        j = j + 1;
    }
    proof {
        let st = *state;
        let vcn = visible_count(st);
        assert(Seq::new(vc as nat, rowfn) =~= Seq::new(
            vcn as nat,
            |i: int|
                row_cmds(
                    st.viewport.top + i,
                    st.content.rows()[st.viewport.top + i],
                    st.viewport,
                    selection_of(st.anchor_spec(), st.cursor.pos_spec()),
                ),
        ));
        assert(Seq::new(((height as usize) - vc) as nat, clearfn) =~= Seq::new(
            (st.viewport.height - vcn) as nat,
            |j: int| clear_cmds(vcn + j),
        ));
        assert(commands.deep_view() =~= old(commands).deep_view() + content_cmds(*state));
    }
}

fn render_row(
    row_idx: usize,
    row: &Row,
    viewport: &Viewport,
    selection: Selection,
    commands: &mut Vec<Command>,
)
    requires
        row.wf(),
        viewport.top <= row_idx,
        row_idx - viewport.top < viewport.height,
        match selection {
            Some((s, e)) => {
                &&& (s.0 < e.0 || (s.0 == e.0 && s.1 <= e.1))
                &&& (s.0 == row_idx ==> s.1 <= row@.len())
                &&& (e.0 == row_idx ==> e.1 <= row@.len())
            },
            None => true,
        },
    ensures
        final(commands).deep_view() == old(commands).deep_view() + row_cmds(
            row_idx as int,
            row@,
            *viewport,
            selection,
        ),
{
    let (pre_selection, selected, post_selection) = visible_row_part(
        row_idx,
        row,
        viewport,
        selection,
    );
    let ghost g0 = commands.deep_view();
    push_cmd(commands, Command::MoveTo(1, 1 + (row_idx - viewport.top) as u16));
    push_cmd(commands, Command::Print(pre_selection));
    push_cmd(commands, Command::SetBackgroundColor(100));
    push_cmd(commands, Command::Print(selected));
    push_cmd(commands, Command::SetBackgroundColor(0));
    push_cmd(commands, Command::Print(post_selection));
    push_cmd(commands, Command::ClearToEndOfLine);
    proof {
        assert(commands.deep_view() =~= g0 + row_cmds(row_idx as int, row@, *viewport, selection));
    }
}

fn push_cmd(commands: &mut Vec<Command>, cmd: Command)
    ensures
        final(commands).deep_view() == old(commands).deep_view().push(cmd@),
{
    let ghost c = cmd;
    commands.push(cmd);
    proof {
        crate::text::lemma_push_deep_view(*commands, *old(commands), c);
    }
}

/// The three parts of one visible row, sliced in cluster units from the
/// scroll origin: before the selection, selected, and after it.
pub fn visible_row_part(row_idx: usize, row: &Row, viewport: &Viewport, selection: Selection) -> (r:
    (String, String, String))
    requires
        row.wf(),
        match selection {
            Some((s, e)) => {
                &&& (s.0 < e.0 || (s.0 == e.0 && s.1 <= e.1))
                &&& (s.0 == row_idx ==> s.1 <= row@.len())
                &&& (e.0 == row_idx ==> e.1 <= row@.len())
            },
            None => true,
        },
    ensures
        (r.0@, r.1@, r.2@) == part_texts(row_idx as int, row@, *viewport, selection),
{
    let start = viewport.left;
    let row_len = row.len();
    if row_len < start {
        return (String::new(), String::new(), String::new());
    }
    let width = viewport.width as usize;
    let len = if row_len - start < width {
        row_len - start
    } else {
        width
    };
    let window_end = start.saturating_add(len);
    let in_sel = match selection {
        Some((s, e)) => s.0 <= row_idx && row_idx <= e.0,
        None => false,
    };
    if in_sel {
        let (s, e) = match selection {
            Some(pair) => pair,
            None => ((0, 0), (0, 0)),
        };
        let sel_start = if row_idx == s.0 {
            s.1.saturating_add(start)
        } else {
            start
        };
        let sel_end = if row_idx == e.0 {
            e.1.saturating_add(start)
        } else {
            row_len.saturating_add(start)
        };
        let pre = if sel_start > start {
            row.text_range(start, sel_start)
        } else {
            String::new()
        };
        let mut selected = row.text_range(sel_start, sel_end);
        if row_idx < e.0 && sel_end >= window_end {
            selected.push(' ');
        }
        let post = if sel_end < window_end {
            row.text_range(sel_end, window_end)
        } else {
            String::new()
        };
        proof {
            let parts = part_texts(row_idx as int, row@, *viewport, selection);
            assert(pre@ =~= parts.0);
            assert(selected@ =~= parts.1);
            assert(post@ =~= parts.2);
        }
        (pre, selected, post)
    } else {
        let whole = row.text_range(start, window_end);
        proof {
            let parts = part_texts(row_idx as int, row@, *viewport, selection);
            assert(whole@ =~= parts.0);
            assert(Seq::<char>::empty() =~= parts.1);
            assert(Seq::<char>::empty() =~= parts.2);
        }
        (whole, String::new(), String::new())
    }
}

fn clear_row(screen_row: u16, commands: &mut Vec<Command>)
    ensures
        final(commands).deep_view() == old(commands).deep_view() + clear_cmds(screen_row as int - 1),
{
    let ghost g0 = commands.deep_view();
    push_cmd(commands, Command::MoveTo(1, screen_row));
    push_cmd(commands, Command::ClearLine);
    proof {
        assert(commands.deep_view() =~= g0 + clear_cmds(screen_row as int - 1));
    }
}

fn render_status_bar(state: &EditorState, commands: &mut Vec<Command>)
    requires
        state.wf(),
        state.viewport.height < u16::MAX,
    ensures
        final(commands).deep_view() == old(commands).deep_view() + status_cmds(*state),
{
    let ghost g0 = commands.deep_view();
    let status = status_string(state);
    clear_row(state.viewport.height + 1, commands);
    push_cmd(commands, Command::Print(status));
    proof {
        assert(commands.deep_view() =~= g0 + status_cmds(*state));
    }
}

fn status_string(state: &EditorState) -> (s: String)
    requires
        state.wf(),
    ensures
        s@ == status_text(*state),
{
    proof {
        reveal_strlit("x");
        reveal_strlit(" ");
        reveal_strlit(" | ");
    }
    let (row, col) = state.cursor.pos();
    let mut s = usize_to_string(state.viewport.width as usize);
    s.append("x");
    let h = usize_to_string(state.viewport.height as usize);
    s.append(h.as_str());
    s.append(" | ");
    let r1 = usize_to_string(row.saturating_add(1));
    s.append(r1.as_str());
    s.append(" ");
    let c1 = usize_to_string(col.saturating_add(1));
    s.append(c1.as_str());
    s.append(" | ");
    let t1 = usize_to_string(state.viewport.top.saturating_add(1));
    s.append(t1.as_str());
    s.append(" | ");
    let label = delimiter_label(state.content.delimiter.as_str());
    s.append(label.as_str());
    proof {
        assert("x"@ =~= seq!['x']);
        assert(" "@ =~= seq![' ']);
        assert(" | "@ =~= seq![' ', '|', ' ']);
        assert(s@ =~= status_text(*state));
    }
    s
}

/// The status-bar label for a delimiter.
pub fn delimiter_label(delimiter: &str) -> (s: String)
    ensures
        s@ == label_of(delimiter@),
{
    proof {
        reveal_strlit("\r\n");
        reveal_strlit("\r");
        reveal_strlit("\n");
        reveal_strlit("CRLF");
        reveal_strlit("CR");
        reveal_strlit("LF");
        reveal_strlit("?");
        assert("\r\n"@ =~= crlf());
        assert("\r"@ =~= cr());
        assert("\n"@ =~= lf());
    }
    if crate::text::str_eq(delimiter, "\r\n") {
        let s = "CRLF".to_owned();
        proof {
            assert(s@ =~= seq!['C', 'R', 'L', 'F']);
        }
        s
    } else if crate::text::str_eq(delimiter, "\r") {
        let s = "CR".to_owned();
        proof {
            assert(s@ =~= seq!['C', 'R']);
        }
        s
    } else if crate::text::str_eq(delimiter, "\n") {
        let s = "LF".to_owned();
        proof {
            assert(s@ =~= seq!['L', 'F']);
        }
        s
    } else {
        let s = "?".to_owned();
        proof {
            assert(s@ =~= seq!['?']);
        }
        s
    }
}

fn render_cursor(state: &EditorState, commands: &mut Vec<Command>)
    requires
        state.wf(),
    ensures
        final(commands).deep_view() == old(commands).deep_view() + cursor_cmds(*state),
{
    let ghost g0 = commands.deep_view();
    let (row, col) = state.cursor.pos();
    let col_2 = state.content.lines[row].mono_col_at(col);
    let within = state.viewport.top <= row && row - state.viewport.top < state.viewport.height
        as usize && state.viewport.left <= col_2 && col_2 - state.viewport.left < state.viewport.width
        as usize;
    if within {
        let col_rel = ((col_2 - state.viewport.left) as u16) + 1;
        let row_rel = ((row - state.viewport.top) as u16) + 1;
        push_cmd(commands, Command::MoveTo(col_rel, row_rel));
        push_cmd(commands, Command::ShowCursor);
        proof {
            assert(commands.deep_view() =~= g0 + cursor_cmds(*state));
        }
    } else {
        proof {
            assert(commands.deep_view() =~= g0 + cursor_cmds(*state));
        }
    }
}

} // verus!
