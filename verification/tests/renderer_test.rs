use picow::editor::renderer::{delimiter_label, render, visible_row_part};
use picow::editor::content::EditorContent;
use picow::editor::row::Row;
use picow::editor::state::EditorState;
use picow::editor::viewport::Viewport;
use picow::terminal::commands::Command;

#[test]
fn row_part_without_selection_is_the_window() {
    let row = Row::new("abcdefghij");
    let viewport = Viewport::new(2, 0, 5, 4);
    let (pre, sel, post) = visible_row_part(0, &row, &viewport, None);
    assert_eq!((pre.as_str(), sel.as_str(), post.as_str()), ("cdefg", "", ""));
}

#[test]
fn row_part_with_selection_splits_in_three() {
    let row = Row::new("abcdefghij");
    let viewport = Viewport::new(0, 0, 10, 4);
    let selection = Some(((0, 2), (0, 5)));
    let (pre, sel, post) = visible_row_part(0, &row, &viewport, selection);
    assert_eq!((pre.as_str(), sel.as_str(), post.as_str()), ("ab", "cde", "fghij"));
}

#[test]
fn row_part_left_of_window_is_empty() {
    let row = Row::new("ab");
    let viewport = Viewport::new(5, 0, 5, 4);
    let (pre, sel, post) = visible_row_part(0, &row, &viewport, None);
    assert_eq!((pre.as_str(), sel.as_str(), post.as_str()), ("", "", ""));
}

#[test]
fn delimiter_labels() {
    assert_eq!(delimiter_label("\r\n"), "CRLF");
    assert_eq!(delimiter_label("\r"), "CR");
    assert_eq!(delimiter_label("\n"), "LF");
    assert_eq!(delimiter_label(";"), "?");
}

#[test]
fn render_frame_shape() {
    let content = EditorContent::new(vec![Row::new("Hello"), Row::new("World")], "\n".to_string());
    let state = EditorState::new(content, Viewport::new(0, 0, 10, 3), (0, 0), None);
    let commands = render(&state, true);
    assert_eq!(commands[0], Command::HideCursor);
    // Two visible rows of seven directives each, one cleared blank row,
    // three status directives, and the cursor placed and shown.
    assert_eq!(commands.len(), 1 + 2 * 7 + 1 * 2 + 3 + 2);
    assert_eq!(commands[2], Command::Print("Hello".to_string()));
    assert_eq!(commands[9], Command::Print("World".to_string()));
    assert_eq!(*commands.last().unwrap(), Command::ShowCursor);
}

#[test]
fn status_line_text() {
    let content = EditorContent::new(vec![Row::new("Hello")], "\n".to_string());
    let state = EditorState::new(content, Viewport::new(0, 0, 80, 24), (0, 3), None);
    let commands = render(&state, false);
    let printed: Vec<&Command> = commands
        .iter()
        .filter(|c| matches!(c, Command::Print(_)))
        .collect();
    assert_eq!(printed, vec![&Command::Print("80x24 | 1 4 | 1 | LF".to_string())]);
}
