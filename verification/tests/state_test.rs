use picow::editor::content::EditorContent;
use picow::editor::events::process_event;
use picow::editor::row::Row;
use picow::editor::state::EditorState;
use picow::editor::viewport::Viewport;
use picow::terminal::events::{Event::Key, Event::Paste, KeyCode::{Backspace, Char, Delete, Enter}, CTRL};

fn rows(strs: Vec<&str>) -> Vec<Row> {
    strs.iter().map(|&s| Row::new(s)).collect()
}

fn state(strs: Vec<&str>, cursor: (usize, usize), anchor: Option<(usize, usize)>) -> EditorState {
    let content = EditorContent::new(rows(strs), "\n".to_string());
    let viewport = Viewport::new(0, 0, 80, 25);
    EditorState::new(content, viewport, cursor, anchor)
}

#[test]
fn test_insert_char() {
    let mut st = state(vec!["Hllo"], (0, 1), None);
    process_event(&Key(Char('e'), 0), &mut st);
    assert_eq!(st.content.lines, rows(vec!["Hello"]));
    assert_eq!(st.cursor.pos(), (0, 2));
}

#[test]
fn test_type() {
    let mut st = state(vec![""], (0, 0), None);
    for c in ['H', 'e', 'y'] {
        process_event(&Key(Char(c), 0), &mut st);
    }
    assert_eq!(st.content.lines, rows(vec!["Hey"]));
    assert_eq!(st.cursor.pos(), (0, 3));
}

#[test]
fn test_insert_lf() {
    let mut st = state(vec!["HelloWorld"], (0, 5), None);
    process_event(&Key(Enter, 0), &mut st);
    assert_eq!(st.content.lines, rows(vec!["Hello", "World"]));
    assert_eq!(st.cursor.pos(), (1, 0));
}

#[test]
fn test_paste() {
    let mut st = state(vec!["Hello", "World"], (1, 0), None);
    process_event(&Paste("Wonderful\n".to_string()), &mut st);
    assert_eq!(st.content.lines, rows(vec!["Hello", "Wonderful", "World"]));
    assert_eq!(st.cursor.pos(), (2, 0));
}

#[test]
fn test_backspace_joins_lines() {
    let mut st = state(vec!["Hello", "World"], (1, 0), None);
    process_event(&Key(Backspace, 0), &mut st);
    assert_eq!(st.content.lines, rows(vec!["HelloWorld"]));
    assert_eq!(st.cursor.pos(), (0, 5));
}

#[test]
fn test_delete_forward() {
    let mut st = state(vec!["Hello"], (0, 0), None);
    process_event(&Key(Delete, 0), &mut st);
    assert_eq!(st.content.lines, rows(vec!["ello"]));
    assert_eq!(st.cursor.pos(), (0, 0));
}

#[test]
fn test_selection_replace_char() {
    // Selection spans "llo Kitt"; typing 'i' leaves "He" + "i" + "y".
    let mut st = state(vec!["Hello Kitty"], (0, 10), Some((0, 2)));
    process_event(&Key(Char('i'), 0), &mut st);
    assert_eq!(st.content.lines, rows(vec!["Heiy"]));
    assert_eq!(st.cursor.pos(), (0, 3));
}

#[test]
fn test_selection_delete() {
    let mut st = state(vec!["Hello Kitty"], (0, 10), Some((0, 2)));
    process_event(&Key(Delete, 0), &mut st);
    assert_eq!(st.content.lines, rows(vec!["Hey"]));
    assert_eq!(st.cursor.pos(), (0, 2));
}

#[test]
fn test_selection_replace_char_undo() {
    // Undo restores the replaced text verbatim.
    let mut st = state(vec!["Hello Kitty"], (0, 10), Some((0, 2)));
    process_event(&Key(Char('i'), 0), &mut st);
    assert_eq!(st.content.lines, rows(vec!["Heiy"]));
    process_event(&Key(Char('Z'), CTRL), &mut st);
    assert_eq!(st.content.lines, rows(vec!["Hello Kitty"]));
}

#[test]
fn test_undo_redo_cycle() {
    let mut st = state(vec!["Hello"], (0, 5), None);
    process_event(&Key(Char('!'), 0), &mut st);
    assert_eq!(st.content.lines, rows(vec!["Hello!"]));
    assert!(st.undo());
    assert_eq!(st.content.lines, rows(vec!["Hello"]));
    assert!(st.redo());
    assert_eq!(st.content.lines, rows(vec!["Hello!"]));
    assert!(st.undo());
    assert_eq!(st.content.lines, rows(vec!["Hello"]));
}

#[test]
fn test_undo_empty_stack_is_noop() {
    let mut st = state(vec!["Hello"], (0, 0), None);
    assert!(!st.undo());
    assert!(!st.redo());
    assert_eq!(st.content.lines, rows(vec!["Hello"]));
}

#[test]
fn test_edit_clears_redo() {
    let mut st = state(vec!["ab"], (0, 2), None);
    process_event(&Key(Char('c'), 0), &mut st);
    assert!(st.undo());
    process_event(&Key(Char('d'), 0), &mut st);
    assert!(!st.redo());
    assert_eq!(st.content.lines, rows(vec!["abd"]));
}

#[test]
fn test_selection_symmetric() {
    // Anchor and cursor swapped report the same span.
    let a = state(vec!["Hello", "World"], (1, 2), Some((0, 3)));
    let b = state(vec!["Hello", "World"], (0, 3), Some((1, 2)));
    assert_eq!(a.selection(), b.selection());
    assert_eq!(a.selection(), Some(((0, 3), (1, 2))));
}

#[test]
fn test_selection_of_equal_positions() {
    let st = state(vec!["Hello"], (0, 3), Some((0, 3)));
    assert_eq!(st.selection(), Some(((0, 3), (0, 3))));
}

#[test]
fn test_select_all() {
    let mut st = state(vec!["Hello", "World"], (0, 1), None);
    process_event(&Key(Char('A'), CTRL), &mut st);
    assert_eq!(st.selection(), Some(((0, 0), (1, 5))));
}

#[test]
fn test_copy_hands_out_selected_text() {
    let mut st = state(vec!["Hello", "World"], (1, 3), Some((0, 2)));
    let (redraw, copied) = process_event(&Key(Char('C'), CTRL), &mut st);
    assert!(!redraw);
    assert_eq!(copied, Some("llo\nWor".to_string()));
    assert_eq!(st.content.lines, rows(vec!["Hello", "World"]));
}

#[test]
fn test_cut_deletes_selection() {
    let mut st = state(vec!["Hello", "World"], (1, 3), Some((0, 2)));
    let (redraw, copied) = process_event(&Key(Char('X'), CTRL), &mut st);
    assert!(redraw);
    assert_eq!(copied, Some("llo\nWor".to_string()));
    assert_eq!(st.content.lines, rows(vec!["Held"]));
}

#[test]
fn test_state_insert_char_method() {
    let mut st = state(vec!["Hello"], (0, 0), None);
    assert!(st.insert_char((0, 5), '!'));
    assert_eq!(st.content.lines, rows(vec!["Hello!"]));
}

#[test]
fn test_state_delete_char_method() {
    let mut st = state(vec!["Hello", "World"], (0, 0), None);
    assert!(st.delete_char((0, 5)));
    assert_eq!(st.content.lines, rows(vec!["HelloWorld"]));
    assert!(!st.delete_char((0, 10)));
}

#[test]
fn test_navigation_queries() {
    let st = state(vec!["Hello", "Hi"], (0, 4), None);
    assert_eq!(st.move_down(1).unwrap().pos(), (1, 2));
    assert_eq!(st.move_line_start().unwrap().pos(), (0, 0));
    assert_eq!(st.move_line_end().unwrap().pos(), (0, 5));
    assert_eq!(st.move_document_end().unwrap().pos(), (1, 2));
    assert_eq!(st.move_document_start().unwrap().pos(), (0, 0));
    assert_eq!(st.click((7, 7)).unwrap().pos(), (1, 2));
}
