use picow::editor::content::EditorContent;
use picow::editor::cursor::Cursor;
use picow::editor::row::Row;

fn curs(row: usize, col: usize, furthest_col: Option<usize>) -> Cursor {
    Cursor::new(row, col, furthest_col)
}

fn content(rows: Vec<&str>) -> EditorContent {
    EditorContent::new(rows.iter().map(|&s| Row::new(s)).collect(), "\n".to_string())
}

#[test]
fn unicode_down_2_to_1() {
    let cursor = curs(0, 2, None);
    let content = content(vec!["he", "😎😎"]);
    assert_eq!(cursor.move_down(&content, 1), Some(curs(1, 1, Some(2))));
}

#[test]
fn unicode_down_5_to_2() {
    let cursor = curs(0, 5, None);
    let content = content(vec!["hello", "😎😎"]);
    assert_eq!(cursor.move_down(&content, 1), Some(curs(1, 2, Some(5))));
}

#[test]
fn unicode_down_2_to_5() {
    let cursor = curs(1, 2, Some(5));
    let content = content(vec!["hello", "😎😎", "world!"]);
    assert_eq!(cursor.move_down(&content, 1), Some(curs(2, 5, Some(5))));
}

#[test]
fn vertical_column_memory() {
    // Down through a two-cluster line and back up restores column 5.
    let content = content(vec!["hello", "ab", "world"]);
    let cursor = curs(0, 5, None);
    let below = cursor.move_down(&content, 1).unwrap();
    assert_eq!(below, curs(1, 2, Some(5)));
    let back = below.move_up(&content, 1).unwrap();
    assert_eq!(back.pos(), (0, 5));
}

#[test]
fn click_current_position_is_noop() {
    let content = content(vec!["hello", "world"]);
    let cursor = curs(1, 3, None);
    assert_eq!(cursor.move_to(&content, (1, 3)), None);
}

#[test]
fn move_left_at_document_start_is_noop() {
    let content = content(vec!["hello"]);
    let cursor = curs(0, 0, None);
    assert_eq!(cursor.move_left(&content), None);
}

#[test]
fn move_right_wraps_to_next_line() {
    let content = content(vec!["ab", "cd"]);
    let cursor = curs(0, 2, None);
    assert_eq!(cursor.move_right(&content).unwrap().pos(), (1, 0));
}

#[test]
fn move_to_clamps_out_of_range() {
    let content = content(vec!["hello", "hi"]);
    let cursor = curs(0, 0, None);
    assert_eq!(cursor.move_to(&content, (9, 9)).unwrap().pos(), (1, 2));
}
