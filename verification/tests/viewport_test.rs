use picow::editor::content::EditorContent;
use picow::editor::row::Row;
use picow::editor::viewport::Viewport;

fn content(n: usize) -> EditorContent {
    let rows: Vec<Row> = (0..n).map(|_| Row::new("x")).collect();
    EditorContent::new(rows, "\n".to_string())
}

#[test]
fn scroll_into_view_is_minimal() {
    let v = Viewport::new(10, 20, 5, 5);
    // Already visible: no scroll.
    assert_eq!(v.scroll_into_view((22, 12)), None);
    // Before the origin: scroll exactly to the position.
    assert_eq!(v.scroll_into_view((3, 4)), Some((3, 4)));
    // Past the window: scroll so the position is the last one shown.
    assert_eq!(v.scroll_into_view((30, 40)), Some((26, 36)));
}

#[test]
fn scroll_up_clamps_at_document_start() {
    let c = content(50);
    let v = Viewport::new(0, 3, 10, 10);
    assert_eq!(v.scroll_up(&c, 10), Some((0, 0)));
    let at_top = Viewport::new(0, 0, 10, 10);
    assert_eq!(at_top.scroll_up(&c, 1), None);
}

#[test]
fn scroll_down_never_passes_last_row() {
    let c = content(5);
    let v = Viewport::new(0, 3, 10, 10);
    assert_eq!(v.scroll_down(&c, 99), Some((4, 0)));
    let at_bottom = Viewport::new(0, 4, 10, 10);
    assert_eq!(at_bottom.scroll_down(&c, 1), None);
}

#[test]
fn relative_and_absolute_are_inverse() {
    let v = Viewport::new(7, 3, 20, 10);
    assert_eq!(v.to_relative((5, 9)), (3, 3));
    assert_eq!(v.to_absolute((3, 3)), (5, 9));
}

#[test]
fn to_absolute_clamps_at_origin() {
    let v = Viewport::new(0, 0, 20, 10);
    assert_eq!(v.to_absolute((0, 0)), (0, 0));
}

#[test]
fn cursor_within_bounds() {
    let v = Viewport::new(5, 2, 10, 4);
    assert!(v.cursor_within((2, 5)));
    assert!(v.cursor_within((5, 14)));
    assert!(!v.cursor_within((1, 5)));
    assert!(!v.cursor_within((6, 5)));
    assert!(!v.cursor_within((2, 15)));
}

#[test]
fn resize_keeps_a_status_row() {
    let mut v = Viewport::new(0, 0, 10, 10);
    v.resize(30, 20);
    assert_eq!(v.size(), (30, 19));
    assert_eq!(v.pos(), (0, 0));
}
