use picow::editor::content::EditorContent;
use picow::editor::edit::{process, EditOp};
use picow::editor::row::Row;

fn rows(strs: Vec<&str>) -> Vec<Row> {
    strs.iter().map(|&s| Row::new(s)).collect()
}

fn content(strs: Vec<&str>) -> EditorContent {
    EditorContent::new(rows(strs), "\n".to_string())
}

#[test]
fn to_single_line() {
    let edit_op = EditOp::Insert { from: (12, 14), lines: rows(vec!["line"]) };
    assert_eq!(edit_op.to(), (12, 18));
}

#[test]
fn to_multi_line() {
    let edit_op = EditOp::Insert { from: (12, 14), lines: rows(vec!["line 1", "line 23"]) };
    assert_eq!(edit_op.to(), (13, 7));
}

#[test]
fn insert_op_multi_line() {
    assert_eq!(
        EditOp::insert((0, 5), "Hello\nWorld"),
        EditOp::Insert { from: (0, 5), lines: rows(vec!["Hello", "World"]) }
    )
}

#[test]
fn delete_op_char() {
    let content = content(vec!["Hello", "Amazing", "World"]);
    assert_eq!(
        EditOp::delete(&content, (1, 0), (1, 1)),
        EditOp::Delete { from: (1, 0), lines: rows(vec!["A"]) }
    )
}

#[test]
fn delete_op_eol() {
    let content = content(vec!["Hello", "A"]);
    assert_eq!(
        EditOp::delete(&content, (0, 5), (1, 0)),
        EditOp::Delete { from: (0, 5), lines: rows(vec!["", ""]) }
    )
}

#[test]
fn delete_op_line() {
    let content = content(vec!["Hello"]);
    assert_eq!(
        EditOp::delete(&content, (0, 0), (0, 5)),
        EditOp::Delete { from: (0, 0), lines: rows(vec!["Hello"]) }
    )
}

#[test]
fn delete_op_multi_line() {
    let content = content(vec!["Hello", "Amazing", "World"]);
    assert_eq!(
        EditOp::delete(&content, (0, 3), (2, 3)),
        EditOp::Delete { from: (0, 3), lines: rows(vec!["lo", "Amazing", "Wor"]) }
    )
}

#[test]
fn delete_op_everything() {
    let content = content(vec!["Hello", "World"]);
    assert_eq!(
        EditOp::delete(&content, (0, 0), (1, 5)),
        EditOp::Delete { from: (0, 0), lines: rows(vec!["Hello", "World"]) }
    )
}

#[test]
fn process_insert_single_line() {
    let mut content = content(vec!["Hello", "World"]);
    let edit_op = EditOp::Insert { from: (0, 4), lines: rows(vec!["issim"]) };
    process(&mut content, &edit_op);
    assert_eq!(content.lines, rows(vec!["Hellissimo", "World"]))
}

#[test]
fn process_insert_multi_line() {
    let mut content = content(vec!["Hello", "World"]);
    let edit_op = EditOp::Insert { from: (0, 4), lines: rows(vec!["issimo", "Bell"]) };
    process(&mut content, &edit_op);
    assert_eq!(content.lines, rows(vec!["Hellissimo", "Bello", "World"]))
}

#[test]
fn process_delete_single_line() {
    let mut content = content(vec!["Hello", "World"]);
    let edit_op = EditOp::delete(&content, (0, 3), (0, 5));
    process(&mut content, &edit_op);
    assert_eq!(content.lines, rows(vec!["Hel", "World"]));
}

#[test]
fn delete_eol() {
    let mut content = content(vec!["Hello", "World"]);
    let edit_op = EditOp::delete(&content, (0, 5), (1, 0));
    process(&mut content, &edit_op);
    assert_eq!(content.lines, rows(vec!["HelloWorld"]));
}

#[test]
fn delete_multiple_lines() {
    let mut content = content(vec!["Hello", "World", "How are you?"]);
    let edit_op = EditOp::delete(&content, (0, 2), (2, 8));
    process(&mut content, &edit_op);
    assert_eq!(content.lines, rows(vec!["Heyou?"]));
}

#[test]
fn insert_scenario_multi_line() {
    // Inserting ",\nBig" at (0, 5) splits the first row and lands at (1, 3).
    let mut content = content(vec!["Hello", "World"]);
    let edit_op = EditOp::insert((0, 5), ",\nBig");
    let end = process(&mut content, &edit_op);
    assert_eq!(content.lines, rows(vec!["Hello,", "Big", "World"]));
    assert_eq!(end, (1, 3));
}

#[test]
fn delete_scenario_across_lines() {
    // Deleting (0,3)..(2,3) captures the spanned rows and glues the rest.
    let mut content = content(vec!["Hello", "Amazing", "World"]);
    let edit_op = EditOp::delete(&content, (0, 3), (2, 3));
    assert_eq!(
        edit_op,
        EditOp::Delete { from: (0, 3), lines: rows(vec!["lo", "Amazing", "Wor"]) }
    );
    let end = process(&mut content, &edit_op);
    assert_eq!(content.lines, rows(vec!["Helld"]));
    assert_eq!(end, (0, 3));
}

#[test]
fn inverse_roundtrip_insert() {
    // Applying an op and then its inverse restores the rows exactly.
    let mut content = content(vec!["Hello", "World"]);
    let before = content.lines.clone();
    let edit_op = EditOp::insert((0, 2), "xy\nz");
    process(&mut content, &edit_op);
    assert_ne!(content.lines, before);
    process(&mut content, &edit_op.inverse());
    assert_eq!(content.lines, before);
}

#[test]
fn inverse_roundtrip_replace() {
    let mut content = content(vec!["Hello", "Amazing", "World"]);
    let before = content.lines.clone();
    let edit_op = EditOp::replace(&content, (0, 3), (2, 3), "per\nfect");
    process(&mut content, &edit_op);
    assert_eq!(content.lines, rows(vec!["Helper", "fectld"]));
    process(&mut content, &edit_op.inverse());
    assert_eq!(content.lines, before);
}
