use picow::editor::content::EditorContent;
use picow::editor::row::Row;
use picow::editor::split::{detect_line_delimiter, split, CR, CRLF, LF};

fn strings(strs: Vec<&str>) -> Vec<String> {
    strs.iter().map(|&s| s.to_string()).collect()
}

#[test]
fn split_crlf() {
    let text = "Hello\r\nWorld\r\n";
    let (lines, delimiter) = split(text);
    assert_eq!(lines, strings(vec!["Hello", "World", ""]));
    assert_eq!(delimiter, CRLF.to_string());
}

#[test]
fn split_cr() {
    let text = "Hello\rWorld\r";
    let (lines, delimiter) = split(text);
    assert_eq!(lines, strings(vec!["Hello", "World", ""]));
    assert_eq!(delimiter, CR.to_string());
}

#[test]
fn split_lf() {
    let text = "Hello\nWorld\n";
    let (lines, delimiter) = split(text);
    assert_eq!(lines, strings(vec!["Hello", "World", ""]));
    assert_eq!(delimiter, LF.to_string());
}

#[test]
fn split_empty() {
    let (lines, delimiter) = split("");
    assert_eq!(lines, strings(vec![""]));
    assert_eq!(delimiter, LF.to_string());
}

#[test]
fn crlf_takes_precedence_over_lf() {
    assert_eq!(detect_line_delimiter("a\nb\r\nc"), CRLF.to_string());
}

#[test]
fn parse_detects_delimiter_and_rows() {
    let content = EditorContent::parse("Hello\rWonderful\rWorld");
    assert_eq!(
        content.lines,
        vec![Row::new("Hello"), Row::new("Wonderful"), Row::new("World")]
    );
    assert_eq!(content.delimiter, CR.to_string());
}

#[test]
fn parse_empty_text_is_one_empty_row() {
    let content = EditorContent::parse("");
    assert_eq!(content.lines, vec![Row::new("")]);
    assert_eq!(content.delimiter, LF.to_string());
}

#[test]
fn selected_text_joins_with_delimiter() {
    let content = EditorContent::parse("Hello\r\nAmazing\r\nWorld");
    assert_eq!(content.selected_text((0, 3), (2, 3)), "lo\r\nAmazing\r\nWor");
}
