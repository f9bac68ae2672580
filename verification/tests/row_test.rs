use picow::editor::row::{Row, RowVecExt};

fn row(s: &str) -> Row {
    Row::new(s)
}

#[test]
fn join() {
    let rows = vec![row("žlu"), row("ťoučký")];
    assert_eq!(rows.join(""), "žluťoučký")
}

#[test]
fn join_with_separator() {
    let rows = vec![row("a"), row("b"), row("c")];
    assert_eq!(rows.join("\r\n"), "a\r\nb\r\nc")
}

#[test]
fn len() {
    assert_eq!(row("Příliš").len(), 6)
}

#[test]
fn split_at() {
    let (left, right) = row("Příliš").split_at(3);
    assert_eq!((left, right), (row("Pří"), row("liš")))
}

#[test]
fn split_at_past_end() {
    let (left, right) = row("ab").split_at(9);
    assert_eq!((left, right), (row("ab"), row("")))
}

#[test]
fn concat() {
    assert_eq!(row("žlu").concat(&row("ťoučký")), row("žluťoučký"))
}

#[test]
fn split_then_concat_restores_row() {
    let r = row("I💖kůň");
    for i in 0..=r.len() {
        let (left, right) = r.split_at(i);
        assert_eq!(left.concat(&right), r);
    }
}

#[test]
fn slice_range() {
    assert_eq!(row("žluťoučký").slice(1, 5).text(), "luťo")
}

#[test]
fn text_range_clamps() {
    assert_eq!(row("žluťoučký").text_range(2, 99), "uťoučký");
    assert_eq!(row("žluťoučký").text_range(0, 7), "žluťouč");
}

#[test]
fn char_width_start() {
    assert_eq!(row("Hello").mono_col_at(0), 0)
}

#[test]
fn char_width_ascii() {
    assert_eq!(row("Hello").mono_col_at(3), 3)
}

#[test]
fn char_width_accent() {
    assert_eq!(row("kůň").mono_col_at(2), 2)
}

#[test]
fn char_width_emoji_0() {
    assert_eq!(row("I💖U").mono_col_at(0), 0)
}

#[test]
fn char_width_emoji_1() {
    assert_eq!(row("I💖U").mono_col_at(1), 1)
}

#[test]
fn char_width_emoji_2() {
    assert_eq!(row("I💖U").mono_col_at(2), 3)
}

#[test]
fn char_width_emoji_3() {
    assert_eq!(row("I💖U").mono_col_at(3), 4)
}

#[test]
fn char_idx_at_0() {
    assert_eq!(row("I💖kůň").char_idx_at(0), 0)
}

#[test]
fn char_idx_at_1() {
    assert_eq!(row("I💖kůň").char_idx_at(1), 1)
}

#[test]
fn char_idx_at_3() {
    assert_eq!(row("I💖kůň").char_idx_at(3), 2)
}

#[test]
fn char_idx_at_5() {
    assert_eq!(row("I💖kůň").char_idx_at(5), 4)
}

#[test]
fn char_idx_inverts_mono_col() {
    let r = row("I💖kůň");
    for i in 0..=r.len() {
        assert_eq!(r.char_idx_at(r.mono_col_at(i)), i);
    }
}

#[test]
fn mono_col_is_monotone() {
    let r = row("a💖b💖c");
    let mut prev = 0;
    for i in 0..=r.len() + 2 {
        let col = r.mono_col_at(i);
        assert!(col >= prev);
        prev = col;
    }
}

#[test]
fn combining_mark_is_one_cluster() {
    // An 'e' followed by a combining acute accent is a single cluster.
    assert_eq!(row("e\u{301}x").len(), 2)
}
