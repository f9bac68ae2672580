use picow::terminal::ansi_in::parse;
use picow::terminal::events::{
    Event::{self, Key, Paste},
    KeyCode::{Backspace, Char, Delete, Down, End, Enter, Esc, Home, Insert, Left, PageDown,
        PageUp, Right, Tab, Up},
    Mouse::{Button, WheelDown, WheelUp},
    MouseButton,
    MouseEvent::{Drag, Press, Release},
    ALT, CTRL, SHIFT,
};

fn parsed(input: &str) -> Event {
    parse(input).unwrap()
}

#[test]
fn key_x() {
    assert_eq!(parsed("x"), Key(Char('x'), 0));
}

#[test]
fn key_esc() {
    assert_eq!(parsed("\x1B"), Key(Esc, 0));
}

#[test]
fn key_backspace() {
    assert_eq!(parsed("\u{7F}"), Key(Backspace, 0));
}

#[test]
fn key_tab() {
    assert_eq!(parsed("\t"), Key(Tab, 0));
}

#[test]
fn key_enter() {
    assert_eq!(parsed("\n"), Key(Enter, 0));
    assert_eq!(parsed("\r"), Key(Enter, 0));
}

#[test]
fn cursor_keys() {
    assert_eq!(parsed("\x1B[A"), Key(Up, 0));
    assert_eq!(parsed("\x1B[B"), Key(Down, 0));
    assert_eq!(parsed("\x1B[C"), Key(Right, 0));
    assert_eq!(parsed("\x1B[D"), Key(Left, 0));
    assert_eq!(parsed("\x1B[H"), Key(Home, 0));
    assert_eq!(parsed("\x1B[F"), Key(End, 0));
}

#[test]
fn cursor_keys_with_modifiers() {
    assert_eq!(parsed("\x1B[1;5A"), Key(Up, CTRL));
    assert_eq!(parsed("\x1B[1;3B"), Key(Down, ALT));
    assert_eq!(parsed("\x1B[1;2C"), Key(Right, SHIFT));
    assert_eq!(parsed("\x1B[1;6D"), Key(Left, CTRL | SHIFT));
    assert_eq!(parsed("\x1B[1;7H"), Key(Home, CTRL | ALT));
    assert_eq!(parsed("\x1B[1;4F"), Key(End, ALT | SHIFT));
    assert_eq!(parsed("\x1B[1;8A"), Key(Up, CTRL | ALT | SHIFT));
}

#[test]
fn special_keys() {
    assert_eq!(parsed("\x1B[2~"), Key(Insert, 0));
    assert_eq!(parsed("\x1B[3~"), Key(Delete, 0));
    assert_eq!(parsed("\x1B[5~"), Key(PageUp, 0));
    assert_eq!(parsed("\x1B[6~"), Key(PageDown, 0));
}

#[test]
fn special_keys_with_modifiers() {
    assert_eq!(parsed("\x1B[2;3~"), Key(Insert, ALT));
    assert_eq!(parsed("\x1B[3;2~"), Key(Delete, SHIFT));
    assert_eq!(parsed("\x1B[5;5~"), Key(PageUp, CTRL));
    assert_eq!(parsed("\x1B[6;7~"), Key(PageDown, CTRL | ALT));
}

#[test]
fn paste() {
    assert_eq!(
        parsed("\x1B[200~Hello World!\x1B[201~"),
        Paste("Hello World!".to_string())
    );
}

#[test]
fn paste_without_end_marker_is_discarded() {
    assert_eq!(parse("\x1B[200~Hello"), None);
}

#[test]
fn mouse_presses() {
    assert_eq!(
        parsed("\x1B[<0;128;43M"),
        Event::Mouse(Button(MouseButton::Left, Press, 128, 43))
    );
    assert_eq!(
        parsed("\x1B[<1;1;12M"),
        Event::Mouse(Button(MouseButton::Middle, Press, 1, 12))
    );
    assert_eq!(
        parsed("\x1B[<2;98;443M"),
        Event::Mouse(Button(MouseButton::Right, Press, 98, 443))
    );
}

#[test]
fn mouse_drags() {
    assert_eq!(
        parsed("\x1B[<32;128;43M"),
        Event::Mouse(Button(MouseButton::Left, Drag, 128, 43))
    );
    assert_eq!(
        parsed("\x1B[<33;1;12M"),
        Event::Mouse(Button(MouseButton::Middle, Drag, 1, 12))
    );
}

#[test]
fn mouse_releases() {
    assert_eq!(
        parsed("\x1B[<0;128;43m"),
        Event::Mouse(Button(MouseButton::Left, Release, 128, 43))
    );
    assert_eq!(
        parsed("\x1B[<2;98;443m"),
        Event::Mouse(Button(MouseButton::Right, Release, 98, 443))
    );
}

#[test]
fn mouse_wheel() {
    assert_eq!(parsed("\x1B[<64;128;43M"), Event::Mouse(WheelUp(128, 43)));
    assert_eq!(parsed("\x1B[<65;1;12M"), Event::Mouse(WheelDown(1, 12)));
}

#[test]
fn garbage_is_discarded() {
    assert_eq!(parse(""), None);
    assert_eq!(parse("\x1B[999Q"), None);
    assert_eq!(parse("\x1Bx"), None);
    assert_eq!(parse("\x1B[<3;1;1M"), None);
    assert_eq!(parse("\x1B[<0;70000;1M"), None);
}
