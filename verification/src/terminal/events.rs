//! Terminal input events: keys with a modifier bitmask, mouse actions, and
//! bracketed-paste payloads.
use vstd::prelude::*;

verus! {

#[derive(Debug, PartialEq)]
pub enum Event {
    Key(KeyCode, u8),
    Mouse(Mouse),
    Paste(String),
}

#[derive(Debug, PartialEq, Clone, Copy)]
pub enum KeyCode {
    Char(char),
    Esc,
    Enter,
    Tab,
    Backspace,
    Insert,
    Delete,
    Up,
    Down,
    Right,
    Left,
    Home,
    End,
    PageUp,
    PageDown,
}

pub const CTRL: u8 = 0b0001;

pub const ALT: u8 = 0b0010;

pub const SHIFT: u8 = 0b0100;

#[derive(Debug, PartialEq, Clone, Copy)]
pub enum Mouse {
    Button(MouseButton, MouseEvent, u16, u16),
    WheelUp(u16, u16),
    WheelDown(u16, u16),
}

#[derive(Debug, PartialEq, Clone, Copy)]
pub enum MouseButton {
    Left,
    Middle,
    Right,
}

#[derive(Debug, PartialEq, Clone, Copy)]
pub enum MouseEvent {
    Press,
    Drag,
    Release,
}

/// An event with its text payload abstracted to a character sequence; what
/// the decoder's contract speaks of.
pub enum EventModel {
    KeyM(KeyCode, u8),
    MouseM(Mouse),
    PasteM(Seq<char>),
}

impl View for Event {
    type V = EventModel;

    open spec fn view(&self) -> EventModel {
        match self {
            Event::Key(code, mods) => EventModel::KeyM(*code, *mods),
            Event::Mouse(m) => EventModel::MouseM(*m),
            Event::Paste(s) => EventModel::PasteM(s@),
        }
    }
}

impl DeepView for Event {
    type V = EventModel;

    open spec fn deep_view(&self) -> EventModel {
        self.view()
    }
}

} // verus!
