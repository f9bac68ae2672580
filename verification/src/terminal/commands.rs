//! Abstract drawing directives the renderer emits; a sink translates them
//! into terminal escape output.
use vstd::prelude::*;

verus! {

#[derive(Debug, PartialEq)]
pub enum Command {
    Clear,
    ClearLine,
    ClearToEndOfLine,
    Print(String),
    SetBackgroundColor(u8),
    MoveTo(u16, u16),
    MoveUp(u16),
    MoveLeft(u16),
    MoveRight(u16),
    MoveDown(u16),
    HideCursor,
    ShowCursor,
    EnterAlternateScreen,
    LeaveAlternateScreen,
    EnableMouseCapture,
    DisableMouseCapture,
    EnableBracketedPaste,
    DisableBracketedPaste,
    SetWindowTitle(String),
}

/// A drawing directive with its text payloads abstracted to character
/// sequences; what the renderer's contract speaks of.
pub enum CommandModel {
    ClearM,
    ClearLineM,
    ClearToEndOfLineM,
    PrintM(Seq<char>),
    SetBackgroundColorM(u8),
    MoveToM(u16, u16),
    MoveUpM(u16),
    MoveLeftM(u16),
    MoveRightM(u16),
    MoveDownM(u16),
    HideCursorM,
    ShowCursorM,
    EnterAlternateScreenM,
    LeaveAlternateScreenM,
    EnableMouseCaptureM,
    DisableMouseCaptureM,
    EnableBracketedPasteM,
    DisableBracketedPasteM,
    SetWindowTitleM(Seq<char>),
}

impl View for Command {
    type V = CommandModel;

    open spec fn view(&self) -> CommandModel {
        match self {
            Command::Clear => CommandModel::ClearM,
            Command::ClearLine => CommandModel::ClearLineM,
            Command::ClearToEndOfLine => CommandModel::ClearToEndOfLineM,
            Command::Print(s) => CommandModel::PrintM(s@),
            Command::SetBackgroundColor(c) => CommandModel::SetBackgroundColorM(*c),
            Command::MoveTo(x, y) => CommandModel::MoveToM(*x, *y),
            Command::MoveUp(n) => CommandModel::MoveUpM(*n),
            Command::MoveLeft(n) => CommandModel::MoveLeftM(*n),
            Command::MoveRight(n) => CommandModel::MoveRightM(*n),
            Command::MoveDown(n) => CommandModel::MoveDownM(*n),
            Command::HideCursor => CommandModel::HideCursorM,
            Command::ShowCursor => CommandModel::ShowCursorM,
            Command::EnterAlternateScreen => CommandModel::EnterAlternateScreenM,
            Command::LeaveAlternateScreen => CommandModel::LeaveAlternateScreenM,
            Command::EnableMouseCapture => CommandModel::EnableMouseCaptureM,
            Command::DisableMouseCapture => CommandModel::DisableMouseCaptureM,
            Command::EnableBracketedPaste => CommandModel::EnableBracketedPasteM,
            Command::DisableBracketedPaste => CommandModel::DisableBracketedPasteM,
            Command::SetWindowTitle(s) => CommandModel::SetWindowTitleM(s@),
        }
    }
}

impl DeepView for Command {
    type V = CommandModel;

    open spec fn deep_view(&self) -> CommandModel {
        self.view()
    }
}

} // verus!
