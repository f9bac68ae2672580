//! Core of a terminal text editor: a grapheme-cluster-aware document model,
//! edit operations with exact inverses driving undo/redo, cursor and viewport
//! navigation, and a decoder for raw terminal input.
pub mod editor;
pub mod text;
pub mod terminal;
