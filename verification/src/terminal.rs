pub mod ansi_in;
pub mod commands;
pub mod events;
pub mod reader;
