pub mod content;
pub mod cursor;
pub mod edit;
pub mod editing;
pub mod navigation;
pub mod events;
pub mod pos;
pub mod renderer;
pub mod row;
pub mod split;
pub mod state;
pub mod tuple_ops;
pub mod unicode;
pub mod viewport;
