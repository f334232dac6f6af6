//! A personal task list: the record file format that stores it, the edits
//! made to it by index, and the text that draws it in a terminal.

pub mod command;
pub mod ops;
pub mod record;
pub mod render;
pub mod task;
pub mod text;
