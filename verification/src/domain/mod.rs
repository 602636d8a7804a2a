pub mod buffer;
pub mod cursor;
pub mod operations;
pub mod position;
