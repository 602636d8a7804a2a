pub mod clipboard;
pub mod helpers;

pub use clipboard::{copy_selection, cut_selection, paste_at_cursor};
pub use helpers::{apply_redo, apply_undo, delete_selection_or_char};
