pub mod find;
pub mod settings;
pub mod undo;

pub use find::FindReplace;
pub use undo::{EditAction, UndoManager, UndoState};
