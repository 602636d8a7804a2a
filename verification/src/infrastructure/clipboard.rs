use crate::error::{EditorError, Result};
use vstd::prelude::*;

verus! {

#[verifier::external_type_specification]
#[verifier::external_body]
pub struct ExArboardError(arboard::Error);

/// `arboard::Clipboard::new` followed by `get_text` on the handle: the text
/// the system clipboard holds, or the error the system gave. Nothing is
/// stated of which: the clipboard belongs to the system.
#[verifier::external_body]
fn arboard_get_text() -> std::result::Result<String, arboard::Error> {
    arboard::Clipboard::new().and_then(|mut c| c.get_text())
}

/// `arboard::Clipboard::new` followed by `set_text` on the handle: puts
/// `text` on the system clipboard, or gives the error the system gave.
/// Nothing is stated of which.
#[verifier::external_body]
fn arboard_set_text(text: &str) -> std::result::Result<(), arboard::Error> {
    arboard::Clipboard::new().and_then(|mut c| c.set_text(text))
}

/// The text of `arboard::Error`'s `Display`. Nothing is stated of it.
#[verifier::external_body]
fn arboard_error_text(e: &arboard::Error) -> String {
    e.to_string()
}

/// The system clipboard, reached through arboard.
pub struct ArboardClipboard;

impl ArboardClipboard {
    pub fn new() -> (r: Self) {
        Self
    }
}

impl Default for ArboardClipboard {
    fn default() -> (r: Self) {
        Self::new()
    }
}

impl crate::ports::Clipboard for ArboardClipboard {
    /// The clipboard's text; every failure is a `ClipboardError`.
    fn get_text(&self) -> (r: Result<String>)
        ensures
            r matches Err(e) ==> e is ClipboardError,
    {
        match arboard_get_text() {
            Ok(t) => Ok(t),
            Err(e) => Err(EditorError::ClipboardError(arboard_error_text(&e))),
        }
    }

    /// Puts `text` on the clipboard; every failure is a `ClipboardError`.
    fn set_text(&self, text: &str) -> (r: Result<()>)
        ensures
            r matches Err(e) ==> e is ClipboardError,
    {
        match arboard_set_text(text) {
            Ok(()) => Ok(()),
            Err(e) => Err(EditorError::ClipboardError(arboard_error_text(&e))),
        }
    }
}

} // verus!
