use crate::error::Result;
use vstd::prelude::*;

verus! {

/// A system clipboard that holds text.
pub trait Clipboard: Send + Sync {
    fn get_text(&self) -> Result<String>;

    fn set_text(&self, text: &str) -> Result<()>;
}

} // verus!
