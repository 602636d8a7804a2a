use crate::error::Result;
use std::path::PathBuf;
use vstd::prelude::*;

verus! {

#[verifier::external_type_specification]
#[verifier::external_body]
pub struct ExPathBuf(std::path::PathBuf);

/// A store of files, read and written whole as text.
pub trait FileRepository: Send + Sync {
    fn read(&self, path: &PathBuf) -> Result<String>;

    fn write(&self, path: &PathBuf, content: &str) -> Result<()>;

    fn file_exists(&self, path: &PathBuf) -> bool;
}

} // verus!
