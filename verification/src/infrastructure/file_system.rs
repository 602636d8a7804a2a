use vstd::prelude::*;

verus! {

/// The file system of the machine, as a file repository (its reads and
/// writes are made where I/O is allowed, around the library).
pub struct NativeFileSystem;

impl NativeFileSystem {
    pub fn new() -> (r: Self) {
        Self
    }
}

impl Default for NativeFileSystem {
    fn default() -> (r: Self) {
        Self::new()
    }
}

} // verus!
