use crate::error::Result;
use crate::ports::FileRepository;
use std::path::PathBuf;
use vstd::prelude::*;

verus! {

/// Opens and saves files through a file repository.
pub struct FileService<F: FileRepository> {
    repository: F,
}

impl<F: FileRepository> FileService<F> {
    /// The repository that the service reads and writes through.
    pub closed spec fn repo(&self) -> F {
        self.repository
    }

    pub fn new(repository: F) -> (s: Self)
        ensures
            s.repo() == repository,
    {
        Self { repository }
    }

    /// The text of the file at `path`, as the repository reads it.
    pub fn open(&self, path: &PathBuf) -> (r: Result<String>)
        ensures
            call_ensures(F::read, (&self.repo(), path), r),
    {
        self.repository.read(path)
    }

    /// Writes `content` to the file at `path` through the repository.
    pub fn save(&self, path: &PathBuf, content: &str) -> (r: Result<()>)
        ensures
            call_ensures(F::write, (&self.repo(), path, content), r),
    {
        self.repository.write(path, content)
    }

    /// Whether the repository holds a file at `path`.
    pub fn file_exists(&self, path: &PathBuf) -> (r: bool)
        ensures
            call_ensures(F::file_exists, (&self.repo(), path), r),
    {
        self.repository.file_exists(path)
    }
}

} // verus!
