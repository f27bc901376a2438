//! One unit of search work.

use std::path::PathBuf;
use vstd::prelude::*;

verus! {

/// A file that is waiting to be scanned.
pub struct Job {
    path: PathBuf,
}

impl Job {
    /// The file this job names.
    pub closed spec fn path(self) -> PathBuf {
        self.path
    }

    /// The job of scanning the file at `path`.
    pub fn new(path: PathBuf) -> (job: Self)
        ensures
            job.path() == path,
    {
        Self { path }
    }

    /// Gives up the job for the path of its file.
    pub fn into_inner(self) -> (path: PathBuf)
        ensures
            path == self.path(),
    {
        self.path
    }
}

} // verus!
