//! What a search is asked to do, and how large its worker pool is.

use crate::error::SearchError;
use std::path::PathBuf;
use vstd::prelude::*;

verus! {

/// The arguments of a search.
pub struct Cli {
    /// The search term.
    pub search_term: String,
    /// The directory to search in.
    pub search_dir: PathBuf,
}

/// `num_cpus::get`: the number of processors that this process may use. It
/// depends on the machine, so nothing is claimed of it.
pub assume_specification[ num_cpus::get ]() -> (cpus: usize);

/// The size of the pool on a machine with `cpus` processors: one worker
/// for each processor, and never fewer than one.
pub open spec fn pool_size(cpus: usize) -> usize {
    if cpus == 0 {
        1
    } else {
        cpus
    }
}

/// The size of the pool on a machine with `cpus` processors.
pub fn worker_count_for(cpus: usize) -> (count: usize)
    ensures
        count == pool_size(cpus),
{
    if cpus == 0 {
        1
    } else {
        cpus
    }
}

/// The size of the pool when none was asked for: one worker for each
/// processor of this machine, and never fewer than one.
pub fn default_worker_count() -> (count: usize)
    ensures
        count >= 1,
{
    worker_count_for(num_cpus::get())
}

/// Accepts a pool size that was asked for. A pool of no workers would leave
/// every job unscanned, so it is refused.
pub fn checked_worker_count(requested: usize) -> (outcome: Result<usize, SearchError>)
    ensures
        requested == 0 ==> outcome == Err::<usize, SearchError>(SearchError::NoWorkers),
        requested > 0 ==> outcome == Ok::<usize, SearchError>(requested),
{
    if requested == 0 {
        Err(SearchError::NoWorkers)
    } else {
        Ok(requested)
    }
}

/// The size of the pool for a run: the size that was asked for, or the
/// default if none was.
pub fn worker_count(requested: Option<usize>) -> (outcome: Result<usize, SearchError>)
    ensures
        requested == Some(0usize) ==> outcome == Err::<usize, SearchError>(SearchError::NoWorkers),
        requested matches Some(count) ==> count > 0 ==> outcome == Ok::<usize, SearchError>(count),
        requested is None ==> outcome is Ok && outcome->Ok_0 >= 1,
{
    match requested {
        Some(count) => checked_worker_count(count),
        None => Ok(default_worker_count()),
    }
}

} // verus!
