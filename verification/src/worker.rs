//! The decisions of one worker.
//!
//! A worker repeats three steps: it fetches a message from the worklist,
//! has the named file read, and reports what the scan found. Reading the
//! file is the caller's part; what follows from each outcome is decided here.

use crate::error::SearchError;
use crate::job::Job;
use crate::result::{match_views, SearchResult};
use crate::scan::{line_views, matches_in, scan_lines};
use crate::worklist::{delivery, Worklist};
use crossbeam::channel::Sender;
use std::path::PathBuf;
use std::sync::Arc;
use vstd::prelude::*;

verus! {

/// What reading a file came to.
pub enum FileContent {
    /// The file is no longer there.
    Missing,
    /// The lines of the file, in order, without their line ends.
    Lines(Vec<String>),
    /// The file is there and could not be read.
    Unreadable(std::io::Error),
}

/// What a worker does after a message from the worklist.
pub enum Fetched {
    /// Scan this file.
    Scan(PathBuf),
    /// No more jobs will come: stop.
    Done,
}

/// What a worker does after a file has been dealt with.
pub enum WorkerStep {
    /// The matches were handed over: fetch the next message.
    Continue,
    /// The file could not be scanned: note the error against this file and
    /// fetch the next message.
    Skip(SearchError),
    /// The results can no longer be handed over: stop.
    Halt(SearchError),
}

/// The step that a message from the worklist calls for.
pub open spec fn fetched_for(msg: Option<Job>) -> Fetched {
    match msg {
        Some(job) => Fetched::Scan(job.path()),
        None => Fetched::Done,
    }
}

/// The step that follows an attempt to hand a file's matches over.
pub open spec fn step_after(handed_over: Result<(), SearchError>) -> WorkerStep {
    match handed_over {
        Ok(_) => WorkerStep::Continue,
        Err(error) => WorkerStep::Halt(error),
    }
}

/// The step that a message from the worklist calls for.
pub fn on_message(msg: Option<Job>) -> (step: Fetched)
    ensures
        step == fetched_for(msg),
{
    match msg {
        Some(job) => Fetched::Scan(job.into_inner()),
        None => Fetched::Done,
    }
}

/// The step that follows an attempt to hand a file's matches over.
pub fn on_handed_over(handed_over: Result<(), SearchError>) -> (step: WorkerStep)
    ensures
        step == step_after(handed_over),
{
    match handed_over {
        Ok(()) => WorkerStep::Continue,
        Err(error) => WorkerStep::Halt(error),
    }
}

/// One worker of the pool: it knows the term to look for, where its jobs
/// come from and where its matches go.
pub struct Worker {
    search_term: String,
    worklist: Arc<Worklist>,
    result_sender: Sender<Vec<SearchResult>>,
}

impl Worker {
    /// The term this worker looks for.
    pub closed spec fn term(self) -> Seq<char> {
        self.search_term@
    }

    /// The worklist this worker takes its jobs from.
    pub closed spec fn source(self) -> Arc<Worklist> {
        self.worklist
    }

    /// The channel end through which this worker sends its matches.
    pub closed spec fn outlet(self) -> Sender<Vec<SearchResult>> {
        self.result_sender
    }

    /// A worker that looks for `search_term` in the files that `worklist`
    /// hands out and sends its matches through `result_sender`.
    pub fn new(
        search_term: String,
        worklist: Arc<Worklist>,
        result_sender: Sender<Vec<SearchResult>>,
    ) -> (worker: Self)
        ensures
            worker.term() == search_term@,
            worker.source() == worklist,
            worker.outlet() == result_sender,
    {
        Self { search_term, worklist, result_sender }
    }

    /// What a file yields, given what reading it came to: no match for a
    /// file that has vanished, the matching lines of one that was read, and
    /// the read error of one that could not be read.
    pub fn find_in_file(&self, path: &PathBuf, content: FileContent) -> (outcome: Result<
        Vec<SearchResult>,
        SearchError,
    >)
        ensures
            content is Missing ==> outcome is Ok && outcome->Ok_0@.len() == 0,
            content matches FileContent::Lines(lines) ==> outcome is Ok && match_views(
                outcome->Ok_0@,
            ) == matches_in(*path, line_views(lines@), self.term()),
            content matches FileContent::Unreadable(cause) ==> outcome == Err::<
                Vec<SearchResult>,
                SearchError,
            >(SearchError::IoError(cause)),
    {
        match content {
            FileContent::Missing => Ok(Vec::new()),
            FileContent::Lines(lines) => Ok(scan_lines(path, &lines, &self.search_term)),
            FileContent::Unreadable(cause) => Err(SearchError::IoError(cause)),
        }
    }

    /// Waits for the next message from the worklist and says what it calls
    /// for.
    pub fn fetch(&self) -> (outcome: Result<Fetched, SearchError>)
        ensures
            outcome matches Err(e) ==> e == SearchError::ChannelFailure,
    {
        match self.worklist.next() {
            Ok(msg) => Ok(on_message(msg)),
            Err(error) => Err(error),
        }
    }

    /// Deals with one job, given what reading its file came to: scans the
    /// file and reports the outcome.
    pub fn process_job(&self, path: &PathBuf, content: FileContent) -> (step: WorkerStep)
        ensures
            content matches FileContent::Unreadable(cause) ==> step == WorkerStep::Skip(
                SearchError::IoError(cause),
            ),
            !(content is Unreadable) ==> step == WorkerStep::Continue || step == WorkerStep::Halt(
                SearchError::ChannelFailure,
            ),
    {
        self.report(self.find_in_file(path, content))
    }

    /// Deals with the outcome of a scan: hands the matches of a file over as
    /// one batch, or passes the error on so that it is noted against the
    /// file. Only a failure to hand results over stops the worker.
    pub fn report(&self, outcome: Result<Vec<SearchResult>, SearchError>) -> (step: WorkerStep)
        ensures
            outcome matches Err(error) ==> step == WorkerStep::Skip(error),
            outcome is Ok ==> step == WorkerStep::Continue || step == WorkerStep::Halt(
                SearchError::ChannelFailure,
            ),
    {
        match outcome {
            Ok(found) => on_handed_over(delivery(self.result_sender.send(found))),
            Err(error) => WorkerStep::Skip(error),
        }
    }
}

} // verus!
