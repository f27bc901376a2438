//! The queue between the directory walk and the workers.

use crate::error::SearchError;
use crate::job::Job;
use crate::protocol::markers;
use crossbeam::channel::{unbounded, Receiver, RecvError, SendError, Sender};
use vstd::prelude::*;

verus! {

/// What a send on a channel came to: the channel took the message, or it is
/// disconnected.
pub fn delivery<T>(sent: Result<(), SendError<T>>) -> (outcome: Result<(), SearchError>)
    ensures
        sent is Ok ==> outcome is Ok,
        sent is Err ==> outcome == Err::<(), SearchError>(SearchError::ChannelFailure),
{
    match sent {
        Ok(()) => Ok(()),
        Err(_) => Err(SearchError::ChannelFailure),
    }
}

/// What a blocking receive on the job channel came to: the message, or a
/// channel that is empty and disconnected.
pub fn arrival(received: Result<Option<Job>, RecvError>) -> (outcome: Result<
    Option<Job>,
    SearchError,
>)
    ensures
        received matches Ok(msg) ==> outcome == Ok::<Option<Job>, SearchError>(msg),
        received is Err ==> outcome == Err::<Option<Job>, SearchError>(SearchError::ChannelFailure),
{
    match received {
        Ok(msg) => Ok(msg),
        Err(_) => Err(SearchError::ChannelFailure),
    }
}

/// The message that carries a job to a worker.
pub fn job_message(job: Job) -> (msg: Option<Job>)
    ensures
        msg == Some(job),
{
    Some(job)
}

/// The messages that announce the end of the jobs to a pool of
/// `num_workers` workers: one marker for each worker, and nothing else.
pub fn end_markers(num_workers: usize) -> (msgs: Vec<Option<Job>>)
    ensures
        msgs@ == markers(num_workers as nat),
{
    let mut msgs: Vec<Option<Job>> = Vec::new();
    let mut made: usize = 0;
    assert(msgs@ =~= markers(0));
    while made < num_workers
        invariant
            made <= num_workers,
            msgs@ == markers(made as nat),
        decreases num_workers - made,
    {
        msgs.push(None);
        made += 1;
        assert(msgs@ =~= markers(made as nat));
    }
    msgs
}

/// The shared queue of pending jobs. A message is a job, or the marker that
/// tells one worker that no more jobs will come.
pub struct Worklist {
    sender: Sender<Option<Job>>,
    receiver: Receiver<Option<Job>>,
}

impl Worklist {
    /// An empty worklist.
    pub fn new() -> (worklist: Self) {
        let (sender, receiver) = unbounded();
        Self { sender, receiver }
    }

    /// Enqueues a job: hands [`job_message`] of the job to the channel.
    /// Never waits for room: the queue is unbounded.
    pub fn add(&self, job: Job) -> (outcome: Result<(), SearchError>)
        ensures
            outcome matches Err(e) ==> e == SearchError::ChannelFailure,
    {
        delivery(self.sender.send(job_message(job)))
    }

    /// Waits for the next message: `Some` job to scan, or `None` once the
    /// worker that asks has been told that no more jobs will come. The call
    /// does not return while the worklist is empty: it is for workers of a
    /// pool whose size is announced with [`Worklist::finalize`].
    pub fn next(&self) -> (outcome: Result<Option<Job>, SearchError>)
        ensures
            outcome matches Err(e) ==> e == SearchError::ChannelFailure,
    {
        arrival(self.receiver.recv())
    }

    /// Marks the end of the jobs: hands the messages of [`end_markers`] to
    /// the channel, one marker for each worker, behind every job added so
    /// far. A pool of no workers is refused, and nothing is published for
    /// it. Stops at the first marker that cannot be sent.
    pub fn finalize(&self, num_workers: usize) -> (outcome: Result<(), SearchError>)
        ensures
            num_workers == 0 <==> outcome == Err::<(), SearchError>(SearchError::NoWorkers),
            num_workers > 0 ==> (outcome matches Err(e) ==> e == SearchError::ChannelFailure),
    {
        if num_workers == 0 {
            return Err(SearchError::NoWorkers);
        }
        let mut msgs = end_markers(num_workers);
        while msgs.len() > 0
            invariant
                num_workers > 0,
                msgs@ == markers(msgs@.len()),
            decreases msgs.len(),
        {
            let ghost before = msgs@;
            let last = msgs.pop();
            assert(msgs@ =~= markers(msgs@.len())) by {
                assert(msgs@ == before.drop_last());
            }
            if let Some(marker) = last {
                assert(marker is None) by {
                    assert(marker == before[before.len() - 1]);
                }
                match delivery(self.sender.send(marker)) {
                    Ok(()) => {},
                    Err(error) => {
                        return Err(error);
                    },
                }
            }
        }
        Ok(())
    }
}

} // verus!
