//! The hand-over protocol between the directory walk and the workers, as a
//! state machine, and what holds of every run of it.
//!
//! The worklist is a first-in first-out queue of messages. The walk adds one
//! message for each job and, when it is complete, one marker for each worker.
//! A worker takes the oldest message: a job is scanned, a marker stops the
//! worker. Steps of the walk and of the workers may come in any order.
//!
//! The events stand for calls of the library: [`Event::Add`] for
//! `Worklist::add`, which hands over the message that `job_message` makes,
//! [`Event::Finalize`] for `Worklist::finalize` with the size of the pool,
//! which hands over the messages that `end_markers` makes, and
//! [`Event::Deliver`] for a `Worklist::next` that returns, followed by the
//! worker's decision on the message. That the channel behind
//! the worklist is such a queue, and hands each message to one receiver only,
//! is taken from the channel; it is not proved here.

use crate::discovery::{job_paths, walk, DirTree};
use crate::job::Job;
use crate::result::{match_views, MatchView, SearchResult};
use crate::sink::{
    batch_views, batches_joined, lemma_report_is_sequential_scan, matches_by_file,
    sequential_scan, FileText,
};
use crate::worker::{fetched_for, Fetched};
use std::path::PathBuf;
use vstd::prelude::*;

verus! {

/// The state of the hand-over.
pub ghost struct Pipeline {
    /// The size of the worker pool.
    pub workers: nat,
    /// The workers that have not been stopped yet.
    pub running: nat,
    /// Whether the end of the jobs has been announced.
    pub closed: bool,
    /// The messages in the worklist, the oldest first.
    pub queue: Seq<Option<Job>>,
    /// Every job that was ever added, in order.
    pub added: Seq<Job>,
    /// Every job that was handed to a worker, in order.
    pub taken: Seq<Job>,
}

/// One step of a run.
pub ghost enum Event {
    /// The walk adds a job.
    Add(Job),
    /// The walk announces the end of the jobs.
    Finalize,
    /// A running worker receives the oldest message.
    Deliver,
}

/// The jobs among the messages, in order.
pub open spec fn jobs_in(queue: Seq<Option<Job>>) -> Seq<Job>
    decreases queue.len(),
{
    if queue.len() == 0 {
        Seq::empty()
    } else {
        match queue.last() {
            Some(job) => jobs_in(queue.drop_last()).push(job),
            None => jobs_in(queue.drop_last()),
        }
    }
}

/// The number of markers among the messages.
pub open spec fn markers_in(queue: Seq<Option<Job>>) -> nat
    decreases queue.len(),
{
    if queue.len() == 0 {
        0
    } else if queue.last() is None {
        markers_in(queue.drop_last()) + 1
    } else {
        markers_in(queue.drop_last())
    }
}

/// `count` markers.
pub open spec fn markers(count: nat) -> Seq<Option<Job>> {
    Seq::new(count, |i: int| None::<Job>)
}

/// No job stands behind a marker.
pub open spec fn jobs_first(queue: Seq<Option<Job>>) -> bool {
    forall|i: int, j: int| 0 <= i < j < queue.len() && queue[i] is None ==> queue[j] is None
}

impl Pipeline {
    /// The state before anything has happened, with a pool of `workers`.
    pub open spec fn start(workers: nat) -> Pipeline {
        Pipeline {
            workers,
            running: workers,
            closed: false,
            queue: Seq::empty(),
            added: Seq::empty(),
            taken: Seq::empty(),
        }
    }

    /// Whether `event` can happen in this state. The walk adds jobs only
    /// before it announces their end, and announces it once, to a pool of
    /// at least one worker: for a pool of none `Worklist::finalize` fails
    /// and publishes nothing. A message is received only by a worker that
    /// is still running.
    pub open spec fn allows(self, event: Event) -> bool {
        match event {
            Event::Add(_) => !self.closed,
            Event::Finalize => !self.closed && self.workers >= 1,
            Event::Deliver => self.queue.len() > 0 && self.running > 0,
        }
    }

    /// The state after `event`.
    pub open spec fn step(self, event: Event) -> Pipeline {
        match event {
            Event::Add(job) => Pipeline {
                queue: self.queue.push(Some(job)),
                added: self.added.push(job),
                ..self
            },
            Event::Finalize => Pipeline {
                queue: self.queue + markers(self.workers),
                closed: true,
                ..self
            },
            Event::Deliver => match fetched_for(self.queue[0]) {
                Fetched::Scan(_) => Pipeline {
                    queue: self.queue.drop_first(),
                    taken: self.taken.push(self.queue[0]->Some_0),
                    ..self
                },
                Fetched::Done => Pipeline {
                    queue: self.queue.drop_first(),
                    running: (self.running - 1) as nat,
                    ..self
                },
            },
        }
    }

    /// Whether `events` can happen one after the other, from this state on.
    pub open spec fn allows_all(self, events: Seq<Event>) -> bool
        decreases events.len(),
    {
        if events.len() == 0 {
            true
        } else {
            self.allows_all(events.drop_last()) && self.after(events.drop_last()).allows(
                events.last(),
            )
        }
    }

    /// The state after `events`.
    pub open spec fn after(self, events: Seq<Event>) -> Pipeline
        decreases events.len(),
    {
        if events.len() == 0 {
            self
        } else {
            self.after(events.drop_last()).step(events.last())
        }
    }

    /// What holds in every state of every run.
    pub open spec fn sound(self) -> bool {
        &&& self.running <= self.workers
        &&& self.added == self.taken + jobs_in(self.queue)
        &&& jobs_first(self.queue)
        &&& !self.closed ==> markers_in(self.queue) == 0 && self.running == self.workers
        &&& self.closed ==> markers_in(self.queue) == self.running && self.workers >= 1
        &&& jobs_in(self.queue).len() > 0 ==> self.running == self.workers
    }
}

/// `count` deliveries in a row.
pub open spec fn deliveries(count: nat) -> Seq<Event> {
    Seq::new(count, |i: int| Event::Deliver)
}

proof fn lemma_counts(queue: Seq<Option<Job>>)
    ensures
        jobs_in(queue).len() + markers_in(queue) == queue.len(),
        markers_in(queue) == 0 ==> forall|i: int| 0 <= i < queue.len() ==> queue[i] is Some,
        (forall|i: int| 0 <= i < queue.len() ==> queue[i] is None) ==> jobs_in(queue).len() == 0,
    decreases queue.len(),
{
    if queue.len() > 0 {
        lemma_counts(queue.drop_last());
        assert forall|i: int| 0 <= i < queue.len() && markers_in(queue) == 0 implies queue[i]
            is Some by {
            if i < queue.len() - 1 {
                assert(queue.drop_last()[i] == queue[i]);
            }
        }
        if forall|i: int| 0 <= i < queue.len() ==> queue[i] is None {
            assert forall|i: int| 0 <= i < queue.drop_last().len() implies queue.drop_last()[i]
                is None by {
                assert(queue.drop_last()[i] == queue[i]);
            }
        }
    }
}

proof fn lemma_oldest(queue: Seq<Option<Job>>)
    requires
        queue.len() > 0,
    ensures
        queue[0] matches Some(job) ==> jobs_in(queue) == seq![job] + jobs_in(queue.drop_first())
            && markers_in(queue) == markers_in(queue.drop_first()),
        queue[0] is None ==> jobs_in(queue) == jobs_in(queue.drop_first()) && markers_in(queue)
            == markers_in(queue.drop_first()) + 1,
    decreases queue.len(),
{
    let rest = queue.drop_first();
    if queue.len() == 1 {
        assert(queue.drop_last() =~= Seq::<Option<Job>>::empty());
        assert(rest =~= Seq::<Option<Job>>::empty());
        assert(jobs_in(queue.drop_last()) =~= Seq::<Job>::empty());
        match queue[0] {
            Some(job) => {
                assert(jobs_in(queue) =~= seq![job] + jobs_in(rest));
            },
            None => {},
        }
    } else {
        let shorter = queue.drop_last();
        lemma_oldest(shorter);
        assert(shorter.drop_first() =~= rest.drop_last());
        assert(shorter[0] == queue[0]);
        assert(rest.last() == queue.last());
        match queue[0] {
            Some(job) => {
                assert(jobs_in(queue) =~= seq![job] + jobs_in(rest));
            },
            None => {},
        }
    }
}

proof fn lemma_markers_appended(queue: Seq<Option<Job>>, count: nat)
    ensures
        jobs_in(queue + markers(count)) == jobs_in(queue),
        markers_in(queue + markers(count)) == markers_in(queue) + count,
    decreases count,
{
    let all = queue + markers(count);
    if count == 0 {
        assert(all =~= queue);
    } else {
        lemma_markers_appended(queue, (count - 1) as nat);
        assert(all.drop_last() =~= queue + markers((count - 1) as nat));
        assert(all.last() is None);
    }
}

/// Each step keeps what holds in every state.
proof fn lemma_step_sound(state: Pipeline, event: Event)
    requires
        state.sound(),
        state.allows(event),
    ensures
        state.step(event).sound(),
        state.step(event).workers == state.workers,
{
    let next = state.step(event);
    match event {
        Event::Add(job) => {
            lemma_counts(state.queue);
            assert(next.queue.drop_last() =~= state.queue);
            assert(next.added =~= next.taken + jobs_in(next.queue));
            assert forall|i: int, j: int|
                0 <= i < j < next.queue.len() && next.queue[i] is None implies next.queue[j]
                is None by {
                assert(state.queue[i] is Some);
            }
        },
        Event::Finalize => {
            lemma_counts(state.queue);
            lemma_markers_appended(state.queue, state.workers);
            assert forall|i: int, j: int|
                0 <= i < j < next.queue.len() && next.queue[i] is None implies next.queue[j]
                is None by {
                if i < state.queue.len() {
                    assert(state.queue[i] is Some);
                }
            }
        },
        Event::Deliver => {
            lemma_oldest(state.queue);
            lemma_counts(state.queue);
            lemma_counts(next.queue);
            assert forall|i: int, j: int|
                0 <= i < j < next.queue.len() && next.queue[i] is None implies next.queue[j]
                is None by {
                assert(next.queue[i] == state.queue[i + 1]);
                assert(next.queue[j] == state.queue[j + 1]);
            }
            match state.queue[0] {
                Some(job) => {
                    assert(next.added =~= next.taken + jobs_in(next.queue));
                },
                None => {
                    assert forall|i: int| 0 <= i < state.queue.len() implies state.queue[i]
                        is None by {
                        if i > 0 {
                            assert(state.queue[0] is None);
                        }
                    }
                },
            }
        },
    }
}

/// Every state of every run is sound, and the size of the pool never
/// changes.
pub proof fn lemma_run_sound(state: Pipeline, events: Seq<Event>)
    requires
        state.sound(),
        state.allows_all(events),
    ensures
        state.after(events).sound(),
        state.after(events).workers == state.workers,
    decreases events.len(),
{
    if events.len() > 0 {
        lemma_run_sound(state, events.drop_last());
        lemma_step_sound(state.after(events.drop_last()), events.last());
    }
}

/// No job is lost and none is handed out twice: in every state of every
/// run, the jobs added so far are, in order, the jobs taken by workers
/// followed by the jobs still waiting in the worklist.
pub proof fn lemma_no_job_lost_or_repeated(workers: nat, events: Seq<Event>)
    requires
        Pipeline::start(workers).allows_all(events),
    ensures
        ({
            let state = Pipeline::start(workers).after(events);
            state.added == state.taken + jobs_in(state.queue)
        }),
{
    assert(jobs_in(Seq::<Option<Job>>::empty()) =~= Seq::<Job>::empty());
    assert(Pipeline::start(workers).added =~= Pipeline::start(workers).taken + jobs_in(
        Pipeline::start(workers).queue,
    ));
    lemma_run_sound(Pipeline::start(workers), events);
}

/// No worker is stopped early: whenever the oldest message is a marker, the
/// end of the jobs has been announced and every job ever added has been
/// taken by a worker.
pub proof fn lemma_marker_only_after_last_job(workers: nat, events: Seq<Event>)
    requires
        Pipeline::start(workers).allows_all(events),
        Pipeline::start(workers).after(events).queue.len() > 0,
        Pipeline::start(workers).after(events).queue[0] is None,
    ensures
        ({
            let state = Pipeline::start(workers).after(events);
            state.closed && state.taken == state.added
        }),
{
    let state = Pipeline::start(workers).after(events);
    lemma_no_job_lost_or_repeated(workers, events);
    lemma_run_sound(Pipeline::start(workers), events);
    lemma_counts(state.queue);
    assert forall|i: int| 0 <= i < state.queue.len() implies state.queue[i] is None by {
        if i > 0 {
            assert(state.queue[0] is None);
        }
    }
    assert(state.added =~= state.taken);
}

/// No worker waits for ever: once the end of the jobs has been announced,
/// a worker that is still running always has a message to receive.
pub proof fn lemma_running_worker_is_served(workers: nat, events: Seq<Event>)
    requires
        Pipeline::start(workers).allows_all(events),
        Pipeline::start(workers).after(events).closed,
        Pipeline::start(workers).after(events).running > 0,
    ensures
        Pipeline::start(workers).after(events).allows(Event::Deliver),
{
    let state = Pipeline::start(workers).after(events);
    lemma_no_job_lost_or_repeated(workers, events);
    lemma_run_sound(Pipeline::start(workers), events);
    lemma_counts(state.queue);
}

/// From a sound state in which the end of the jobs has been announced, as
/// many deliveries as there are messages can happen, and they leave the
/// worklist empty.
proof fn lemma_drain(state: Pipeline, count: nat)
    requires
        state.sound(),
        state.closed,
        count <= state.queue.len(),
    ensures
        state.allows_all(deliveries(count)),
        state.after(deliveries(count)).sound(),
        state.after(deliveries(count)).closed,
        state.after(deliveries(count)).workers == state.workers,
        state.after(deliveries(count)).added == state.added,
        state.after(deliveries(count)).queue.len() == state.queue.len() - count,
    decreases count,
{
    if count > 0 {
        let before = deliveries((count - 1) as nat);
        lemma_drain(state, (count - 1) as nat);
        assert(deliveries(count).drop_last() =~= before);
        assert(deliveries(count).last() == Event::Deliver);
        let reached = state.after(before);
        lemma_counts(reached.queue);
        lemma_step_sound(reached, Event::Deliver);
    }
}

/// Every run comes to an end: once the end of the jobs has been announced,
/// the messages that are left are the jobs still waiting and one marker for
/// each worker still running. They can all be delivered, and when they have
/// been, every worker has been stopped and every job ever added has been
/// taken by a worker.
pub proof fn lemma_all_workers_stop(workers: nat, events: Seq<Event>)
    requires
        Pipeline::start(workers).allows_all(events),
        Pipeline::start(workers).after(events).closed,
    ensures
        ({
            let state = Pipeline::start(workers).after(events);
            let rest = deliveries(state.queue.len());
            &&& state.queue.len() == jobs_in(state.queue).len() + state.running
            &&& state.allows_all(rest)
            &&& state.after(rest).running == 0
            &&& state.after(rest).queue.len() == 0
            &&& state.after(rest).taken == state.added
        }),
{
    let state = Pipeline::start(workers).after(events);
    lemma_no_job_lost_or_repeated(workers, events);
    lemma_run_sound(Pipeline::start(workers), events);
    lemma_counts(state.queue);
    lemma_drain(state, state.queue.len());
    let end = state.after(deliveries(state.queue.len()));
    lemma_counts(end.queue);
    assert(end.queue =~= Seq::<Option<Job>>::empty());
    assert(end.added =~= end.taken);
}

/// Every file is scanned once: if the jobs that were added are the files
/// that a walk of a finite tree finds, the end of the jobs has been
/// announced, and every message has been delivered, then the jobs that workers took are the files of the tree,
/// each file of each listing once.
pub proof fn lemma_every_file_is_taken_once(
    tree: DirTree,
    root: PathBuf,
    workers: nat,
    events: Seq<Event>,
)
    requires
        tree.wf(),
        tree.listing.dom().contains(root),
        Pipeline::start(workers).allows_all(events),
        Pipeline::start(workers).after(events).closed,
        Pipeline::start(workers).after(events).queue.len() == 0,
        job_paths(Pipeline::start(workers).after(events).added) == walk(
            tree.listing,
            seq![root],
            tree.dirs_under(root),
        ).found,
    ensures
        job_paths(Pipeline::start(workers).after(events).taken) == tree.files_under(root),
        Pipeline::start(workers).after(events).running == 0,
{
    let state = Pipeline::start(workers).after(events);
    tree.lemma_walk_finds_every_file(root);
    lemma_all_workers_stop(workers, events);
    assert(deliveries(0) =~= Seq::<Event>::empty());
    assert(state.after(deliveries(0)) == state);
}

/// The files at `paths`, each with the lines that `contents` gives it.
pub open spec fn files_at(
    paths: Seq<PathBuf>,
    contents: spec_fn(PathBuf) -> Seq<Seq<char>>,
) -> Seq<FileText> {
    paths.map_values(|path: PathBuf| FileText { path, lines: contents(path) })
}

/// The batches that the workers owe for the jobs they took: for each job
/// the matches of its file, as `Worker::find_in_file` returns them for the
/// lines of that file.
pub open spec fn batches_owed(
    taken: Seq<Job>,
    contents: spec_fn(PathBuf) -> Seq<Seq<char>>,
    term: Seq<char>,
) -> Seq<Seq<MatchView>> {
    matches_by_file(files_at(job_paths(taken), contents), term)
}

/// A search reports what a sequential scan finds: if the jobs that were
/// added are the files that a walk of a finite tree finds, the end of the
/// jobs has been announced, every message has been delivered, and the
/// batches in the sink are those that the workers owe for the jobs they
/// took, one for each job and in any order, then the report holds every
/// match of a scan of the tree's files one after the other, as often as
/// that scan finds it, and nothing else.
pub proof fn lemma_search_is_sequential_scan(
    tree: DirTree,
    root: PathBuf,
    contents: spec_fn(PathBuf) -> Seq<Seq<char>>,
    term: Seq<char>,
    workers: nat,
    events: Seq<Event>,
    batches: Seq<Vec<SearchResult>>,
)
    requires
        tree.wf(),
        tree.listing.dom().contains(root),
        Pipeline::start(workers).allows_all(events),
        Pipeline::start(workers).after(events).closed,
        Pipeline::start(workers).after(events).queue.len() == 0,
        job_paths(Pipeline::start(workers).after(events).added) == walk(
            tree.listing,
            seq![root],
            tree.dirs_under(root),
        ).found,
        batch_views(batches).to_multiset() == batches_owed(
            Pipeline::start(workers).after(events).taken,
            contents,
            term,
        ).to_multiset(),
    ensures
        match_views(batches_joined(batches)).to_multiset() == sequential_scan(
            files_at(tree.files_under(root), contents),
            term,
        ).to_multiset(),
{
    lemma_every_file_is_taken_once(tree, root, workers, events);
    lemma_report_is_sequential_scan(files_at(tree.files_under(root), contents), term, batches);
}

/// The size of the pool does not matter: two searches of the same tree for
/// the same term, each run to its end with a pool of its own size, report
/// the same matches, each as often as the other.
pub proof fn lemma_pool_size_does_not_matter(
    tree: DirTree,
    root: PathBuf,
    contents: spec_fn(PathBuf) -> Seq<Seq<char>>,
    term: Seq<char>,
    workers: nat,
    events: Seq<Event>,
    batches: Seq<Vec<SearchResult>>,
    other_workers: nat,
    other_events: Seq<Event>,
    other_batches: Seq<Vec<SearchResult>>,
)
    requires
        tree.wf(),
        tree.listing.dom().contains(root),
        Pipeline::start(workers).allows_all(events),
        Pipeline::start(workers).after(events).closed,
        Pipeline::start(workers).after(events).queue.len() == 0,
        job_paths(Pipeline::start(workers).after(events).added) == walk(
            tree.listing,
            seq![root],
            tree.dirs_under(root),
        ).found,
        batch_views(batches).to_multiset() == batches_owed(
            Pipeline::start(workers).after(events).taken,
            contents,
            term,
        ).to_multiset(),
        Pipeline::start(other_workers).allows_all(other_events),
        Pipeline::start(other_workers).after(other_events).closed,
        Pipeline::start(other_workers).after(other_events).queue.len() == 0,
        job_paths(Pipeline::start(other_workers).after(other_events).added) == walk(
            tree.listing,
            seq![root],
            tree.dirs_under(root),
        ).found,
        batch_views(other_batches).to_multiset() == batches_owed(
            Pipeline::start(other_workers).after(other_events).taken,
            contents,
            term,
        ).to_multiset(),
    ensures
        match_views(batches_joined(batches)).to_multiset() == match_views(
            batches_joined(other_batches),
        ).to_multiset(),
{
    lemma_search_is_sequential_scan(tree, root, contents, term, workers, events, batches);
    lemma_search_is_sequential_scan(
        tree,
        root,
        contents,
        term,
        other_workers,
        other_events,
        other_batches,
    );
}

} // verus!
