use crossbeam::channel::{unbounded, RecvError, SendError, TryRecvError};
use file_search::discovery::{Discovery, Entry};
use file_search::error::SearchError;
use file_search::job::Job;
use file_search::result::SearchResult;
use file_search::sink::{gather, keep_batch, ResultSink};
use file_search::worker::{on_handed_over, on_message, Fetched, FileContent, Worker, WorkerStep};
use file_search::worklist::{arrival, delivery, end_markers, job_message, Worklist};
use std::io::{Error, ErrorKind};
use std::path::PathBuf;
use std::sync::Arc;

fn is_under(path: &PathBuf, name: &str) -> bool {
    path.to_str() == Some(name)
}

fn listing_of(dir: &PathBuf) -> Vec<Entry> {
    if is_under(dir, "root") {
        vec![
            Entry { path: PathBuf::from("root/a.txt"), is_dir: false },
            Entry { path: PathBuf::from("root/sub"), is_dir: true },
        ]
    } else if is_under(dir, "root/sub") {
        vec![
            Entry { path: PathBuf::from("root/sub/b.txt"), is_dir: false },
            Entry { path: PathBuf::from("root/sub/gone.txt"), is_dir: false },
            Entry { path: PathBuf::from("root/sub/locked.txt"), is_dir: false },
        ]
    } else {
        Vec::new()
    }
}

fn content_of(file: &PathBuf) -> FileContent {
    if is_under(file, "root/a.txt") {
        FileContent::Lines(vec!["foo".to_string(), "bar".to_string()])
    } else if is_under(file, "root/sub/b.txt") {
        FileContent::Lines(vec!["foobar".to_string()])
    } else if is_under(file, "root/sub/locked.txt") {
        FileContent::Unreadable(Error::new(ErrorKind::PermissionDenied, "denied"))
    } else {
        FileContent::Missing
    }
}

fn triples(found: Vec<SearchResult>) -> Vec<(PathBuf, usize, String)> {
    let mut all: Vec<(PathBuf, usize, String)> =
        found.into_iter().map(|m| (m.path, m.line_number, m.line)).collect();
    all.sort();
    all
}

fn expected() -> Vec<(PathBuf, usize, String)> {
    vec![
        (PathBuf::from("root/a.txt"), 1, "foo".to_string()),
        (PathBuf::from("root/sub/b.txt"), 1, "foobar".to_string()),
    ]
}

/// Runs the whole pipeline on the fixture, one step of one worker at a time,
/// and returns the matches, the number of files scanned and of files skipped.
fn run(root: &str, workers: usize) -> (Vec<(PathBuf, usize, String)>, usize, usize, Option<SearchError>) {
    let worklist = Arc::new(Worklist::new());
    let sink = ResultSink::new();
    let mut walk = Discovery::new(PathBuf::from(root));
    let mut failure = None;
    let mut created = 0;
    while let Some(dir) = walk.next_directory() {
        if is_under(&dir, "missing") {
            failure = Some(walk.fail(&dir));
        } else {
            for job in walk.record(listing_of(&dir)) {
                created += 1;
                worklist.add(job).unwrap();
            }
        }
    }
    worklist.finalize(workers).unwrap();

    let pool: Vec<Worker> = (0..workers)
        .map(|_| Worker::new("foo".to_string(), Arc::clone(&worklist), sink.sender()))
        .collect();
    let mut running = vec![true; workers];
    let mut scanned = 0;
    let mut skipped = 0;
    while running.iter().any(|r| *r) {
        for (index, worker) in pool.iter().enumerate() {
            if !running[index] {
                continue;
            }
            match worker.fetch().unwrap() {
                Fetched::Done => running[index] = false,
                Fetched::Scan(path) => {
                    scanned += 1;
                    match worker.report(worker.find_in_file(&path, content_of(&path))) {
                        WorkerStep::Continue => {}
                        WorkerStep::Skip(_) => skipped += 1,
                        WorkerStep::Halt(error) => panic!("sink closed: {:?}", error),
                    }
                }
            }
        }
    }
    assert_eq!(scanned, created);
    (triples(sink.drain()), scanned, skipped, failure)
}

#[test]
fn worklist_hands_jobs_out_in_the_order_they_were_added() {
    let worklist = Worklist::new();
    worklist.add(Job::new(PathBuf::from("one"))).unwrap();
    worklist.add(Job::new(PathBuf::from("two"))).unwrap();
    let first = worklist.next().unwrap().unwrap();
    let second = worklist.next().unwrap().unwrap();
    assert_eq!(first.into_inner(), PathBuf::from("one"));
    assert_eq!(second.into_inner(), PathBuf::from("two"));
}

#[test]
fn finalize_publishes_one_marker_per_worker_behind_the_jobs() {
    let worklist = Worklist::new();
    worklist.add(Job::new(PathBuf::from("job"))).unwrap();
    worklist.finalize(3).unwrap();
    worklist.add(Job::new(PathBuf::from("late"))).unwrap();
    assert_eq!(worklist.next().unwrap().unwrap().into_inner(), PathBuf::from("job"));
    assert!(worklist.next().unwrap().is_none());
    assert!(worklist.next().unwrap().is_none());
    assert!(worklist.next().unwrap().is_none());
    assert_eq!(worklist.next().unwrap().unwrap().into_inner(), PathBuf::from("late"));
}

#[test]
fn finalize_for_no_worker_is_refused_and_publishes_nothing() {
    let worklist = Worklist::new();
    assert!(matches!(worklist.finalize(0), Err(SearchError::NoWorkers)));
    worklist.add(Job::new(PathBuf::from("only"))).unwrap();
    worklist.finalize(1).unwrap();
    assert_eq!(worklist.next().unwrap().unwrap().into_inner(), PathBuf::from("only"));
    assert!(worklist.next().unwrap().is_none());
}

#[test]
fn job_message_carries_the_job() {
    match job_message(Job::new(PathBuf::from("root/a.txt"))) {
        Some(job) => assert_eq!(job.into_inner(), PathBuf::from("root/a.txt")),
        None => panic!("a job became a marker"),
    }
}

#[test]
fn end_markers_are_one_marker_for_each_worker() {
    assert!(end_markers(0).is_empty());
    assert_eq!(end_markers(1).len(), 1);
    let markers = end_markers(64);
    assert_eq!(markers.len(), 64);
    assert!(markers.iter().all(|msg| msg.is_none()));
}

#[test]
fn delivery_maps_a_disconnected_channel_to_channel_failure() {
    assert!(matches!(delivery::<u8>(Ok(())), Ok(())));
    assert!(matches!(delivery(Err(SendError(5u8))), Err(SearchError::ChannelFailure)));
}

#[test]
fn arrival_passes_the_message_on() {
    let job = arrival(Ok(Some(Job::new(PathBuf::from("x"))))).unwrap().unwrap();
    assert_eq!(job.into_inner(), PathBuf::from("x"));
    assert!(matches!(arrival(Ok(None)), Ok(None)));
    assert!(matches!(arrival(Err(RecvError)), Err(SearchError::ChannelFailure)));
}

#[test]
fn message_with_a_job_calls_for_a_scan() {
    match on_message(Some(Job::new(PathBuf::from("root/a.txt")))) {
        Fetched::Scan(path) => assert_eq!(path, PathBuf::from("root/a.txt")),
        Fetched::Done => panic!("a job is no marker"),
    }
}

#[test]
fn marker_stops_the_worker() {
    assert!(matches!(on_message(None), Fetched::Done));
}

#[test]
fn handed_over_results_let_the_worker_continue() {
    assert!(matches!(on_handed_over(Ok(())), WorkerStep::Continue));
    assert!(matches!(
        on_handed_over(Err(SearchError::ChannelFailure)),
        WorkerStep::Halt(SearchError::ChannelFailure)
    ));
}

#[test]
fn vanished_file_yields_no_match_and_no_error() {
    let (sender, _receiver) = unbounded();
    let worker = Worker::new("foo".to_string(), Arc::new(Worklist::new()), sender);
    let found = worker.find_in_file(&PathBuf::from("gone"), FileContent::Missing).unwrap();
    assert!(found.is_empty());
}

#[test]
fn worker_scans_with_its_own_term() {
    let (sender, _receiver) = unbounded();
    let worker = Worker::new("bar".to_string(), Arc::new(Worklist::new()), sender);
    let lines = vec!["foo".to_string(), "bar".to_string(), "rebar".to_string()];
    let found = worker
        .find_in_file(&PathBuf::from("f"), FileContent::Lines(lines))
        .unwrap();
    assert_eq!(
        triples(found),
        vec![
            (PathBuf::from("f"), 2, "bar".to_string()),
            (PathBuf::from("f"), 3, "rebar".to_string()),
        ]
    );
}

#[test]
fn unreadable_file_yields_its_read_error() {
    let (sender, _receiver) = unbounded();
    let worker = Worker::new("foo".to_string(), Arc::new(Worklist::new()), sender);
    let cause = Error::new(ErrorKind::PermissionDenied, "denied");
    match worker.find_in_file(&PathBuf::from("f"), FileContent::Unreadable(cause)) {
        Err(SearchError::IoError(cause)) => assert_eq!(cause.kind(), ErrorKind::PermissionDenied),
        _ => panic!("the read error was not passed on"),
    }
}

#[test]
fn fetch_turns_messages_into_steps() {
    let worklist = Arc::new(Worklist::new());
    let (sender, _receiver) = unbounded();
    let worker = Worker::new("foo".to_string(), Arc::clone(&worklist), sender);
    worklist.add(Job::new(PathBuf::from("a"))).unwrap();
    worklist.finalize(1).unwrap();
    match worker.fetch().unwrap() {
        Fetched::Scan(path) => assert_eq!(path, PathBuf::from("a")),
        Fetched::Done => panic!("done before the job"),
    }
    assert!(matches!(worker.fetch().unwrap(), Fetched::Done));
}

#[test]
fn report_hands_matches_over_as_one_batch() {
    let (sender, receiver) = unbounded();
    let worker = Worker::new("foo".to_string(), Arc::new(Worklist::new()), sender);
    let batch = vec![
        SearchResult::new(PathBuf::from("f"), 1, "foo".to_string()),
        SearchResult::new(PathBuf::from("f"), 3, "foo foo".to_string()),
    ];
    assert!(matches!(worker.report(Ok(batch)), WorkerStep::Continue));
    let received = receiver.try_recv().unwrap();
    assert_eq!(
        triples(received),
        vec![
            (PathBuf::from("f"), 1, "foo".to_string()),
            (PathBuf::from("f"), 3, "foo foo".to_string()),
        ]
    );
    assert!(receiver.try_recv().is_err());
}

#[test]
fn report_skips_a_file_that_failed() {
    let (sender, receiver) = unbounded();
    let worker = Worker::new("foo".to_string(), Arc::new(Worklist::new()), sender);
    let failed = Err(SearchError::IoError(Error::new(ErrorKind::Other, "bad")));
    match worker.report(failed) {
        WorkerStep::Skip(SearchError::IoError(cause)) => assert_eq!(cause.to_string(), "bad"),
        _ => panic!("a failed file must be skipped"),
    }
    assert!(receiver.try_recv().is_err());
}

#[test]
fn report_halts_when_nobody_reads_the_results() {
    let (sender, receiver) = unbounded();
    drop(receiver);
    let worker = Worker::new("foo".to_string(), Arc::new(Worklist::new()), sender);
    assert!(matches!(
        worker.report(Ok(Vec::new())),
        WorkerStep::Halt(SearchError::ChannelFailure)
    ));
}

#[test]
fn gather_joins_batches_in_order() {
    let batches = vec![
        vec![
            SearchResult::new(PathBuf::from("a"), 1, "x".to_string()),
            SearchResult::new(PathBuf::from("a"), 2, "y".to_string()),
        ],
        Vec::new(),
        vec![SearchResult::new(PathBuf::from("b"), 5, "z".to_string())],
    ];
    let all: Vec<(PathBuf, usize, String)> =
        gather(batches).into_iter().map(|m| (m.path, m.line_number, m.line)).collect();
    assert_eq!(
        all,
        vec![
            (PathBuf::from("a"), 1, "x".to_string()),
            (PathBuf::from("a"), 2, "y".to_string()),
            (PathBuf::from("b"), 5, "z".to_string()),
        ]
    );
}

#[test]
fn gather_of_nothing_is_empty() {
    assert!(gather(Vec::new()).is_empty());
    assert!(gather(vec![Vec::new(), Vec::new()]).is_empty());
}

#[test]
fn sink_drains_what_was_pushed() {
    let sink = ResultSink::new();
    assert!(sink.drain().is_empty());
    sink.push(vec![SearchResult::new(PathBuf::from("a"), 1, "x".to_string())]).unwrap();
    sink.sender()
        .send(vec![SearchResult::new(PathBuf::from("b"), 2, "y".to_string())])
        .unwrap();
    assert_eq!(sink.take_batches().len(), 2);
    assert!(sink.drain().is_empty());
    sink.push(vec![SearchResult::new(PathBuf::from("c"), 3, "z".to_string())]).unwrap();
    assert_eq!(triples(sink.drain()), vec![(PathBuf::from("c"), 3, "z".to_string())]);
}

#[test]
fn fixture_tree_yields_the_expected_matches() {
    let (found, scanned, skipped, failure) = run("root", 2);
    assert_eq!(found, expected());
    assert_eq!(scanned, 4);
    assert_eq!(skipped, 1);
    assert!(failure.is_none());
}

#[test]
fn every_pool_size_yields_the_same_matches() {
    for workers in [1, 2, 8, 64] {
        let (found, scanned, _, failure) = run("root", workers);
        assert_eq!(found, expected());
        assert_eq!(scanned, 4);
        assert!(failure.is_none());
    }
}

#[test]
fn empty_tree_yields_no_match_and_every_worker_stops() {
    let (found, scanned, skipped, failure) = run("empty", 8);
    assert!(found.is_empty());
    assert_eq!(scanned, 0);
    assert_eq!(skipped, 0);
    assert!(failure.is_none());
}

#[test]
fn missing_root_is_reported_and_every_worker_stops() {
    let (found, scanned, _, failure) = run("missing", 8);
    assert!(found.is_empty());
    assert_eq!(scanned, 0);
    match failure {
        Some(SearchError::InvalidDir(name)) => assert_eq!(name, "missing"),
        other => panic!("unexpected outcome: {:?}", other),
    }
}

#[test]
fn keep_batch_appends_a_batch_that_was_there() {
    let mut taken = vec![vec![SearchResult::new(PathBuf::from("a"), 1, "x".to_string())]];
    let batch = vec![
        SearchResult::new(PathBuf::from("b"), 2, "y".to_string()),
        SearchResult::new(PathBuf::from("b"), 4, "z".to_string()),
    ];
    assert!(keep_batch(&mut taken, Ok(batch)));
    assert_eq!(taken.len(), 2);
    assert_eq!(taken[0].len(), 1);
    assert_eq!(taken[1].len(), 2);
    assert_eq!(taken[1][1].line_number, 4);
    assert!(keep_batch(&mut taken, Ok(Vec::new())));
    assert_eq!(taken.len(), 3);
    assert!(taken[2].is_empty());
}

#[test]
fn keep_batch_ends_the_taking_when_nothing_was_there() {
    let mut taken = vec![vec![SearchResult::new(PathBuf::from("a"), 1, "x".to_string())]];
    assert!(!keep_batch(&mut taken, Err(TryRecvError::Empty)));
    assert!(!keep_batch(&mut taken, Err(TryRecvError::Disconnected)));
    assert_eq!(taken.len(), 1);
    assert_eq!(taken[0][0].line, "x");
}

#[test]
fn handle_of_a_sink_feeds_that_sink_only() {
    let first = ResultSink::new();
    let second = ResultSink::new();
    let worker = Worker::new("foo".to_string(), Arc::new(Worklist::new()), first.sender());
    let batch = vec![SearchResult::new(PathBuf::from("f"), 1, "foo".to_string())];
    assert!(matches!(worker.report(Ok(batch)), WorkerStep::Continue));
    assert!(second.drain().is_empty());
    assert_eq!(triples(first.drain()), vec![(PathBuf::from("f"), 1, "foo".to_string())]);
}
