//! Where the workers' matches come together.

use crate::error::SearchError;
use crate::result::{match_views, MatchView, SearchResult};
use crate::scan::matches_in;
use crate::worklist::delivery;
use crossbeam::channel::{unbounded, Receiver, Sender, TryRecvError};
use std::path::PathBuf;
use vstd::prelude::*;
use vstd::seq_lib::{lemma_flatten_concat, lemma_multiset_commutative};

verus! {

/// The matches of a list of batches, batch after batch.
pub open spec fn batches_joined(batches: Seq<Vec<SearchResult>>) -> Seq<SearchResult> {
    batches.map_values(|batch: Vec<SearchResult>| batch@).flatten()
}

/// What each batch of a list stands for.
pub open spec fn batch_views(batches: Seq<Vec<SearchResult>>) -> Seq<Seq<MatchView>> {
    batches.map_values(|batch: Vec<SearchResult>| match_views(batch@))
}

/// A file as a scan sees it: its path and its lines.
pub ghost struct FileText {
    pub path: PathBuf,
    pub lines: Seq<Seq<char>>,
}

/// The matches of each file of a list, file by file.
pub open spec fn matches_by_file(files: Seq<FileText>, term: Seq<char>) -> Seq<Seq<MatchView>> {
    files.map_values(|file: FileText| matches_in(file.path, file.lines, term))
}

/// What one scan after the other of the files of a list finds.
pub open spec fn sequential_scan(files: Seq<FileText>, term: Seq<char>) -> Seq<MatchView> {
    matches_by_file(files, term).flatten()
}

/// Joins batches of matches into one list, batch after batch, keeping the
/// order within each batch.
pub fn gather(batches: Vec<Vec<SearchResult>>) -> (all: Vec<SearchResult>)
    ensures
        all@ == batches_joined(batches@),
{
    let mut batches = batches;
    let ghost given = batches@;
    let mut all: Vec<SearchResult> = Vec::new();
    assert(batches_joined(batches@) =~= batches_joined(batches@) + all@);
    // Batches are taken from the back, so each goes in front of what is there.
    while batches.len() > 0
        invariant
            batches_joined(given) == batches_joined(batches@) + all@,
        decreases batches.len(),
    {
        let ghost before = batches@;
        let ghost joined = all@;
        let mut batch = batches.pop().unwrap();
        let ghost last = batch@;
        batch.append(&mut all);
        all = batch;
        proof {
            let views = before.map_values(|batch: Vec<SearchResult>| batch@);
            assert(views.drop_last() =~= batches@.map_values(|batch: Vec<SearchResult>| batch@));
            assert(views.last() == last);
            views.lemma_flatten_and_flatten_alt_are_equivalent();
            views.drop_last().lemma_flatten_and_flatten_alt_are_equivalent();
            assert(views.flatten_alt() == views.drop_last().flatten_alt() + views.last());
            assert(batches_joined(before) + joined =~= batches_joined(batches@) + all@);
        }
    }
    assert(batches_joined(batches@) =~= Seq::<SearchResult>::empty());
    assert(batches_joined(given) =~= all@);
    all
}

/// What the joined batches stand for is what the batches stand for, joined.
pub proof fn lemma_views_of_joined(batches: Seq<Vec<SearchResult>>)
    ensures
        match_views(batches_joined(batches)) == batch_views(batches).flatten(),
    decreases batches.len(),
{
    let lists = batches.map_values(|batch: Vec<SearchResult>| batch@);
    if batches.len() == 0 {
        assert(match_views(batches_joined(batches)) =~= batch_views(batches).flatten());
    } else {
        let rest = batches.drop_first();
        lemma_views_of_joined(rest);
        assert(lists.drop_first() =~= rest.map_values(|batch: Vec<SearchResult>| batch@));
        assert(batch_views(batches).drop_first() =~= batch_views(rest));
        assert(batch_views(batches).first() == match_views(lists.first()));
        assert(match_views(lists.first() + lists.drop_first().flatten()) =~= match_views(
            lists.first(),
        ) + match_views(lists.drop_first().flatten()));
    }
}

/// The order in which batches arrive does not matter: two lists that hold
/// the same batches, each as often as the other, join to the same matches,
/// each as often as the other.
pub proof fn lemma_joined_ignores_batch_order<T>(first: Seq<Seq<T>>, second: Seq<Seq<T>>)
    requires
        first.to_multiset() == second.to_multiset(),
    ensures
        first.flatten().to_multiset() == second.flatten().to_multiset(),
    decreases first.len(),
{
    first.to_multiset_ensures();
    second.to_multiset_ensures();
    if first.len() == 0 {
        assert(second =~= Seq::<Seq<T>>::empty());
        assert(first =~= second);
    } else {
        let batch = first.last();
        assert(first[first.len() - 1] == batch);
        assert(first.contains(batch));
        assert(first.to_multiset().count(batch) > 0);
        assert(second.to_multiset().count(batch) > 0);
        assert(second.contains(batch));
        let at = choose|at: int| 0 <= at < second.len() && second[at] == batch;
        let shorter = first.drop_last();
        let others = second.remove(at);
        shorter.to_multiset_ensures();
        assert(first =~= shorter.push(batch));
        assert(shorter.to_multiset() =~= others.to_multiset());
        lemma_joined_ignores_batch_order(shorter, others);
        let front = second.subrange(0, at);
        let back = second.subrange(at + 1, second.len() as int);
        let one = seq![batch];
        assert(second =~= front + one + back);
        assert(first =~= shorter + one);
        assert(one.flatten() =~= batch) by {
            assert(one.drop_first() =~= Seq::<Seq<T>>::empty());
            assert(one.drop_first().flatten() =~= Seq::<T>::empty());
        }
        lemma_flatten_concat(shorter, one);
        lemma_flatten_concat(front, one);
        lemma_flatten_concat(front + one, back);
        lemma_flatten_concat(front, back);
        lemma_multiset_commutative(shorter.flatten(), batch);
        lemma_multiset_commutative(front.flatten(), batch);
        lemma_multiset_commutative(front.flatten() + batch, back.flatten());
        lemma_multiset_commutative(front.flatten(), back.flatten());
        assert(first.flatten().to_multiset() =~= second.flatten().to_multiset());
    }
}

/// The report is what a sequential scan finds: if the batches that arrive
/// are the matches of each file, once for each file and in any order, then
/// every match of a scan of the files one after the other is reported, as
/// often as that scan finds it, and nothing else is.
pub proof fn lemma_report_is_sequential_scan(
    files: Seq<FileText>,
    term: Seq<char>,
    batches: Seq<Vec<SearchResult>>,
)
    requires
        batch_views(batches).to_multiset() == matches_by_file(files, term).to_multiset(),
    ensures
        match_views(batches_joined(batches)).to_multiset() == sequential_scan(
            files,
            term,
        ).to_multiset(),
{
    lemma_views_of_joined(batches);
    lemma_joined_ignores_batch_order(batch_views(batches), matches_by_file(files, term));
}

/// The collection that every worker adds its matches to and that is read
/// once, when all workers are done.
pub struct ResultSink {
    sender: Sender<Vec<SearchResult>>,
    receiver: Receiver<Vec<SearchResult>>,
}

impl ResultSink {
    /// An empty sink.
    pub fn new() -> (sink: Self) {
        let (sender, receiver) = unbounded();
        Self { sender, receiver }
    }

    /// A handle through which a worker adds its matches: a copy of the sink's own sending end.
    pub fn sender(&self) -> (handle: Sender<Vec<SearchResult>>)
        ensures handle == self.inlet(),
    { self.sender.clone() }

    /// Adds the matches of one file.
    pub fn push(&self, matches: Vec<SearchResult>) -> (outcome: Result<(), SearchError>)
        ensures
            outcome matches Err(e) ==> e == SearchError::ChannelFailure,
    {
        delivery(self.sender.send(matches))
    }

    /// Takes out the batches that are in the sink at the time of the call,
    /// oldest first.
    pub fn take_batches(&self) -> (batches: Vec<Vec<SearchResult>>) {
        let waiting = self.receiver.len();
        let mut batches: Vec<Vec<SearchResult>> = Vec::new();
        let mut taken: usize = 0;
        while taken < waiting
            invariant
                taken <= waiting,
            decreases waiting - taken,
        {
            // An attempt that finds nothing ends the taking early: the
            // batches that were counted have been taken by someone else.
            let received = self.receiver.try_recv();
            let more = keep_batch(&mut batches, received);
            if !more {
                return batches;
            }
            taken += 1;
        }
        batches
    }

    /// Takes out everything that is in the sink at the time of the call, as
    /// one list: batch after batch, the oldest first, each in its own order.
    /// Meant to be called once, after every worker has finished.
    pub fn drain(&self) -> (all: Vec<SearchResult>) {
        gather(self.take_batches())
    }

    /// The end of the sink's channel through which matches are added.
    pub closed spec fn inlet(self) -> Sender<Vec<SearchResult>> {
        self.sender
    }
}

/// What one attempt to take a batch out of the sink came to: a batch that
/// was there joins the batches taken so far, behind them, and there may be
/// more; if none was there, nothing changes and the taking is over.
pub fn keep_batch(
    taken: &mut Vec<Vec<SearchResult>>,
    received: Result<Vec<SearchResult>, TryRecvError>,
) -> (more: bool)
    ensures
        received matches Ok(batch) ==> more && final(taken)@ == old(taken)@.push(batch),
        received is Err ==> !more && final(taken)@ == old(taken)@,
{
    match received {
        Ok(batch) => {
            taken.push(batch);
            true
        },
        Err(_) => false,
    }
}

} // verus!
