//! The directory walk that produces the jobs.
//!
//! The walk itself reads no directory. It says which directory is to be
//! listed next, takes the listing that the caller read, returns one job for
//! each file in it and remembers the subdirectories. It is complete only when
//! every directory it has heard of has been listed, so that the end of the
//! jobs is never announced while part of the tree is still unexplored.

use crate::error::SearchError;
use crate::job::Job;
use crate::paths::{clone_path, display_path, path_text};
use crate::worklist::Worklist;
use std::path::PathBuf;
use vstd::prelude::*;

verus! {

/// One entry of a directory listing.
pub struct Entry {
    pub path: PathBuf,
    pub is_dir: bool,
}

/// The paths of the entries that are not directories, in listing order.
pub open spec fn file_paths(entries: Seq<Entry>) -> Seq<PathBuf>
    decreases entries.len(),
{
    if entries.len() == 0 {
        Seq::empty()
    } else if entries.last().is_dir {
        file_paths(entries.drop_last())
    } else {
        file_paths(entries.drop_last()).push(entries.last().path)
    }
}

/// The paths of the entries that are directories, in listing order.
pub open spec fn dir_paths(entries: Seq<Entry>) -> Seq<PathBuf>
    decreases entries.len(),
{
    if entries.len() == 0 {
        Seq::empty()
    } else if entries.first().is_dir {
        seq![entries.first().path] + dir_paths(entries.drop_first())
    } else {
        dir_paths(entries.drop_first())
    }
}

/// The files that a list of jobs names, in the same order.
pub open spec fn job_paths(jobs: Seq<Job>) -> Seq<PathBuf> {
    jobs.map_values(|job: Job| job.path())
}

/// A walk in progress: the directories that are known and not yet listed.
pub struct Discovery {
    pending: Vec<PathBuf>,
}

impl Discovery {
    /// The directories still to be listed, the next one first.
    pub closed spec fn upcoming(self) -> Seq<PathBuf> {
        self.pending@.reverse()
    }

    /// A walk that starts at `root`.
    pub fn new(root: PathBuf) -> (walk: Self)
        ensures
            walk.upcoming() == seq![root],
    {
        let mut pending: Vec<PathBuf> = Vec::new();
        pending.push(root);
        assert(pending@.reverse() =~= seq![root]);
        Self { pending }
    }

    /// Whether every known directory has been listed.
    pub fn is_complete(&self) -> (done: bool)
        ensures
            done == (self.upcoming().len() == 0),
    {
        self.pending.len() == 0
    }

    /// The directory to list next, or `None` when the walk is complete.
    pub fn next_directory(&mut self) -> (dir: Option<PathBuf>)
        ensures
            old(self).upcoming().len() == 0 ==> dir is None && final(self).upcoming() == old(self).upcoming(),
            old(self).upcoming().len() > 0 ==> dir == Some(old(self).upcoming()[0]) && final(self).upcoming() == old(self).upcoming().drop_first(),
    {
        let dir = self.pending.pop();
        assert(old(self).pending@.len() > 0 ==> self.pending@.reverse() =~= old(self).pending@.reverse().drop_first());
        dir
    }

    /// Takes the listing of the directory that [`Discovery::next_directory`]
    /// handed out: returns one job for each file in it, in listing order, and
    /// puts its subdirectories in front of the directories still to be listed.
    pub fn record(&mut self, entries: Vec<Entry>) -> (jobs: Vec<Job>)
        ensures
            job_paths(jobs@) == file_paths(entries@),
            final(self).upcoming() == dir_paths(entries@) + old(self).upcoming(),
    {
        let mut jobs: Vec<Job> = Vec::new();
        let mut index: usize = 0;
        assert(job_paths(jobs@) =~= file_paths(entries@.take(0)));
        while index < entries.len()
            invariant
                index <= entries.len(),
                job_paths(jobs@) == file_paths(entries@.take(index as int)),
            decreases entries.len() - index,
        {
            assert(entries@.take(index + 1).drop_last() =~= entries@.take(index as int));
            if !entries[index].is_dir {
                let ghost earlier = jobs@;
                jobs.push(Job::new(clone_path(&entries[index].path)));
                assert(job_paths(jobs@) =~= job_paths(earlier).push(entries@[index as int].path));
            }
            index += 1;
        }
        assert(entries@.take(index as int) =~= entries@);
        let ghost total = entries@.len() as int;
        assert(entries@.subrange(total, total) =~= Seq::<Entry>::empty());
        assert(self.pending@.reverse() =~= dir_paths(entries@.subrange(total, total)) + old(self).upcoming());
        while index > 0
            invariant
                index <= entries.len(),
                total == entries@.len(),
                self.pending@.reverse() == dir_paths(entries@.subrange(index as int, total)) + old(self).upcoming(),
            decreases index,
        {
            index -= 1;
            let ghost rest = entries@.subrange(index as int, total);
            assert(rest.drop_first() =~= entries@.subrange(index + 1, total));
            assert(rest.first() == entries@[index as int]);
            if entries[index].is_dir {
                let ghost earlier = self.pending@;
                self.pending.push(clone_path(&entries[index].path));
                assert(self.pending@.reverse() =~= seq![entries@[index as int].path]
                    + earlier.reverse());
            }
        }
        assert(entries@.subrange(0, total) =~= entries@);
        jobs
    }

    /// Ends the walk because `dir` could not be listed: no directory is left
    /// to list, and the error names the directory.
    pub fn fail(&mut self, dir: &PathBuf) -> (error: SearchError)
        ensures
            final(self).upcoming().len() == 0,
            error matches SearchError::InvalidDir(name) && name@ == path_text(*dir),
    {
        self.pending.clear();
        SearchError::InvalidDir(display_path(dir))
    }

    /// Announces the end of the jobs to a pool of `num_workers` workers.
    /// This ends the walk, and it can be done only when no directory is
    /// left to list: no worker is told to stop while part of the tree is
    /// still unexplored. A pool of no workers is refused, and nothing is
    /// announced to it.
    pub fn finish(self, worklist: &Worklist, num_workers: usize) -> (outcome: Result<
        (),
        SearchError,
    >)
        requires
            self.upcoming().len() == 0,
        ensures
            num_workers == 0 <==> outcome == Err::<(), SearchError>(SearchError::NoWorkers),
            num_workers > 0 ==> (outcome matches Err(e) ==> e == SearchError::ChannelFailure),
    {
        worklist.finalize(num_workers)
    }
}

/// A finite directory tree: the listing of every directory in it, and for
/// every directory a height that is greater than the height of each of its
/// subdirectories.
pub ghost struct DirTree {
    pub listing: Map<PathBuf, Seq<Entry>>,
    pub height: spec_fn(PathBuf) -> nat,
}

/// What a walk has come to: the files found so far, in the order in which
/// their jobs were handed out, and the directories still to be listed.
pub ghost struct Run {
    pub found: Seq<PathBuf>,
    pub upcoming: Seq<PathBuf>,
}

/// A walk of at most `steps` listings that starts with the directories
/// `upcoming`: each step lists the next directory as
/// [`Discovery::next_directory`] and [`Discovery::record`] do.
pub open spec fn walk(listing: Map<PathBuf, Seq<Entry>>, upcoming: Seq<PathBuf>, steps: nat) -> Run
    decreases steps,
{
    if steps == 0 || upcoming.len() == 0 {
        Run { found: Seq::empty(), upcoming }
    } else {
        let entries = listing[upcoming[0]];
        let rest = walk(listing, dir_paths(entries) + upcoming.drop_first(), (steps - 1) as nat);
        Run { found: file_paths(entries) + rest.found, upcoming: rest.upcoming }
    }
}

impl DirTree {
    /// The `i`-th subdirectory of `dir`.
    pub open spec fn subdir(self, dir: PathBuf, i: int) -> PathBuf {
        dir_paths(self.listing[dir])[i]
    }

    /// Every subdirectory of a listed directory is listed too, and lies
    /// lower in the tree.
    pub open spec fn wf(self) -> bool {
        forall|dir: PathBuf, i: int|
            self.listing.dom().contains(dir) && 0 <= i < dir_paths(self.listing[dir]).len() ==> {
                &&& self.listing.dom().contains(#[trigger] self.subdir(dir, i))
                &&& (self.height)(self.subdir(dir, i)) < (self.height)(dir)
            }
    }

    /// All of `dirs` are listed and lie below the height `below`.
    pub open spec fn listed_below(self, dirs: Seq<PathBuf>, below: nat) -> bool {
        forall|i: int|
            0 <= i < dirs.len() ==> self.listing.dom().contains(#[trigger] dirs[i])
                && (self.height)(dirs[i]) < below
    }

    /// The files of the tree below `dir`: those of `dir` itself, then those
    /// of each subdirectory in turn.
    pub open spec fn files_under(self, dir: PathBuf) -> Seq<PathBuf>
        decreases (self.height)(dir) + 1, 0nat,
    {
        file_paths(self.listing[dir]) + self.files_among(
            dir_paths(self.listing[dir]),
            (self.height)(dir),
        )
    }

    /// The files below each of `dirs` in turn, for directories lower than
    /// `below`.
    pub open spec fn files_among(self, dirs: Seq<PathBuf>, below: nat) -> Seq<PathBuf>
        decreases below, dirs.len() + 1,
    {
        if dirs.len() == 0 {
            Seq::empty()
        } else if (self.height)(dirs[0]) < below {
            self.files_under(dirs[0]) + self.files_among(dirs.drop_first(), below)
        } else {
            self.files_among(dirs.drop_first(), below)
        }
    }

    /// The number of directories in the tree below `dir`, `dir` included.
    pub open spec fn dirs_under(self, dir: PathBuf) -> nat
        decreases (self.height)(dir) + 1, 0nat,
    {
        1 + self.dirs_among(dir_paths(self.listing[dir]), (self.height)(dir))
    }

    /// The number of directories below all of `dirs`, for directories lower
    /// than `below`.
    pub open spec fn dirs_among(self, dirs: Seq<PathBuf>, below: nat) -> nat
        decreases below, dirs.len() + 1,
    {
        if dirs.len() == 0 {
            0
        } else if (self.height)(dirs[0]) < below {
            self.dirs_under(dirs[0]) + self.dirs_among(dirs.drop_first(), below)
        } else {
            self.dirs_among(dirs.drop_first(), below)
        }
    }

    /// For directories that lie below both, the bound makes no difference.
    proof fn lemma_among_any_bound(self, dirs: Seq<PathBuf>, low: nat, high: nat)
        requires
            self.listed_below(dirs, low),
            self.listed_below(dirs, high),
        ensures
            self.files_among(dirs, low) == self.files_among(dirs, high),
            self.dirs_among(dirs, low) == self.dirs_among(dirs, high),
        decreases dirs.len(),
    {
        if dirs.len() > 0 {
            let rest = dirs.drop_first();
            assert forall|i: int| 0 <= i < rest.len() implies self.listing.dom().contains(
                #[trigger] rest[i],
            ) && (self.height)(rest[i]) < low && (self.height)(rest[i]) < high by {
                assert(rest[i] == dirs[i + 1]);
            }
            self.lemma_among_any_bound(rest, low, high);
            assert(self.listing.dom().contains(dirs[0]));
        }
    }

    /// The files below two lists of directories, one after the other.
    proof fn lemma_among_concat(self, front: Seq<PathBuf>, back: Seq<PathBuf>, below: nat)
        ensures
            self.files_among(front + back, below) == self.files_among(front, below)
                + self.files_among(back, below),
            self.dirs_among(front + back, below) == self.dirs_among(front, below) + self.dirs_among(
                back,
                below,
            ),
        decreases front.len(),
    {
        if front.len() == 0 {
            assert(front + back =~= back);
        } else {
            let all = front + back;
            assert(all.drop_first() =~= front.drop_first() + back);
            assert(all[0] == front[0]);
            self.lemma_among_concat(front.drop_first(), back, below);
            assert(self.files_among(all, below) =~= self.files_among(front, below)
                + self.files_among(back, below));
        }
    }

    /// A walk that starts with listed directories ends after one step for
    /// each directory below them, and finds the files below them in order.
    proof fn lemma_walk_among(self, upcoming: Seq<PathBuf>, below: nat)
        requires
            self.wf(),
            self.listed_below(upcoming, below),
        ensures
            walk(self.listing, upcoming, self.dirs_among(upcoming, below)) == (Run {
                found: self.files_among(upcoming, below),
                upcoming: Seq::empty(),
            }),
        decreases self.dirs_among(upcoming, below),
    {
        if upcoming.len() == 0 {
            assert(upcoming =~= Seq::<PathBuf>::empty());
        } else {
            let top = upcoming[0];
            let rest = upcoming.drop_first();
            let entries = self.listing[top];
            let subdirs = dir_paths(entries);
            let next = subdirs + rest;
            assert(self.listing.dom().contains(top));
            assert forall|i: int| 0 <= i < subdirs.len() implies self.listing.dom().contains(
                #[trigger] subdirs[i],
            ) && (self.height)(subdirs[i]) < (self.height)(top) by {
                assert(subdirs[i] == self.subdir(top, i));
            }
            assert forall|i: int| 0 <= i < rest.len() implies self.listing.dom().contains(
                #[trigger] rest[i],
            ) && (self.height)(rest[i]) < below by {
                assert(rest[i] == upcoming[i + 1]);
            }
            assert(self.listed_below(subdirs, (self.height)(top)));
            assert(self.listed_below(subdirs, below));
            assert(self.listed_below(next, below)) by {
                assert forall|i: int| 0 <= i < next.len() implies self.listing.dom().contains(
                    #[trigger] next[i],
                ) && (self.height)(next[i]) < below by {
                    if i < subdirs.len() {
                        assert(next[i] == subdirs[i]);
                    } else {
                        assert(next[i] == rest[i - subdirs.len()]);
                    }
                }
            }
            self.lemma_among_any_bound(subdirs, (self.height)(top), below);
            self.lemma_among_concat(subdirs, rest, below);
            let steps = self.dirs_among(upcoming, below);
            assert(steps == self.dirs_under(top) + self.dirs_among(rest, below));
            assert(self.dirs_under(top) == 1 + self.dirs_among(subdirs, (self.height)(top)));
            assert(steps == 1 + self.dirs_among(next, below));
            assert(self.files_among(upcoming, below) == self.files_under(top) + self.files_among(
                rest,
                below,
            ));
            assert(self.files_under(top) == file_paths(entries) + self.files_among(
                subdirs,
                (self.height)(top),
            ));
            self.lemma_walk_among(next, below);
            let after = walk(self.listing, next, (steps - 1) as nat);
            assert(after.found == self.files_among(next, below));
            assert(file_paths(entries) + after.found =~= self.files_among(upcoming, below));
        }
    }

    /// Every file is found, and found once: a walk of a finite tree that
    /// starts at `root` is complete after one listing for each directory of
    /// the tree, and has then handed out the files of the tree, each file of
    /// each listing once.
    pub proof fn lemma_walk_finds_every_file(self, root: PathBuf)
        requires
            self.wf(),
            self.listing.dom().contains(root),
        ensures
            walk(self.listing, seq![root], self.dirs_under(root)) == (Run {
                found: self.files_under(root),
                upcoming: Seq::empty(),
            }),
    {
        let start = seq![root];
        let below = (self.height)(root) + 1;
        let none = Seq::<PathBuf>::empty();
        assert(start.drop_first() =~= none);
        assert(self.files_among(none, below) == Seq::<PathBuf>::empty());
        assert(self.dirs_among(none, below) == 0);
        assert(self.files_among(start, below) == self.files_under(root) + self.files_among(
            none,
            below,
        ));
        assert(self.files_among(start, below) =~= self.files_under(root));
        assert(self.dirs_among(start, below) == self.dirs_under(root) + self.dirs_among(
            none,
            below,
        ));
        self.lemma_walk_among(start, below);
    }

    /// No file is found twice: in a tree in which no two file entries carry
    /// the same path, the files that a walk from `root` hands out are all
    /// different from one another.
    pub proof fn lemma_walk_finds_no_file_twice(self, root: PathBuf)
        requires
            self.wf(),
            self.listing.dom().contains(root),
            self.files_under(root).no_duplicates(),
        ensures
            ({
                let found = walk(self.listing, seq![root], self.dirs_under(root)).found;
                forall|i: int, j: int| 0 <= i < j < found.len() ==> found[i] != found[j]
            }),
    {
        self.lemma_walk_finds_every_file(root);
    }
}

} // verus!
