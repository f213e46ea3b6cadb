//! The history walker: a breadth-first walk over the parents of a filenode.
//!
//! The walker never looks a record up itself. A step either produces the
//! next entry from a record that is at hand, or names the filenode whose
//! record the caller must fetch and supply. A caller that stops stepping
//! causes no further work.

use std::collections::{HashMap, HashSet, VecDeque};
use vstd::prelude::*;
use crate::error::ErrorKind;
use crate::laws::{
    law_step_is_a_pull, lemma_hash_keys_are_finite, lemma_visit_takes_room, room,
};
use crate::model::{cache_lookups, History, StepView, Supplied, Walk};
use crate::prefetch::{cache_view, index_by_filenode, prefetch_history};
use crate::types::{
    FilenodeInfo, FilenodeInfoView, HgFileHistoryEntry, HgFileHistoryEntryView, HgFileNodeId,
    HgParents, MPath, RepoPath, RepoPathView,
};

verus! {

/// What one step of a walker hands to its caller.
#[derive(Debug, PartialEq, Eq)]
pub enum Step {
    /// The next entry of the history.
    Entry(HgFileHistoryEntry),
    /// The record of this filenode is not in the cache: the caller looks it
    /// up and hands it to [`HistoryWalker::supply`]. The walker has not moved.
    Fetch(HgFileNodeId),
    /// The walk failed and is over.
    Failed(ErrorKind),
    /// The walk is over.
    Done,
}

impl View for Step {
    type V = StepView;

    open spec fn view(&self) -> StepView {
        match self {
            Step::Entry(entry) => StepView::Entry(entry@),
            Step::Fetch(node) => StepView::Fetch(*node),
            Step::Failed(error) => StepView::Failed(error@),
            Step::Done => StepView::Done,
        }
    }
}

/// What a lookup result denotes, as the model takes it.
pub open spec fn supplied_view(fetched: Option<Result<FilenodeInfo, String>>) -> Supplied {
    match fetched {
        None => None,
        Some(Ok(info)) => Some(Ok(info@)),
        Some(Err(cause)) => Some(Err(cause@)),
    }
}

/// The entries of a list, each as what it denotes.
pub open spec fn entry_views(entries: Seq<HgFileHistoryEntry>) -> Seq<HgFileHistoryEntryView> {
    entries.map_values(|entry: HgFileHistoryEntry| entry@)
}

/// The state of one walk over the history of a file.
pub struct HistoryWalker {
    path: RepoPath,
    max_length: Option<u32>,
    prefetched_history: HashMap<u64, FilenodeInfo>,
    nodes: VecDeque<u64>,
    seen_nodes: HashSet<u64>,
    length: usize,
}

impl View for HistoryWalker {
    type V = Walk;

    closed spec fn view(&self) -> Walk {
        Walk { nodes: self.nodes@, seen: self.seen_nodes@, length: self.length as nat }
    }
}

impl HistoryWalker {
    /// The path whose history is walked.
    pub closed spec fn path(&self) -> RepoPathView {
        self.path@
    }

    /// The most entries the walk may produce, if it is bounded.
    pub closed spec fn max_length(&self) -> Option<u32> {
        self.max_length
    }

    /// The records that are at hand without a lookup.
    pub closed spec fn cache(&self) -> Map<u64, FilenodeInfoView> {
        cache_view(self.prefetched_history@)
    }

    /// The walker is in a state that a walk can reach. Every walker that
    /// this module hands out is, and every step keeps it so.
    pub open spec fn wf(&self) -> bool {
        self@.wf()
    }

    /// Whether the walk is over: a step would produce nothing.
    pub fn is_done(&self) -> (done: bool)
        ensures
            done == (self@.next_node(self.max_length()) is None),
    {
        self.limit_reached() || self.nodes.len() == 0
    }

    /// The next step of the walk, from the cache alone.
    pub fn advance(&mut self) -> (step: Step)
        requires
            old(self).wf(),
        ensures
            final(self).wf(),
            final(self).path() == old(self).path(),
            final(self).max_length() == old(self).max_length(),
            final(self).cache() == old(self).cache(),
            (final(self)@, step@) == old(self)@.step(
                old(self).max_length(),
                old(self).path(),
                old(self).cache(),
                None,
            ),
    {
        self.step_with(None)
    }

    /// The next step of the walk, given the outcome of the lookup that the
    /// walker asked for. The cache is asked first; where it holds the record
    /// of the next node, or the walk is over, `fetched` is not used.
    pub fn supply(&mut self, fetched: Result<FilenodeInfo, String>) -> (step: Step)
        requires
            old(self).wf(),
        ensures
            final(self).wf(),
            final(self).path() == old(self).path(),
            final(self).max_length() == old(self).max_length(),
            final(self).cache() == old(self).cache(),
            (final(self)@, step@) == old(self)@.step(
                old(self).max_length(),
                old(self).path(),
                old(self).cache(),
                supplied_view(Some(fetched)),
            ),
    {
        self.step_with(Some(fetched))
    }

    /// Steps the walk for as long as the cache alone carries it. Hands back
    /// the entries that this gave, in order, and the step at which it
    /// stopped: the request for a record that the cache lacks, a failure, or
    /// the end of the walk. The loop ends whatever the records say, since
    /// every entry takes room from the walk.
    pub fn drain(&mut self) -> (run: (Vec<HgFileHistoryEntry>, Step))
        requires
            old(self).wf(),
        ensures
            final(self).wf(),
            final(self).path() == old(self).path(),
            final(self).max_length() == old(self).max_length(),
            final(self).cache() == old(self).cache(),
            ({
                let reached = History::resume(old(self)@).pulled(
                    old(self).max_length(),
                    old(self).path(),
                    cache_lookups(old(self).cache()),
                    run.0@.len(),
                );
                &&& reached.entries == entry_views(run.0@)
                &&& reached.error is None
                &&& (final(self)@, run.1@) == reached.walk.step(
                    old(self).max_length(),
                    old(self).path(),
                    old(self).cache(),
                    None,
                )
                &&& !(run.1@ is Entry)
            }),
    {
        let mut entries: Vec<HgFileHistoryEntry> = Vec::new();
        let ghost begun = History::resume(self@);
        let ghost lookups = cache_lookups(self.cache());
        assert(entry_views(entries@) =~= begun.entries);
        proof {
            lemma_hash_keys_are_finite(self@.seen);
        }
        loop
            invariant
                self.wf(),
                self.path() == old(self).path(),
                self.max_length() == old(self).max_length(),
                self.cache() == old(self).cache(),
                begun == History::resume(old(self)@),
                lookups == cache_lookups(old(self).cache()),
                begun.pulled(self.max_length(), self.path(), lookups, entries@.len()) == (History {
                    walk: self@,
                    entries: entry_views(entries@),
                    error: None,
                }),
                room(self@) >= 0,
            decreases room(self@),
        {
            let ghost reached = begun.pulled(
                self.max_length(),
                self.path(),
                lookups,
                entries@.len(),
            );
            let ghost before = entries@;
            let step = self.advance();
            match step {
                Step::Entry(entry) => {
                    proof {
                        let node = reached.walk.nodes[0];
                        law_step_is_a_pull(
                            reached,
                            self.max_length(),
                            self.path(),
                            self.cache(),
                            None,
                            lookups,
                        );
                        lemma_visit_takes_room(
                            reached.walk,
                            self.cache()[node].parents().hashes(),
                        );
                    }
                    entries.push(entry);
                    assert(entry_views(entries@) =~= entry_views(before).push(entry@));
                },
                stop => {
                    return (entries, stop);
                },
            }
        }
    }

    fn limit_reached(&self) -> (reached: bool)
        ensures
            reached == self@.limit_reached(self.max_length()),
    {
        match self.max_length {
            Some(max_length) => self.length >= max_length as usize,
            None => false,
        }
    }

    fn step_with(&mut self, fetched: Option<Result<FilenodeInfo, String>>) -> (step: Step)
        requires
            old(self).wf(),
        ensures
            final(self).wf(),
            final(self).path() == old(self).path(),
            final(self).max_length() == old(self).max_length(),
            final(self).cache() == old(self).cache(),
            (final(self)@, step@) == old(self)@.step(
                old(self).max_length(),
                old(self).path(),
                old(self).cache(),
                supplied_view(fetched),
            ),
    {
        if self.limit_reached() || self.nodes.len() == 0 {
            return Step::Done;
        }
        let node = self.nodes[0];
        let filenode = match self.prefetched_history.get(&node) {
            Some(filenode) => filenode.clone(),
            None => match fetched {
                None => {
                    return Step::Fetch(HgFileNodeId(node));
                },
                Some(Err(cause)) => {
                    self.nodes.clear();
                    return Step::Failed(ErrorKind::StoreFailure(cause));
                },
                Some(Ok(filenode)) => filenode,
            },
        };
        let p1 = match filenode.p1 {
            Some(p) => Some(p.into_nodehash()),
            None => None,
        };
        let p2 = match filenode.p2 {
            Some(p) => Some(p.into_nodehash()),
            None => None,
        };
        let parents = HgParents::new(p1, p2);
        let linknode = filenode.linknode;
        let copyfrom = match filenode.copyfrom {
            Some((RepoPath::FilePath(frompath), from_node)) => Some((frompath, from_node)),
            Some((frompath, _)) => {
                self.nodes.clear();
                return Step::Failed(ErrorKind::InconsistentCopyInfo(self.path.clone(), frompath));
            },
            None => None,
        };
        let entry = HgFileHistoryEntry::new(HgFileNodeId(node), parents, linknode, copyfrom);

        let ghost before = self@;
        let seen = self.seen_nodes.len();
        self.nodes.pop_front();
        self.length = self.length + 1;
        proof {
            assert(self.nodes@ =~= before.nodes.drop_first());
            reveal_with_fuel(Walk::enqueue, 3);
        }
        match parents {
            HgParents::Zero => {},
            HgParents::One(p) => {
                self.enqueue(p);
                assert(seq![p].drop_first() =~= Seq::<u64>::empty());
            },
            HgParents::Two(p, q) => {
                self.enqueue(p);
                self.enqueue(q);
                assert(seq![p, q].drop_first() =~= seq![q]);
                assert(seq![q].drop_first() =~= Seq::<u64>::empty());
            },
        }
        Step::Entry(entry)
    }

    /// Puts a node at the back of the frontier unless it was seen before.
    fn enqueue(&mut self, p: u64)
        requires
            old(self).wf(),
        ensures
            final(self).wf(),
            final(self).path == old(self).path,
            final(self).max_length == old(self).max_length,
            final(self).prefetched_history == old(self).prefetched_history,
            final(self)@ == if old(self)@.seen.contains(p) {
                old(self)@
            } else {
                Walk {
                    nodes: old(self)@.nodes.push(p),
                    seen: old(self)@.seen.insert(p),
                    ..old(self)@
                }
            },
    {
        let ghost before = self@;
        if self.seen_nodes.insert(p) {
            self.nodes.push_back(p);
            proof {
                assert forall|i: int, j: int|
                    0 <= i < j < self.nodes@.len() implies self.nodes@[i] != self.nodes@[j] by {
                    if j < before.nodes.len() {
                    } else {
                        assert(before.seen.contains(before.nodes[i]));
                    }
                }
            }
        } else {
            assert(self.seen_nodes@ =~= before.seen);
        }
    }
}

/// Starts the walk over the history of `startnode` at the file `path`,
/// bounded by `max_length` entries if that is given, with the records in
/// `prefetched_history` at hand. A start that stands for "no file" gives a
/// walk that is over before it began.
pub fn get_file_history_using_prefetched(
    startnode: HgFileNodeId,
    path: MPath,
    max_length: Option<u32>,
    prefetched_history: HashMap<u64, FilenodeInfo>,
) -> (walker: HistoryWalker)
    ensures
        walker.wf(),
        walker@ == Walk::start(startnode.0),
        walker.path() == RepoPathView::FilePath(path@),
        walker.max_length() == max_length,
        walker.cache() == cache_view(prefetched_history@),
{
    let mut nodes: VecDeque<u64> = VecDeque::new();
    let mut seen_nodes: HashSet<u64> = HashSet::new();
    if !startnode.is_null() {
        nodes.push_back(startnode.into_nodehash());
        seen_nodes.insert(startnode.into_nodehash());
    }
    let walker = HistoryWalker {
        path: RepoPath::FilePath(path),
        max_length,
        prefetched_history,
        nodes,
        seen_nodes,
        length: 0,
    };
    proof {
        assert(walker@.nodes =~= Walk::start(startnode.0).nodes);
        assert(walker@.seen =~= Walk::start(startnode.0).seen);
    }
    walker
}

/// Starts the walk over the history of `filenode` at the file `path`, with
/// the records of a bulk read of that path at hand.
pub fn get_file_history(
    filenode: HgFileNodeId,
    path: MPath,
    max_length: Option<u32>,
    filenodes: &Vec<FilenodeInfo>,
) -> (walker: HistoryWalker)
    ensures
        walker.wf(),
        walker@ == Walk::start(filenode.0),
        walker.path() == RepoPathView::FilePath(path@),
        walker.max_length() == max_length,
        walker.cache() == index_by_filenode(filenodes@),
{
    let prefetched = prefetch_history(filenodes);
    get_file_history_using_prefetched(filenode, path, max_length, prefetched)
}

} // verus!
