//! The walk as mathematics: its state and its one transition.
//!
//! A walk holds a first-in-first-out frontier of pending nodes, the set of
//! nodes that were ever put on the frontier, and the number of entries it
//! has produced. Nodes are the keys of filenode hashes.

use vstd::prelude::*;
use crate::error::ErrorKindView;
use crate::types::{
    FilenodeInfoView, HgFileHistoryEntryView, HgFileNodeId, RepoPathView, NULL_HASH,
};

verus! {

/// The result of a lookup that the caller made for the walk: the record, or
/// the store's message where the lookup failed.
pub type Supplied = Option<Result<FilenodeInfoView, Seq<char>>>;

/// What one step of a walk hands to its caller.
pub enum StepView {
    /// The next entry of the history.
    Entry(HgFileHistoryEntryView),
    /// The record of this node is not at hand: the caller looks it up and
    /// supplies it. The walk has not moved.
    Fetch(HgFileNodeId),
    /// The walk failed and is over.
    Failed(ErrorKindView),
    /// The walk is over.
    Done,
}

/// The state of a walk.
pub struct Walk {
    /// The frontier, next node first.
    pub nodes: Seq<u64>,
    /// Every node that was ever put on the frontier.
    pub seen: Set<u64>,
    /// How many entries the walk has produced.
    pub length: nat,
}

/// The history entry that the record of a node gives.
pub open spec fn entry_of(node: u64, info: FilenodeInfoView) -> HgFileHistoryEntryView {
    HgFileHistoryEntryView {
        node: HgFileNodeId(node),
        parents: info.parents(),
        linknode: info.linknode,
        copyfrom: match info.copyfrom {
            Some((RepoPathView::FilePath(from), from_node)) => Some((from, from_node)),
            _ => None,
        },
    }
}

impl Walk {
    /// The walk that starts at a node: the node alone is pending, unless it
    /// stands for "no file", in which case nothing is.
    pub open spec fn start(startnode: u64) -> Walk {
        if startnode == NULL_HASH {
            Walk { nodes: Seq::empty(), seen: Set::empty(), length: 0 }
        } else {
            Walk { nodes: seq![startnode], seen: set![startnode], length: 0 }
        }
    }

    /// Every pending node was seen, none is pending twice, and apart from
    /// the pending ones at least as many nodes were seen as entries produced.
    pub open spec fn wf(self) -> bool {
        &&& self.seen.finite()
        &&& self.nodes.no_duplicates()
        &&& forall|i: int| 0 <= i < self.nodes.len() ==> self.seen.contains(#[trigger] self.nodes[i])
        &&& self.length + self.nodes.len() <= self.seen.len()
    }

    /// Whether the walk has produced as many entries as it may.
    pub open spec fn limit_reached(self, max_length: Option<u32>) -> bool {
        match max_length {
            Some(max_length) => self.length >= max_length,
            None => false,
        }
    }

    /// The node the walk visits next; none when the walk is over.
    pub open spec fn next_node(self, max_length: Option<u32>) -> Option<u64> {
        if self.limit_reached(max_length) || self.nodes.len() == 0 {
            None
        } else {
            Some(self.nodes[0])
        }
    }

    /// Puts each of the given nodes at the back of the frontier, in order,
    /// unless it was seen before.
    pub open spec fn enqueue(self, parents: Seq<u64>) -> Walk
        decreases parents.len(),
    {
        if parents.len() == 0 {
            self
        } else {
            let p = parents[0];
            let next = if self.seen.contains(p) {
                self
            } else {
                Walk { nodes: self.nodes.push(p), seen: self.seen.insert(p), ..self }
            };
            next.enqueue(parents.drop_first())
        }
    }

    /// The walk after it has produced the entry of its next node, whose
    /// record names the given parents.
    pub open spec fn visit(self, parents: Seq<u64>) -> Walk {
        Walk { nodes: self.nodes.drop_first(), length: self.length + 1, ..self }.enqueue(parents)
    }

    /// The walk after a failure: nothing is pending any more.
    pub open spec fn abandon(self) -> Walk {
        Walk { nodes: Seq::empty(), ..self }
    }

    /// What the record of the next node leads to: a failure where it names a
    /// directory as the source of a copy, else its entry.
    pub open spec fn emit(self, node: u64, path: RepoPathView, info: FilenodeInfoView) -> (
        Walk,
        StepView,
    ) {
        match info.copyfrom {
            Some((RepoPathView::DirectoryPath(from), _)) => (
                self.abandon(),
                StepView::Failed(
                    ErrorKindView::InconsistentCopyInfo(path, RepoPathView::DirectoryPath(from)),
                ),
            ),
            _ => (
                self.visit(info.parents().hashes()),
                StepView::Entry(entry_of(node, info)),
            ),
        }
    }

    /// One step of the walk along `path`. The record of the next node is
    /// taken from `cache` where it is there, else from what was supplied.
    pub open spec fn step(
        self,
        max_length: Option<u32>,
        path: RepoPathView,
        cache: Map<u64, FilenodeInfoView>,
        supplied: Supplied,
    ) -> (Walk, StepView) {
        match self.next_node(max_length) {
            None => (self, StepView::Done),
            Some(node) => {
                let found = if cache.dom().contains(node) {
                    Some(Ok(cache[node]))
                } else {
                    supplied
                };
                match found {
                    None => (self, StepView::Fetch(HgFileNodeId(node))),
                    Some(Err(cause)) => (
                        self.abandon(),
                        StepView::Failed(ErrorKindView::StoreFailure(cause)),
                    ),
                    Some(Ok(info)) => self.emit(node, path, info),
                }
            },
        }
    }
}

/// What the lookup of each node gives: its record, or the store's message
/// where the lookup fails.
pub type Lookups = spec_fn(u64) -> Result<FilenodeInfoView, Seq<char>>;

/// The parents that the record of a node names, first parent first; none
/// where the node has no record.
pub open spec fn parents_of(lookups: Lookups, node: u64) -> Seq<u64> {
    match lookups(node) {
        Ok(info) => info.parents().hashes(),
        Err(_) => Seq::empty(),
    }
}

/// Whether the record of `child` names `parent` as a parent.
pub open spec fn is_parent(lookups: Lookups, child: u64, parent: u64) -> bool {
    parents_of(lookups, child).contains(parent)
}

/// Whether `to` is reached from `from` by following parents `hops` times.
pub open spec fn reaches(lookups: Lookups, from: u64, to: u64, hops: nat) -> bool
    decreases hops,
{
    if hops == 0 {
        from == to
    } else {
        exists|mid: u64|
            reaches(lookups, from, mid, (hops - 1) as nat) && #[trigger] is_parent(lookups, mid, to)
    }
}

/// Whether `to` is `from` or one of its ancestors.
pub open spec fn reachable(lookups: Lookups, from: u64, to: u64) -> bool {
    exists|hops: nat| reaches(lookups, from, to, hops)
}

/// Whether `to` is reached from `from` by following parents `hops` times
/// without coming to `avoid`.
pub open spec fn reaches_avoiding(lookups: Lookups, from: u64, to: u64, avoid: u64, hops: nat) -> bool
    decreases hops,
{
    to != avoid && if hops == 0 {
        from == to
    } else {
        exists|mid: u64|
            reaches_avoiding(lookups, from, mid, avoid, (hops - 1) as nat) && #[trigger] is_parent(
                lookups,
                mid,
                to,
            )
    }
}

/// Whether `to` is `from` or an ancestor of it by a line of parents that
/// does not come to `avoid`.
pub open spec fn reachable_avoiding(lookups: Lookups, from: u64, to: u64, avoid: u64) -> bool {
    exists|hops: nat| reaches_avoiding(lookups, from, to, avoid, hops)
}

/// The filenodes of a list of entries, in order.
pub open spec fn filenodes_of(entries: Seq<HgFileHistoryEntryView>) -> Seq<u64> {
    entries.map_values(|entry: HgFileHistoryEntryView| entry.node.0)
}

/// A walk together with what it has handed out so far.
pub struct History {
    pub walk: Walk,
    /// The entries produced, oldest pull first.
    pub entries: Seq<HgFileHistoryEntryView>,
    /// The failure that ended the walk, if one did.
    pub error: Option<ErrorKindView>,
}

impl History {
    /// Nothing has been pulled yet.
    pub open spec fn begin(startnode: u64) -> History {
        History { walk: Walk::start(startnode), entries: Seq::empty(), error: None }
    }

    /// One pull: the walk steps, with the record of its next node looked up
    /// for it, and what it hands out is kept.
    pub open spec fn pull(self, max_length: Option<u32>, path: RepoPathView, lookups: Lookups) -> History {
        match self.walk.next_node(max_length) {
            None => self,
            Some(node) => {
                let (walk, step) = self.walk.step(
                    max_length,
                    path,
                    Map::empty(),
                    Some(lookups(node)),
                );
                match step {
                    StepView::Entry(entry) => History {
                        walk,
                        entries: self.entries.push(entry),
                        error: self.error,
                    },
                    StepView::Failed(error) => History {
                        walk,
                        entries: self.entries,
                        error: Some(error),
                    },
                    _ => History { walk, ..self },
                }
            },
        }
    }

    /// The history of `startnode` after the given number of pulls.
    pub open spec fn after(
        startnode: u64,
        max_length: Option<u32>,
        path: RepoPathView,
        lookups: Lookups,
        pulls: nat,
    ) -> History
        decreases pulls,
    {
        if pulls == 0 {
            History::begin(startnode)
        } else {
            History::after(startnode, max_length, path, lookups, (pulls - 1) as nat).pull(
                max_length,
                path,
                lookups,
            )
        }
    }

    /// A walk that is taken up where it stands, with nothing handed out yet.
    pub open spec fn resume(walk: Walk) -> History {
        History { walk, entries: Seq::empty(), error: None }
    }

    /// The history after the given number of further pulls.
    pub open spec fn pulled(
        self,
        max_length: Option<u32>,
        path: RepoPathView,
        lookups: Lookups,
        pulls: nat,
    ) -> History
        decreases pulls,
    {
        if pulls == 0 {
            self
        } else {
            self.pulled(max_length, path, lookups, (pulls - 1) as nat).pull(
                max_length,
                path,
                lookups,
            )
        }
    }

    /// Whether the walk is over: further pulls change nothing.
    pub open spec fn at_rest(self, max_length: Option<u32>) -> bool {
        self.walk.next_node(max_length) is None
    }
}

/// What a cache gives where it alone is asked: the record it holds of a
/// node, and a failure for every other node.
pub open spec fn cache_lookups(cache: Map<u64, FilenodeInfoView>) -> Lookups {
    |node: u64|
        if cache.dom().contains(node) {
            Ok(cache[node])
        } else {
            Err(Seq::empty())
        }
}

} // verus!
