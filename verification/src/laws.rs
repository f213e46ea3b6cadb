//! What holds of every walk.
//!
//! The laws speak of [`History::after`]: the walk from a start node after
//! some number of pulls, where the record of each node is looked up as
//! `lookups` says. One pull is one step of [`Walk::step`], which is what a
//! step of the executable walker is proved to take.

use vstd::prelude::*;
use crate::error::ErrorKindView;
use crate::model::{
    entry_of, filenodes_of, is_parent, reachable, reachable_avoiding, reaches, reaches_avoiding,
    History, Lookups, StepView, Supplied, Walk,
};
use crate::types::{FilenodeInfoView, HgFileHistoryEntryView, RepoPathView, NULL_HASH};

verus! {

/// What putting nodes on the frontier does: the frontier grows at its back
/// by nodes that were not seen before, and these are what the seen set gains.
pub proof fn lemma_enqueue(walk: Walk, parents: Seq<u64>)
    requires
        walk.wf(),
    ensures
        walk.enqueue(parents).wf(),
        walk.enqueue(parents).length == walk.length,
        walk.enqueue(parents).nodes.len() >= walk.nodes.len(),
        walk.enqueue(parents).nodes.subrange(0, walk.nodes.len() as int) == walk.nodes,
        walk.enqueue(parents).seen.len() - walk.enqueue(parents).nodes.len() == walk.seen.len()
            - walk.nodes.len(),
        forall|node: u64| #[trigger]
            walk.enqueue(parents).seen.contains(node) <==> walk.seen.contains(node)
                || parents.contains(node),
        forall|i: int|
            walk.nodes.len() <= i < walk.enqueue(parents).nodes.len() ==> parents.contains(
                #[trigger] walk.enqueue(parents).nodes[i],
            ) && !walk.seen.contains(walk.enqueue(parents).nodes[i]),
        forall|node: u64| #[trigger]
            walk.enqueue(parents).seen.contains(node) && !walk.seen.contains(node)
                ==> walk.enqueue(parents).nodes.contains(node),
    decreases parents.len(),
{
    if parents.len() == 0 {
        assert(walk.nodes.subrange(0, walk.nodes.len() as int) =~= walk.nodes);
    } else {
        let p = parents[0];
        let rest = parents.drop_first();
        let next = if walk.seen.contains(p) {
            walk
        } else {
            Walk { nodes: walk.nodes.push(p), seen: walk.seen.insert(p), ..walk }
        };
        assert(next.wf()) by {
            if !walk.seen.contains(p) {
                assert forall|i: int, j: int| 0 <= i < j < next.nodes.len() implies next.nodes[i]
                    != next.nodes[j] by {
                    if j == walk.nodes.len() {
                        assert(walk.seen.contains(walk.nodes[i]));
                    }
                }
            }
        }
        lemma_enqueue(next, rest);
        let last = next.enqueue(rest);
        assert(last == walk.enqueue(parents));
        assert(last.nodes.subrange(0, walk.nodes.len() as int) =~= walk.nodes) by {
            assert(last.nodes.subrange(0, next.nodes.len() as int) == next.nodes);
            assert forall|i: int| 0 <= i < walk.nodes.len() implies last.nodes[i]
                == walk.nodes[i] by {
                assert(last.nodes.subrange(0, next.nodes.len() as int)[i] == last.nodes[i]);
            }
        }
        assert forall|node: u64| #[trigger]
            last.seen.contains(node) <==> walk.seen.contains(node) || parents.contains(
                node,
            ) by {
            assert(next.seen.contains(node) <==> walk.seen.contains(node) || node == p);
            assert(last.seen.contains(node) <==> next.seen.contains(node) || rest.contains(node));
            if parents.contains(node) {
                let k = choose|k: int| 0 <= k < parents.len() && parents[k] == node;
                if k > 0 {
                    assert(rest[k - 1] == node);
                }
            }
            if rest.contains(node) {
                let k = choose|k: int| 0 <= k < rest.len() && rest[k] == node;
                assert(parents[k + 1] == node);
            }
            assert(parents[0] == p);
        }
        assert forall|node: u64| #[trigger]
            last.seen.contains(node) && !walk.seen.contains(node) implies last.nodes.contains(
            node,
        ) by {
            if !next.seen.contains(node) {
            } else {
                assert(node == p);
                assert(next.nodes[walk.nodes.len() as int] == p);
                assert(last.nodes.subrange(0, next.nodes.len() as int)[walk.nodes.len() as int]
                    == last.nodes[walk.nodes.len() as int]);
            }
        }
        assert forall|i: int| walk.nodes.len() <= i < last.nodes.len() implies parents.contains(
            #[trigger] last.nodes[i],
        ) && !walk.seen.contains(last.nodes[i]) by {
            if i < next.nodes.len() {
                assert(last.nodes.subrange(0, next.nodes.len() as int)[i] == last.nodes[i]);
                assert(last.nodes[i] == p);
                assert(parents[0] == p);
            } else {
                let node = last.nodes[i];
                assert(rest.contains(node));
                let k = choose|k: int| 0 <= k < rest.len() && rest[k] == node;
                assert(parents[k + 1] == node);
            }
        }
    }
}

/// A walk that has given up its next node, and counted it, is still in a
/// state that a walk can reach.
proof fn lemma_pop(walk: Walk)
    requires
        walk.wf(),
        walk.nodes.len() > 0,
    ensures
        (Walk { nodes: walk.nodes.drop_first(), length: walk.length + 1, ..walk }).wf(),
{
    let popped = Walk { nodes: walk.nodes.drop_first(), length: walk.length + 1, ..walk };
    assert forall|i: int| 0 <= i < popped.nodes.len() implies popped.seen.contains(
        #[trigger] popped.nodes[i],
    ) by {
        assert(popped.nodes[i] == walk.nodes[i + 1]);
    }
    assert forall|i: int, j: int| 0 <= i < j < popped.nodes.len() implies popped.nodes[i]
        != popped.nodes[j] by {
        assert(popped.nodes[i] == walk.nodes[i + 1]);
        assert(popped.nodes[j] == walk.nodes[j + 1]);
    }
}

/// A step never leaves the states that a walk can reach.
pub proof fn lemma_step_keeps_wf(
    walk: Walk,
    max_length: Option<u32>,
    path: RepoPathView,
    cache: Map<u64, FilenodeInfoView>,
    supplied: Supplied,
)
    requires
        walk.wf(),
    ensures
        walk.step(max_length, path, cache, supplied).0.wf(),
{
    let popped = Walk { nodes: walk.nodes.drop_first(), length: walk.length + 1, ..walk };
    if walk.nodes.len() > 0 {
        lemma_pop(walk);
        assert forall|parents: Seq<u64>| (#[trigger] popped.enqueue(parents)).wf() by {
            lemma_enqueue(popped, parents);
        }
    }
}

/// Whether the lookup of a node gives a record that a walk can turn into an
/// entry.
pub open spec fn gives_entry(lookups: Lookups, node: u64) -> bool {
    lookups(node) matches Ok(info) && info.copy_is_consistent()
}

/// A pull that produces an entry: the entry is that of the next node, which
/// leaves the frontier, and the parents that were not seen before join it.
proof fn lemma_pull_entry(
    history: History,
    max_length: Option<u32>,
    path: RepoPathView,
    lookups: Lookups,
)
    requires
        history.walk.wf(),
        history.walk.next_node(max_length) is Some,
        gives_entry(lookups, history.walk.nodes[0]),
    ensures
        ({
            let node = history.walk.nodes[0];
            let walk = history.walk;
            let next = history.pull(max_length, path, lookups);
            &&& next.entries == history.entries.push(entry_of(node, lookups(node)->Ok_0))
            &&& next.error == history.error
            &&& next.walk.wf()
            &&& next.walk.length == walk.length + 1
            &&& walk.nodes.contains(node)
            &&& walk.seen.contains(node)
            &&& forall|x: u64| #[trigger]
                next.walk.seen.contains(x) <==> walk.seen.contains(x) || is_parent(lookups, node, x)
            &&& forall|x: u64| #[trigger]
                next.walk.nodes.contains(x) <==> (walk.nodes.contains(x) && x != node) || (
                !walk.seen.contains(x) && is_parent(lookups, node, x))
        }),
{
    let walk = history.walk;
    let node = walk.nodes[0];
    let info = lookups(node)->Ok_0;
    let parents = info.parents().hashes();
    let next = history.pull(max_length, path, lookups);
    let popped = Walk { nodes: walk.nodes.drop_first(), length: walk.length + 1, ..walk };
    assert(walk.nodes.contains(node));
    lemma_pop(walk);
    lemma_enqueue(popped, parents);
    let after = popped.enqueue(parents);
    assert(next.walk == after);
    assert forall|x: u64| #[trigger]
        after.nodes.contains(x) <==> (walk.nodes.contains(x) && x != node) || (!walk.seen.contains(
            x,
        ) && is_parent(lookups, node, x)) by {
        if after.nodes.contains(x) {
            let k = choose|k: int| 0 <= k < after.nodes.len() && after.nodes[k] == x;
            if k < popped.nodes.len() {
                assert(after.nodes.subrange(0, popped.nodes.len() as int)[k] == after.nodes[k]);
                assert(popped.nodes[k] == walk.nodes[k + 1]);
            }
        }
        if walk.nodes.contains(x) && x != node {
            let k = choose|k: int| 0 <= k < walk.nodes.len() && walk.nodes[k] == x;
            assert(popped.nodes[k - 1] == x);
            assert(after.nodes.subrange(0, popped.nodes.len() as int)[k - 1] == after.nodes[k - 1]);
        }
        if !walk.seen.contains(x) && is_parent(lookups, node, x) {
            assert(after.seen.contains(x));
        }
    }
}

/// A pull that fails: nothing is pending afterwards, and no entry is added.
proof fn lemma_pull_failure(
    history: History,
    max_length: Option<u32>,
    path: RepoPathView,
    lookups: Lookups,
)
    requires
        history.walk.next_node(max_length) is Some,
        !gives_entry(lookups, history.walk.nodes[0]),
    ensures
        history.pull(max_length, path, lookups).walk == history.walk.abandon(),
        history.pull(max_length, path, lookups).entries == history.entries,
        history.pull(max_length, path, lookups).error is Some,
{
}

/// The count of a history is right: the walk is in a reachable state, it has
/// counted its entries, none exceeds the bound, and a failure has emptied the
/// frontier.
pub open spec fn counted(history: History, max_length: Option<u32>) -> bool {
    &&& history.walk.wf()
    &&& history.walk.length == history.entries.len()
    &&& max_length matches Some(max_length) ==> history.entries.len() <= max_length
    &&& history.error is Some ==> history.walk.nodes.len() == 0
}

/// Each entry is what the record of its filenode gives; its filenode was
/// seen and is no longer pending; no filenode has two entries.
pub open spec fn entries_sound(history: History, lookups: Lookups) -> bool {
    &&& filenodes_of(history.entries).no_duplicates()
    &&& forall|i: int|
        0 <= i < history.entries.len() ==> {
            let node = (#[trigger] history.entries[i]).node.0;
            &&& gives_entry(lookups, node)
            &&& history.entries[i] == entry_of(node, lookups(node)->Ok_0)
            &&& history.walk.seen.contains(node)
            &&& !history.walk.nodes.contains(node)
        }
}

/// The parents that the entries name were all seen.
pub open spec fn parents_seen(history: History, lookups: Lookups) -> bool {
    forall|i: int, parent: u64|
        0 <= i < history.entries.len() && #[trigger] is_parent(
            lookups,
            history.entries[i].node.0,
            parent,
        ) ==> history.walk.seen.contains(parent)
}

/// Unless the walk failed, a node that was seen is pending or has its entry.
pub open spec fn seen_accounted(history: History) -> bool {
    history.error is None ==> forall|node: u64| #[trigger]
        history.walk.seen.contains(node) ==> history.walk.nodes.contains(node) || filenodes_of(
            history.entries,
        ).contains(node)
}

/// Whether one of the first `upto` entries names `node` as a parent.
pub open spec fn named_by_entry(
    entries: Seq<HgFileHistoryEntryView>,
    lookups: Lookups,
    node: u64,
    upto: int,
) -> bool {
    exists|i: int|
        0 <= i < upto && i < entries.len() && #[trigger] is_parent(lookups, entries[i].node.0, node)
}

/// Where the seen nodes come from: only the start was seen unasked, every
/// other was named as a parent by an entry, and all are the start or
/// ancestors of it. The start, if it has an entry, has the first.
pub open spec fn seen_rooted(history: History, startnode: u64, lookups: Lookups) -> bool {
    &&& startnode == NULL_HASH ==> history.walk.seen.is_empty()
    &&& startnode != NULL_HASH ==> history.walk.seen.contains(startnode)
    &&& history.entries.len() > 0 ==> history.entries[0].node.0 == startnode
    &&& forall|node: u64| #[trigger]
        history.walk.seen.contains(node) ==> reachable(lookups, startnode, node)
    &&& forall|node: u64| #[trigger]
        history.walk.seen.contains(node) && node != startnode ==> named_by_entry(
            history.entries,
            lookups,
            node,
            history.entries.len() as int,
        )
}

/// Every entry but the first is a parent of an earlier entry.
pub open spec fn ordered(history: History, lookups: Lookups) -> bool {
    forall|j: int|
        0 < j < history.entries.len() ==> named_by_entry(
            history.entries,
            lookups,
            (#[trigger] history.entries[j]).node.0,
            j,
        )
}

/// What holds of a history at every moment of a walk from `startnode`.
pub open spec fn consistent(
    history: History,
    startnode: u64,
    max_length: Option<u32>,
    lookups: Lookups,
) -> bool {
    &&& counted(history, max_length)
    &&& entries_sound(history, lookups)
    &&& parents_seen(history, lookups)
    &&& seen_accounted(history)
    &&& seen_rooted(history, startnode, lookups)
    &&& ordered(history, lookups)
}

proof fn lemma_begin_is_consistent(startnode: u64, max_length: Option<u32>, lookups: Lookups)
    ensures
        consistent(History::begin(startnode), startnode, max_length, lookups),
{
    let history = History::begin(startnode);
    assert(filenodes_of(history.entries) =~= Seq::<u64>::empty());
    assert(reaches(lookups, startnode, startnode, 0));
    if startnode != NULL_HASH {
        assert(history.walk.nodes[0] == startnode);
        assert(history.walk.seen.len() == 1);
    }
}

proof fn lemma_hop(lookups: Lookups, from: u64, mid: u64, to: u64)
    requires
        reachable(lookups, from, mid),
        is_parent(lookups, mid, to),
    ensures
        reachable(lookups, from, to),
{
    let hops = choose|hops: nat| reaches(lookups, from, mid, hops);
    assert(reaches(lookups, from, mid, ((hops + 1) - 1) as nat));
    assert(reaches(lookups, from, to, hops + 1));
}

proof fn lemma_pull_keeps_counted(
    history: History,
    max_length: Option<u32>,
    path: RepoPathView,
    lookups: Lookups,
)
    requires
        counted(history, max_length),
    ensures
        counted(history.pull(max_length, path, lookups), max_length),
{
    if history.walk.next_node(max_length) is Some {
        if gives_entry(lookups, history.walk.nodes[0]) {
            lemma_pull_entry(history, max_length, path, lookups);
        } else {
            lemma_pull_failure(history, max_length, path, lookups);
        }
    }
}

proof fn lemma_pull_keeps_entries_sound(
    history: History,
    max_length: Option<u32>,
    path: RepoPathView,
    lookups: Lookups,
)
    requires
        history.walk.wf(),
        entries_sound(history, lookups),
    ensures
        entries_sound(history.pull(max_length, path, lookups), lookups),
{
    let next = history.pull(max_length, path, lookups);
    let entries = history.entries;
    if history.walk.next_node(max_length) is Some {
        let node = history.walk.nodes[0];
        if gives_entry(lookups, node) {
            lemma_pull_entry(history, max_length, path, lookups);
            let count = entries.len() as int;
            assert(!filenodes_of(entries).contains(node)) by {
                if filenodes_of(entries).contains(node) {
                    let i = choose|i: int|
                        0 <= i < filenodes_of(entries).len() && filenodes_of(entries)[i] == node;
                    assert(entries[i].node.0 == node);
                }
            }
            assert(filenodes_of(next.entries) =~= filenodes_of(entries).push(node));
            assert forall|i: int| 0 <= i < next.entries.len() implies {
                let n = (#[trigger] next.entries[i]).node.0;
                &&& gives_entry(lookups, n)
                &&& next.entries[i] == entry_of(n, lookups(n)->Ok_0)
                &&& next.walk.seen.contains(n)
                &&& !next.walk.nodes.contains(n)
            } by {
                if i < count {
                    assert(next.entries[i] == entries[i]);
                    assert(history.walk.seen.contains(entries[i].node.0));
                }
            }
        } else {
            lemma_pull_failure(history, max_length, path, lookups);
            assert forall|i: int| 0 <= i < next.entries.len() implies !next.walk.nodes.contains(
                (#[trigger] next.entries[i]).node.0,
            ) by {}
        }
    }
}

proof fn lemma_pull_keeps_parents_seen(
    history: History,
    max_length: Option<u32>,
    path: RepoPathView,
    lookups: Lookups,
)
    requires
        history.walk.wf(),
        parents_seen(history, lookups),
    ensures
        parents_seen(history.pull(max_length, path, lookups), lookups),
{
    let next = history.pull(max_length, path, lookups);
    let entries = history.entries;
    if history.walk.next_node(max_length) is Some {
        let node = history.walk.nodes[0];
        if gives_entry(lookups, node) {
            lemma_pull_entry(history, max_length, path, lookups);
            assert forall|i: int, parent: u64|
                0 <= i < next.entries.len() && #[trigger] is_parent(
                    lookups,
                    next.entries[i].node.0,
                    parent,
                ) implies next.walk.seen.contains(parent) by {
                if i < entries.len() {
                    assert(next.entries[i] == entries[i]);
                    assert(is_parent(lookups, entries[i].node.0, parent));
                    assert(history.walk.seen.contains(parent));
                }
            }
        } else {
            lemma_pull_failure(history, max_length, path, lookups);
        }
    }
}

proof fn lemma_pull_keeps_seen_accounted(
    history: History,
    max_length: Option<u32>,
    path: RepoPathView,
    lookups: Lookups,
)
    requires
        history.walk.wf(),
        seen_accounted(history),
    ensures
        seen_accounted(history.pull(max_length, path, lookups)),
{
    let next = history.pull(max_length, path, lookups);
    let entries = history.entries;
    if history.walk.next_node(max_length) is Some {
        let node = history.walk.nodes[0];
        if gives_entry(lookups, node) {
            lemma_pull_entry(history, max_length, path, lookups);
            let count = entries.len() as int;
            assert(filenodes_of(next.entries) =~= filenodes_of(entries).push(node));
            if history.error is None {
                assert forall|x: u64| #[trigger]
                    next.walk.seen.contains(x) implies next.walk.nodes.contains(x) || filenodes_of(
                    next.entries,
                ).contains(x) by {
                    if history.walk.seen.contains(x) {
                        if x == node {
                            assert(filenodes_of(next.entries)[count] == node);
                        } else if history.walk.nodes.contains(x) {
                        } else {
                            let i = choose|i: int|
                                0 <= i < filenodes_of(entries).len() && filenodes_of(entries)[i]
                                    == x;
                            assert(filenodes_of(next.entries)[i] == x);
                        }
                    }
                }
            }
        } else {
            lemma_pull_failure(history, max_length, path, lookups);
        }
    }
}

proof fn lemma_pull_keeps_rooted_and_ordered(
    history: History,
    startnode: u64,
    max_length: Option<u32>,
    path: RepoPathView,
    lookups: Lookups,
)
    requires
        history.walk.wf(),
        entries_sound(history, lookups),
        seen_rooted(history, startnode, lookups),
        ordered(history, lookups),
    ensures
        seen_rooted(history.pull(max_length, path, lookups), startnode, lookups),
        ordered(history.pull(max_length, path, lookups), lookups),
{
    let next = history.pull(max_length, path, lookups);
    let entries = history.entries;
    if history.walk.next_node(max_length) is Some {
        let node = history.walk.nodes[0];
        if gives_entry(lookups, node) {
            lemma_pull_entry(history, max_length, path, lookups);
            let count = entries.len() as int;
            assert(next.entries[count].node.0 == node);
            assert forall|i: int| 0 <= i < count implies #[trigger] next.entries[i]
                == entries[i] by {}
            assert forall|x: u64| #[trigger] next.walk.seen.contains(x) implies reachable(
                lookups,
                startnode,
                x,
            ) by {
                if !history.walk.seen.contains(x) {
                    lemma_hop(lookups, startnode, node, x);
                }
            }
            assert forall|x: u64| #[trigger]
                next.walk.seen.contains(x) && x != startnode implies named_by_entry(
                next.entries,
                lookups,
                x,
                next.entries.len() as int,
            ) by {
                if history.walk.seen.contains(x) {
                    let i = choose|i: int|
                        0 <= i < count && i < entries.len() && #[trigger] is_parent(
                            lookups,
                            entries[i].node.0,
                            x,
                        );
                    assert(next.entries[i] == entries[i]);
                    assert(is_parent(lookups, next.entries[i].node.0, x));
                } else {
                    assert(is_parent(lookups, next.entries[count].node.0, x));
                }
            }
            // Before anything was produced, only the start had been seen.
            if count == 0 && node != startnode {
                assert(named_by_entry(entries, lookups, node, 0));
            }
            assert forall|j: int| 0 < j < next.entries.len() implies named_by_entry(
                next.entries,
                lookups,
                (#[trigger] next.entries[j]).node.0,
                j,
            ) by {
                let target = if j < count {
                    entries[j].node.0
                } else {
                    node
                };
                if j == count {
                    // The start has the first entry, and this node has none
                    // yet, so this node is not the start.
                    assert(entries[0].node.0 == startnode);
                    assert(!history.walk.nodes.contains(entries[0].node.0));
                    assert(node != startnode);
                    assert(named_by_entry(entries, lookups, node, count));
                } else {
                    assert(next.entries[j] == entries[j]);
                    assert(named_by_entry(entries, lookups, entries[j].node.0, j));
                }
                let i = choose|i: int|
                    0 <= i < j && i < entries.len() && #[trigger] is_parent(
                        lookups,
                        entries[i].node.0,
                        target,
                    );
                assert(next.entries[i] == entries[i]);
                assert(is_parent(lookups, next.entries[i].node.0, target));
            }
        } else {
            lemma_pull_failure(history, max_length, path, lookups);
        }
    }
}

proof fn lemma_pull_keeps_consistent(
    history: History,
    startnode: u64,
    max_length: Option<u32>,
    path: RepoPathView,
    lookups: Lookups,
)
    requires
        consistent(history, startnode, max_length, lookups),
    ensures
        consistent(history.pull(max_length, path, lookups), startnode, max_length, lookups),
{
    lemma_pull_keeps_counted(history, max_length, path, lookups);
    lemma_pull_keeps_entries_sound(history, max_length, path, lookups);
    lemma_pull_keeps_parents_seen(history, max_length, path, lookups);
    lemma_pull_keeps_seen_accounted(history, max_length, path, lookups);
    lemma_pull_keeps_rooted_and_ordered(history, startnode, max_length, path, lookups);
}

/// A history stays consistent however often it is pulled.
pub proof fn lemma_after_is_consistent(
    startnode: u64,
    max_length: Option<u32>,
    path: RepoPathView,
    lookups: Lookups,
    pulls: nat,
)
    ensures
        consistent(
            History::after(startnode, max_length, path, lookups, pulls),
            startnode,
            max_length,
            lookups,
        ),
    decreases pulls,
{
    if pulls == 0 {
        lemma_begin_is_consistent(startnode, max_length, lookups);
    } else {
        lemma_after_is_consistent(startnode, max_length, path, lookups, (pulls - 1) as nat);
        lemma_pull_keeps_consistent(
            History::after(startnode, max_length, path, lookups, (pulls - 1) as nat),
            startnode,
            max_length,
            path,
            lookups,
        );
    }
}

/// The start of a walk and all its ancestors; nothing where the start
/// stands for "no file".
pub open spec fn ancestry(lookups: Lookups, startnode: u64) -> Set<u64> {
    if startnode == NULL_HASH {
        Set::empty()
    } else {
        Set::new(|node: u64| reachable(lookups, startnode, node))
    }
}

/// The number of 64-bit hash keys.
pub open spec fn hash_keys() -> nat {
    0x1_0000_0000_0000_0000
}

/// A set of hash keys is finite, with no more elements than there are keys.
pub proof fn lemma_hash_keys_are_finite(nodes: Set<u64>)
    ensures
        nodes.finite(),
        nodes.len() <= hash_keys(),
{
    let range = vstd::set_lib::set_int_range(0, hash_keys() as int);
    vstd::set_lib::lemma_int_range(0, hash_keys() as int);
    let narrow = |i: int| i as u64;
    let all = range.map(narrow);
    vstd::set_lib::lemma_map_size_bound(range, all, narrow);
    assert forall|node: u64| nodes.contains(node) implies all.contains(node) by {
        assert(range.contains(node as int));
        assert(narrow(node as int) == node);
    }
    vstd::set_lib::lemma_len_subset(nodes, all);
}

/// No filenode has two entries: a walk visits each node at most once.
pub proof fn law_each_node_once(
    startnode: u64,
    max_length: Option<u32>,
    path: RepoPathView,
    lookups: Lookups,
    pulls: nat,
)
    ensures
        filenodes_of(
            History::after(startnode, max_length, path, lookups, pulls).entries,
        ).no_duplicates(),
{
    lemma_after_is_consistent(startnode, max_length, path, lookups, pulls);
}

/// The history of "no file" is empty, and that is no failure.
pub proof fn law_no_file_has_no_history(
    max_length: Option<u32>,
    path: RepoPathView,
    lookups: Lookups,
    pulls: nat,
)
    ensures
        History::after(NULL_HASH, max_length, path, lookups, pulls).entries.len() == 0,
        History::after(NULL_HASH, max_length, path, lookups, pulls).error is None,
        History::after(NULL_HASH, max_length, path, lookups, pulls).at_rest(max_length),
    decreases pulls,
{
    if pulls > 0 {
        law_no_file_has_no_history(max_length, path, lookups, (pulls - 1) as nat);
    }
}

/// A walk never produces more entries than its bound allows, nor more than
/// one per pull.
pub proof fn law_length_is_bounded(
    startnode: u64,
    max_length: Option<u32>,
    path: RepoPathView,
    lookups: Lookups,
    pulls: nat,
)
    ensures
        max_length matches Some(max_length) ==> History::after(
            startnode,
            Some(max_length),
            path,
            lookups,
            pulls,
        ).entries.len() <= max_length,
        History::after(startnode, max_length, path, lookups, pulls).entries.len() <= pulls,
    decreases pulls,
{
    lemma_after_is_consistent(startnode, max_length, path, lookups, pulls);
    if pulls > 0 {
        law_length_is_bounded(startnode, max_length, path, lookups, (pulls - 1) as nat);
    }
}

/// Until a walk is over, every pull produces an entry.
pub proof fn law_every_pull_yields(
    startnode: u64,
    max_length: Option<u32>,
    path: RepoPathView,
    lookups: Lookups,
    pulls: nat,
)
    ensures
        History::after(startnode, max_length, path, lookups, pulls).entries.len() == pulls
            || History::after(startnode, max_length, path, lookups, pulls).at_rest(max_length),
    decreases pulls,
{
    if pulls > 0 {
        let before = History::after(startnode, max_length, path, lookups, (pulls - 1) as nat);
        law_every_pull_yields(startnode, max_length, path, lookups, (pulls - 1) as nat);
        lemma_after_is_consistent(startnode, max_length, path, lookups, (pulls - 1) as nat);
        if before.walk.next_node(max_length) is Some {
            if gives_entry(lookups, before.walk.nodes[0]) {
                lemma_pull_entry(before, max_length, path, lookups);
            } else {
                lemma_pull_failure(before, max_length, path, lookups);
            }
        }
    }
}

/// Once a walk is over, further pulls change nothing and produce nothing.
pub proof fn law_rest_is_final(
    startnode: u64,
    max_length: Option<u32>,
    path: RepoPathView,
    lookups: Lookups,
    pulls: nat,
    more: nat,
)
    requires
        History::after(startnode, max_length, path, lookups, pulls).at_rest(max_length),
    ensures
        History::after(startnode, max_length, path, lookups, pulls + more) == History::after(
            startnode,
            max_length,
            path,
            lookups,
            pulls,
        ),
    decreases more,
{
    if more > 0 {
        law_rest_is_final(startnode, max_length, path, lookups, pulls, (more - 1) as nat);
        assert(pulls + more - 1 == pulls + (more - 1) as nat);
    }
}

/// A walk is over after at most as many pulls as there are hash keys,
/// whatever the records say: parents that loop back cannot keep it going.
/// A bounded walk is over after as many pulls as its bound.
pub proof fn law_walk_comes_to_rest(
    startnode: u64,
    max_length: Option<u32>,
    path: RepoPathView,
    lookups: Lookups,
    pulls: nat,
)
    requires
        pulls >= hash_keys() || (max_length matches Some(max_length) && pulls >= max_length),
    ensures
        History::after(startnode, max_length, path, lookups, pulls).at_rest(max_length),
{
    let history = History::after(startnode, max_length, path, lookups, pulls);
    law_every_pull_yields(startnode, max_length, path, lookups, pulls);
    lemma_after_is_consistent(startnode, max_length, path, lookups, pulls);
    lemma_hash_keys_are_finite(history.walk.seen);
}

/// A failure ends the walk: no entry follows it.
pub proof fn law_no_entry_after_failure(
    startnode: u64,
    max_length: Option<u32>,
    path: RepoPathView,
    lookups: Lookups,
    pulls: nat,
    more: nat,
)
    requires
        History::after(startnode, max_length, path, lookups, pulls).error is Some,
    ensures
        History::after(startnode, max_length, path, lookups, pulls + more) == History::after(
            startnode,
            max_length,
            path,
            lookups,
            pulls,
        ),
{
    lemma_after_is_consistent(startnode, max_length, path, lookups, pulls);
    law_rest_is_final(startnode, max_length, path, lookups, pulls, more);
}

/// A step that fails leaves the walk over, and a step of a walk that is over
/// hands out nothing and changes nothing, whatever is supplied.
pub proof fn law_failed_step_ends_walk(
    walk: Walk,
    max_length: Option<u32>,
    path: RepoPathView,
    cache: Map<u64, FilenodeInfoView>,
    supplied: Supplied,
)
    ensures
        walk.step(max_length, path, cache, supplied).1 is Failed ==> walk.step(
            max_length,
            path,
            cache,
            supplied,
        ).0.next_node(max_length) is None,
        walk.next_node(max_length) is None ==> walk.step(max_length, path, cache, supplied) == (
            walk,
            StepView::Done,
        ),
{
}

/// A record that names a directory as the source of a copy fails the walk
/// with that inconsistency, and leaves the walk over.
pub proof fn law_copy_from_directory_fails(
    walk: Walk,
    max_length: Option<u32>,
    path: RepoPathView,
    cache: Map<u64, FilenodeInfoView>,
    supplied: Supplied,
    info: FilenodeInfoView,
    from: RepoPathView,
)
    requires
        walk.next_node(max_length) matches Some(node) && Some(
            Ok::<FilenodeInfoView, Seq<char>>(info),
        ) == (if cache.dom().contains(node) {
            Some(Ok(cache[node]))
        } else {
            supplied
        }),
        info.copyfrom matches Some((source, _)) && source == from,
        from is DirectoryPath,
    ensures
        walk.step(max_length, path, cache, supplied) == (
            walk.abandon(),
            StepView::Failed(
                ErrorKindView::InconsistentCopyInfo(path, from),
            ),
        ),
        walk.step(max_length, path, cache, supplied).0.next_node(max_length) is None,
{
}

/// Each entry is the one that the record of its filenode gives, and that
/// record names no directory as the source of a copy.
pub proof fn law_entries_follow_records(
    startnode: u64,
    max_length: Option<u32>,
    path: RepoPathView,
    lookups: Lookups,
    pulls: nat,
)
    ensures
        ({
            let entries = History::after(startnode, max_length, path, lookups, pulls).entries;
            forall|i: int|
                0 <= i < entries.len() ==> {
                    let node = (#[trigger] entries[i]).node.0;
                    &&& lookups(node) matches Ok(info)
                    &&& info.copy_is_consistent()
                    &&& entries[i] == entry_of(node, info)
                }
        }),
{
    lemma_after_is_consistent(startnode, max_length, path, lookups, pulls);
}

/// Every entry is of the start or of an ancestor of it, the first entry is
/// of the start, and every other entry is of a parent of an earlier entry:
/// a node never comes before all of the nodes it can be reached through.
pub proof fn law_parents_follow_children(
    startnode: u64,
    max_length: Option<u32>,
    path: RepoPathView,
    lookups: Lookups,
    pulls: nat,
)
    ensures
        ({
            let entries = History::after(startnode, max_length, path, lookups, pulls).entries;
            &&& entries.len() > 0 ==> entries[0].node.0 == startnode
            &&& forall|j: int|
                0 <= j < entries.len() ==> reachable(
                    lookups,
                    startnode,
                    (#[trigger] entries[j]).node.0,
                )
            &&& forall|j: int|
                0 < j < entries.len() ==> named_by_entry(
                    entries,
                    lookups,
                    (#[trigger] entries[j]).node.0,
                    j,
                )
        }),
{
    lemma_after_is_consistent(startnode, max_length, path, lookups, pulls);
    let history = History::after(startnode, max_length, path, lookups, pulls);
    let entries = history.entries;
    assert forall|j: int| 0 <= j < entries.len() implies reachable(
        lookups,
        startnode,
        (#[trigger] entries[j]).node.0,
    ) by {
        assert(history.walk.seen.contains(entries[j].node.0));
    }
}

proof fn lemma_ancestors_were_seen(
    history: History,
    startnode: u64,
    max_length: Option<u32>,
    lookups: Lookups,
    node: u64,
    hops: nat,
)
    requires
        consistent(history, startnode, max_length, lookups),
        history.error is None,
        history.walk.nodes.len() == 0,
        startnode != NULL_HASH,
        reaches(lookups, startnode, node, hops),
    ensures
        history.walk.seen.contains(node),
        filenodes_of(history.entries).contains(node),
    decreases hops,
{
    if hops > 0 {
        let mid = choose|mid: u64|
            reaches(lookups, startnode, mid, (hops - 1) as nat) && #[trigger] is_parent(
                lookups,
                mid,
                node,
            );
        lemma_ancestors_were_seen(history, startnode, max_length, lookups, mid, (hops - 1) as nat);
        let i = choose|i: int|
            0 <= i < filenodes_of(history.entries).len() && filenodes_of(history.entries)[i]
                == mid;
        assert(history.entries[i].node.0 == mid);
        assert(is_parent(lookups, history.entries[i].node.0, node));
    }
    assert(history.walk.seen.contains(node));
}

/// A walk that came to rest without a failure has produced exactly as many
/// entries as its bound allows or as the start has ancestors, itself
/// counted, whichever is less; an unbounded walk has produced an entry for
/// each of them. Where the bound did not stop the walk, the entries are
/// those of the start and all its ancestors.
pub proof fn law_length_of_history(
    startnode: u64,
    max_length: Option<u32>,
    path: RepoPathView,
    lookups: Lookups,
    pulls: nat,
)
    requires
        History::after(startnode, max_length, path, lookups, pulls).at_rest(max_length),
        History::after(startnode, max_length, path, lookups, pulls).error is None,
    ensures
        ({
            let history = History::after(startnode, max_length, path, lookups, pulls);
            let total = ancestry(lookups, startnode);
            &&& total.finite()
            &&& history.entries.len() == match max_length {
                Some(max_length) => if max_length <= total.len() {
                    max_length as nat
                } else {
                    total.len()
                },
                None => total.len(),
            }
            &&& !history.walk.limit_reached(max_length) ==> filenodes_of(history.entries).to_set()
                == total
        }),
{
    let history = History::after(startnode, max_length, path, lookups, pulls);
    let total = ancestry(lookups, startnode);
    let nodes = filenodes_of(history.entries);
    lemma_after_is_consistent(startnode, max_length, path, lookups, pulls);
    lemma_hash_keys_are_finite(total);
    nodes.unique_seq_to_set();
    assert(nodes.to_set().subset_of(total)) by {
        assert forall|node: u64| nodes.to_set().contains(node) implies total.contains(node) by {
            let i = choose|i: int| 0 <= i < nodes.len() && nodes[i] == node;
            assert(history.entries[i].node.0 == node);
            assert(history.walk.seen.contains(node));
            assert(!history.walk.seen.is_empty());
        }
    }
    vstd::set_lib::lemma_len_subset(nodes.to_set(), total);
    if history.walk.nodes.len() == 0 {
        assert forall|node: u64| total.contains(node) implies nodes.to_set().contains(node) by {
            let hops = choose|hops: nat| reaches(lookups, startnode, node, hops);
            lemma_ancestors_were_seen(history, startnode, max_length, lookups, node, hops);
        }
        assert(nodes.to_set() =~= total);
    }
}

/// Whether a cache holds the record of every node that a walk in the given
/// state can still come to: of every pending node, and of every parent that
/// a record in the cache names.
pub open spec fn cache_covers(cache: Map<u64, FilenodeInfoView>, walk: Walk) -> bool {
    &&& forall|i: int| 0 <= i < walk.nodes.len() ==> cache.dom().contains(#[trigger] walk.nodes[i])
    &&& forall|node: u64, parent: u64|
        cache.dom().contains(node) && #[trigger] cache[node].parents().hashes().contains(parent)
            ==> cache.dom().contains(parent)
}

/// With a cache that covers the walk, no step asks for a lookup, and the
/// cache still covers the walk after the step.
pub proof fn law_covering_cache_needs_no_lookup(
    walk: Walk,
    max_length: Option<u32>,
    path: RepoPathView,
    cache: Map<u64, FilenodeInfoView>,
)
    requires
        walk.wf(),
        cache_covers(cache, walk),
    ensures
        !(walk.step(max_length, path, cache, None).1 is Fetch),
        cache_covers(cache, walk.step(max_length, path, cache, None).0),
{
    if walk.next_node(max_length) is Some {
        let node = walk.nodes[0];
        let info = cache[node];
        let parents = info.parents().hashes();
        let popped = Walk { nodes: walk.nodes.drop_first(), length: walk.length + 1, ..walk };
        let after = walk.step(max_length, path, cache, None).0;
        if after == popped.enqueue(parents) {
            lemma_pop(walk);
            lemma_enqueue(popped, parents);
            assert forall|i: int| 0 <= i < after.nodes.len() implies cache.dom().contains(
                #[trigger] after.nodes[i],
            ) by {
                if i < popped.nodes.len() {
                    assert(after.nodes.subrange(0, popped.nodes.len() as int)[i] == after.nodes[i]);
                    assert(popped.nodes[i] == walk.nodes[i + 1]);
                } else {
                    assert(parents.contains(after.nodes[i]));
                }
            }
        }
    }
}

/// A step takes the record of the next node from the cache or from what was
/// supplied, and for the rest it does not matter which: the step is the one
/// that a pull of a history takes when the lookup of the node gives that
/// record. So a caller that steps a walker and supplies, for each node asked
/// for, what `lookups` gives, produces the history that the laws speak of.
pub proof fn law_step_is_a_pull(
    history: History,
    max_length: Option<u32>,
    path: RepoPathView,
    cache: Map<u64, FilenodeInfoView>,
    supplied: Supplied,
    lookups: Lookups,
)
    requires
        history.walk.next_node(max_length) matches Some(node) && Some(lookups(node)) == (
        if cache.dom().contains(node) {
            Some(Ok(cache[node]))
        } else {
            supplied
        }),
    ensures
        history.pull(max_length, path, lookups).walk == history.walk.step(
            max_length,
            path,
            cache,
            supplied,
        ).0,
        history.walk.step(max_length, path, cache, supplied).1 matches StepView::Entry(
            entry,
        ) ==> history.pull(max_length, path, lookups).entries == history.entries.push(entry),
        history.walk.step(max_length, path, cache, supplied).1 matches StepView::Failed(
            error,
        ) ==> history.pull(max_length, path, lookups).error == Some(error),
{
}

/// The history of a start node is what pulling gives from the moment the
/// walk begins.
pub proof fn law_after_is_pulled(
    startnode: u64,
    max_length: Option<u32>,
    path: RepoPathView,
    lookups: Lookups,
    pulls: nat,
)
    ensures
        History::after(startnode, max_length, path, lookups, pulls) == History::begin(
            startnode,
        ).pulled(max_length, path, lookups, pulls),
    decreases pulls,
{
    if pulls > 0 {
        law_after_is_pulled(startnode, max_length, path, lookups, (pulls - 1) as nat);
    }
}

/// The room that a walk has left: how many hash keys it has not seen, and
/// how many nodes are pending. Every entry that a walk produces takes one
/// away, so a walk cannot go on for ever.
pub open spec fn room(walk: Walk) -> int {
    hash_keys() - walk.seen.len() + walk.nodes.len()
}

/// Producing an entry leaves a walk in a state that a walk can reach, with
/// less room than before, and room never runs out below nothing.
pub proof fn lemma_visit_takes_room(walk: Walk, parents: Seq<u64>)
    requires
        walk.wf(),
        walk.nodes.len() > 0,
    ensures
        walk.visit(parents).wf(),
        room(walk.visit(parents)) == room(walk) - 1,
        room(walk.visit(parents)) >= 0,
{
    lemma_pop(walk);
    let popped = Walk { nodes: walk.nodes.drop_first(), length: walk.length + 1, ..walk };
    lemma_enqueue(popped, parents);
    lemma_hash_keys_are_finite(walk.visit(parents).seen);
}

/// An entry whose filenode is not among the filenodes of the entries up to
/// it is reached from the start without coming to that filenode.
proof fn lemma_reached_avoiding(
    history: History,
    startnode: u64,
    lookups: Lookups,
    j: int,
    avoid: u64,
)
    requires
        seen_rooted(history, startnode, lookups),
        ordered(history, lookups),
        0 <= j < history.entries.len(),
        forall|i: int| 0 <= i <= j ==> (#[trigger] history.entries[i]).node.0 != avoid,
    ensures
        reachable_avoiding(lookups, startnode, history.entries[j].node.0, avoid),
    decreases j,
{
    let entries = history.entries;
    if j == 0 {
        assert(reaches_avoiding(lookups, startnode, entries[0].node.0, avoid, 0));
    } else {
        assert(named_by_entry(entries, lookups, entries[j].node.0, j));
        let i = choose|i: int|
            0 <= i < j && i < entries.len() && #[trigger] is_parent(
                lookups,
                entries[i].node.0,
                entries[j].node.0,
            );
        lemma_reached_avoiding(history, startnode, lookups, i, avoid);
        let hops = choose|hops: nat|
            reaches_avoiding(lookups, startnode, entries[i].node.0, avoid, hops);
        assert(reaches_avoiding(
            lookups,
            startnode,
            entries[i].node.0,
            avoid,
            ((hops + 1) - 1) as nat,
        ));
        assert(reaches_avoiding(lookups, startnode, entries[j].node.0, avoid, hops + 1));
    }
}

/// A node comes no later than any node that is reached only through it:
/// where every line of parents from the start to the filenode of an entry
/// comes to another filenode, that filenode has an earlier entry.
pub proof fn law_entry_follows_what_it_is_reached_through(
    startnode: u64,
    max_length: Option<u32>,
    path: RepoPathView,
    lookups: Lookups,
    pulls: nat,
    j: int,
    through: u64,
)
    requires
        0 <= j < History::after(startnode, max_length, path, lookups, pulls).entries.len(),
        History::after(startnode, max_length, path, lookups, pulls).entries[j].node.0 != through,
        !reachable_avoiding(
            lookups,
            startnode,
            History::after(startnode, max_length, path, lookups, pulls).entries[j].node.0,
            through,
        ),
    ensures
        exists|i: int|
            0 <= i < j && (#[trigger] History::after(
                startnode,
                max_length,
                path,
                lookups,
                pulls,
            ).entries[i]).node.0 == through,
{
    let history = History::after(startnode, max_length, path, lookups, pulls);
    lemma_after_is_consistent(startnode, max_length, path, lookups, pulls);
    lemma_reached_through(history, startnode, lookups, j, through);
}

proof fn lemma_reached_through(
    history: History,
    startnode: u64,
    lookups: Lookups,
    j: int,
    through: u64,
)
    requires
        seen_rooted(history, startnode, lookups),
        ordered(history, lookups),
        0 <= j < history.entries.len(),
        history.entries[j].node.0 != through,
        !reachable_avoiding(lookups, startnode, history.entries[j].node.0, through),
    ensures
        exists|i: int| 0 <= i < j && (#[trigger] history.entries[i]).node.0 == through,
{
    if !(exists|i: int| 0 <= i < j && (#[trigger] history.entries[i]).node.0 == through) {
        assert forall|i: int| 0 <= i <= j implies (#[trigger] history.entries[i]).node.0
            != through by {}
        lemma_reached_avoiding(history, startnode, lookups, j, through);
    }
}

} // verus!
