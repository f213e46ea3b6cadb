use std::collections::HashMap;

use file_history::error::ErrorKind;
use file_history::prefetch::prefetch_history;
use file_history::related::{check_if_related, history_contains, FilenodesRelatedResult};
use file_history::resolve::{get_maybe_missing_filenode, FilenodeResult, Resolution};
use file_history::types::{
    FilenodeInfo, HgChangesetId, HgFileHistoryEntry, HgFileNodeId, HgParents, MPath, RepoPath,
    NULL_HASH,
};
use file_history::walker::{
    get_file_history, get_file_history_using_prefetched, HistoryWalker, Step,
};

const F1: u64 = 0x11;
const F2: u64 = 0x22;
const F3: u64 = 0x33;
const F4: u64 = 0x44;
const G1: u64 = 0x99;

fn path() -> MPath {
    MPath::new(b"dir/file".to_vec())
}

fn id(hash: u64) -> HgFileNodeId {
    HgFileNodeId::new(hash)
}

fn record(node: u64, p1: Option<u64>, p2: Option<u64>, linknode: u64) -> FilenodeInfo {
    FilenodeInfo {
        filenode: id(node),
        p1: p1.map(id),
        p2: p2.map(id),
        copyfrom: None,
        linknode: HgChangesetId(linknode),
    }
}

/// Stands in for the filenode store and the envelope store, and counts what
/// it is asked.
struct Store {
    bulk: Vec<FilenodeInfo>,
    indexed: HashMap<u64, FilenodeInfo>,
    envelopes: HashMap<u64, FilenodeInfo>,
    disabled: bool,
    failing: Option<u64>,
    lookups: usize,
    reconstructions: Vec<(u64, HgChangesetId)>,
}

impl Store {
    fn new() -> Store {
        Store {
            bulk: Vec::new(),
            indexed: HashMap::new(),
            envelopes: HashMap::new(),
            disabled: false,
            failing: None,
            lookups: 0,
            reconstructions: Vec::new(),
        }
    }

    fn index(mut self, info: FilenodeInfo) -> Store {
        self.indexed.insert(info.filenode.0, info);
        self
    }

    fn prefetchable(mut self, info: FilenodeInfo) -> Store {
        self.bulk.push(info);
        self
    }

    fn envelope(mut self, info: FilenodeInfo) -> Store {
        self.envelopes.insert(info.filenode.0, info);
        self
    }

    fn get_one(&mut self, node: HgFileNodeId) -> Result<FilenodeResult, String> {
        self.lookups += 1;
        if self.failing == Some(node.0) {
            return Err(format!("lookup of {:x} failed", node.0));
        }
        if self.disabled {
            return Ok(FilenodeResult::Disabled);
        }
        Ok(FilenodeResult::Present(self.indexed.get(&node.0).cloned()))
    }

    fn reconstruct(
        &mut self,
        node: HgFileNodeId,
        linknode: HgChangesetId,
    ) -> Result<FilenodeInfo, String> {
        self.reconstructions.push((node.0, linknode));
        match self.envelopes.get(&node.0) {
            Some(info) => {
                let mut info = info.clone();
                info.linknode = linknode;
                Ok(info)
            }
            None => Err(format!("no envelope for {:x}", node.0)),
        }
    }

    fn fetch(&mut self, node: HgFileNodeId) -> Result<FilenodeInfo, String> {
        match get_maybe_missing_filenode(node, self.get_one(node)?) {
            Resolution::Found(info) => Ok(info),
            Resolution::FromEnvelope(node, linknode) => self.reconstruct(node, linknode),
        }
    }
}

/// Pulls once: steps the walker, looking up what it asks for.
fn pull(walker: &mut HistoryWalker, store: &mut Store) -> Step {
    match walker.advance() {
        Step::Fetch(node) => {
            let fetched = store.fetch(node);
            walker.supply(fetched)
        }
        step => step,
    }
}

fn collect(
    walker: &mut HistoryWalker,
    store: &mut Store,
) -> Result<Vec<HgFileHistoryEntry>, ErrorKind> {
    let mut entries = Vec::new();
    loop {
        match pull(walker, store) {
            Step::Entry(entry) => entries.push(entry),
            Step::Failed(error) => return Err(error),
            Step::Done => return Ok(entries),
            Step::Fetch(node) => panic!("asked twice for {:x}", node.0),
        }
    }
}

fn history(
    store: &mut Store,
    start: u64,
    max_length: Option<u32>,
) -> Result<Vec<HgFileHistoryEntry>, ErrorKind> {
    let mut walker = get_file_history(id(start), path(), max_length, &store.bulk);
    collect(&mut walker, store)
}

fn nodes(entries: &[HgFileHistoryEntry]) -> Vec<u64> {
    entries.iter().map(|entry| entry.filenode().0).collect()
}

fn linear_chain() -> Store {
    Store::new()
        .index(record(F1, None, None, 1))
        .index(record(F2, Some(F1), None, 2))
        .index(record(F3, Some(F2), None, 3))
}

fn merge() -> Store {
    Store::new()
        .index(record(F1, None, None, 1))
        .index(record(F2, Some(F1), None, 2))
        .index(record(F3, Some(F1), None, 3))
        .index(record(F4, Some(F2), Some(F3), 4))
}

#[test]
fn linear_chain_is_walked_from_the_start_back() {
    let mut store = linear_chain();
    let entries = history(&mut store, F3, None).unwrap();
    assert_eq!(nodes(&entries), vec![F3, F2, F1]);
}

#[test]
fn linear_chain_is_cut_at_max_length() {
    let mut store = linear_chain();
    let entries = history(&mut store, F3, Some(2)).unwrap();
    assert_eq!(nodes(&entries), vec![F3, F2]);
}

#[test]
fn merge_is_walked_breadth_first_and_the_common_parent_comes_once() {
    let mut store = merge();
    let entries = history(&mut store, F4, None).unwrap();
    assert_eq!(nodes(&entries), vec![F4, F2, F3, F1]);
}

#[test]
fn entries_carry_what_the_records_hold() {
    let mut store = merge();
    let entries = history(&mut store, F4, None).unwrap();
    assert_eq!(*entries[0].filenode(), id(F4));
    assert_eq!(*entries[0].parents(), HgParents::Two(F2, F3));
    assert_eq!(*entries[0].linknode(), HgChangesetId(4));
    assert_eq!(*entries[0].copyfrom(), None);
    assert_eq!(*entries[1].parents(), HgParents::One(F1));
    assert_eq!(*entries[3].parents(), HgParents::Zero);
    assert_eq!(*entries[3].linknode(), HgChangesetId(1));
}

#[test]
fn ancestor_is_told_from_descendant() {
    let mut store = linear_chain().index(record(G1, None, None, 9));
    let related = |store: &mut Store, a: u64, b: u64| {
        let history_a = history(store, a, None);
        let history_b = history(store, b, None);
        check_if_related(id(a), id(b), history_a, history_b)
    };
    assert_eq!(
        related(&mut store, F1, F3),
        Ok(FilenodesRelatedResult::FirstAncestorOfSecond)
    );
    assert_eq!(
        related(&mut store, F3, F1),
        Ok(FilenodesRelatedResult::SecondAncestorOfFirst)
    );
    assert_eq!(related(&mut store, F3, G1), Ok(FilenodesRelatedResult::Unrelated));
}

#[test]
fn a_filenode_is_in_its_own_history() {
    let mut store = linear_chain();
    let history_a = history(&mut store, F2, None);
    let history_b = history(&mut store, F2, None);
    assert_eq!(
        check_if_related(id(F2), id(F2), history_a, history_b),
        Ok(FilenodesRelatedResult::SecondAncestorOfFirst)
    );
}

#[test]
fn the_first_history_is_asked_first() {
    // Records that name each other as parent: each is in the history of the other.
    let mut store = Store::new()
        .index(record(F1, Some(F2), None, 1))
        .index(record(F2, Some(F1), None, 2));
    let history_a = history(&mut store, F1, None);
    let history_b = history(&mut store, F2, None);
    assert_eq!(
        check_if_related(id(F1), id(F2), history_a, history_b),
        Ok(FilenodesRelatedResult::SecondAncestorOfFirst)
    );
}

#[test]
fn a_failed_walk_fails_the_check() {
    let mut store = linear_chain();
    let good = history(&mut store, F3, None);
    let failure = ErrorKind::StoreFailure("gone".to_string());
    assert_eq!(
        check_if_related(id(F3), id(F1), good.clone(), Err(failure.clone())),
        Err(failure.clone())
    );
    assert_eq!(
        check_if_related(id(F3), id(F1), Err(failure.clone()), good),
        Err(failure.clone())
    );
    let other = ErrorKind::StoreFailure("second".to_string());
    assert_eq!(
        check_if_related(id(F3), id(F1), Err(failure.clone()), Err(other)),
        Err(failure)
    );
}

#[test]
fn history_contains_finds_only_what_is_there() {
    let mut store = linear_chain();
    let entries = history(&mut store, F2, None).unwrap();
    assert!(history_contains(&entries, id(F2)));
    assert!(history_contains(&entries, id(F1)));
    assert!(!history_contains(&entries, id(F3)));
    assert!(!history_contains(&Vec::new(), id(F1)));
}

#[test]
fn no_file_has_no_history() {
    let mut store = linear_chain();
    let entries = history(&mut store, NULL_HASH, None).unwrap();
    assert!(entries.is_empty());
    assert_eq!(store.lookups, 0);

    let mut walker = get_file_history(id(NULL_HASH), path(), Some(5), &Vec::new());
    assert!(walker.is_done());
    assert_eq!(walker.advance(), Step::Done);
}

#[test]
fn a_node_is_visited_once_even_where_parents_loop() {
    // F1 names F3 as its parent, which closes a loop F3 -> F2 -> F1 -> F3.
    let mut store = Store::new()
        .index(record(F1, Some(F3), None, 1))
        .index(record(F2, Some(F1), None, 2))
        .index(record(F3, Some(F2), Some(F3), 3));
    let entries = history(&mut store, F3, None).unwrap();
    assert_eq!(nodes(&entries), vec![F3, F2, F1]);
    assert_eq!(store.lookups, 3);
}

#[test]
fn a_parent_named_twice_counts_once() {
    let mut store = Store::new()
        .index(record(F1, None, None, 1))
        .index(record(F2, Some(F1), Some(F1), 2));
    let entries = history(&mut store, F2, None).unwrap();
    assert_eq!(nodes(&entries), vec![F2, F1]);
    assert_eq!(*entries[0].parents(), HgParents::One(F1));
}

#[test]
fn max_length_gives_the_lesser_of_bound_and_ancestry() {
    for (max_length, expected) in [
        (Some(0), vec![]),
        (Some(1), vec![F4]),
        (Some(2), vec![F4, F2]),
        (Some(3), vec![F4, F2, F3]),
        (Some(4), vec![F4, F2, F3, F1]),
        (Some(5), vec![F4, F2, F3, F1]),
        (Some(u32::MAX), vec![F4, F2, F3, F1]),
        (None, vec![F4, F2, F3, F1]),
    ] {
        let mut store = merge();
        let entries = history(&mut store, F4, max_length).unwrap();
        assert_eq!(nodes(&entries), expected);
    }
}

#[test]
fn nothing_is_looked_up_once_the_bound_is_reached() {
    let mut store = linear_chain();
    let mut walker = get_file_history(id(F3), path(), Some(1), &store.bulk);
    assert!(!walker.is_done());
    assert!(matches!(pull(&mut walker, &mut store), Step::Entry(_)));
    assert_eq!(store.lookups, 1);
    assert!(walker.is_done());
    for _ in 0..3 {
        assert_eq!(pull(&mut walker, &mut store), Step::Done);
        assert_eq!(walker.supply(Ok(record(F2, Some(F1), None, 2))), Step::Done);
    }
    assert_eq!(store.lookups, 1);
}

#[test]
fn a_copy_from_a_directory_fails_the_walk() {
    let mut copied = record(F2, Some(F1), None, 2);
    copied.copyfrom =
        Some((RepoPath::DirectoryPath(MPath::new(b"dir".to_vec())), id(G1)));
    let mut store = Store::new()
        .index(record(F1, None, None, 1))
        .index(copied)
        .index(record(F3, Some(F2), None, 3));
    let mut walker = get_file_history(id(F3), path(), None, &store.bulk);
    assert_eq!(nodes(&[match pull(&mut walker, &mut store) {
        Step::Entry(entry) => entry,
        step => panic!("{:?}", step),
    }]), vec![F3]);
    assert_eq!(
        pull(&mut walker, &mut store),
        Step::Failed(ErrorKind::InconsistentCopyInfo(
            RepoPath::FilePath(path()),
            RepoPath::DirectoryPath(MPath::new(b"dir".to_vec())),
        ))
    );
    // The walk is over: F1 is never asked for.
    assert!(walker.is_done());
    assert_eq!(pull(&mut walker, &mut store), Step::Done);
    assert_eq!(store.lookups, 2);

    assert!(matches!(
        history(&mut store, F3, None),
        Err(ErrorKind::InconsistentCopyInfo(_, _))
    ));
}

#[test]
fn a_copy_from_a_file_is_kept_in_the_entry() {
    let mut copied = record(F2, None, None, 2);
    copied.copyfrom = Some((RepoPath::FilePath(MPath::new(b"old/name".to_vec())), id(G1)));
    let mut store = Store::new().index(copied);
    let entries = history(&mut store, F2, None).unwrap();
    assert_eq!(
        *entries[0].copyfrom(),
        Some((MPath::new(b"old/name".to_vec()), id(G1)))
    );
}

#[test]
fn a_covering_cache_needs_no_lookup() {
    let mut store = Store::new()
        .prefetchable(record(F1, None, None, 1))
        .prefetchable(record(F2, Some(F1), None, 2))
        .prefetchable(record(F3, Some(F1), None, 3))
        .prefetchable(record(F4, Some(F2), Some(F3), 4));
    let entries = history(&mut store, F4, None).unwrap();
    assert_eq!(nodes(&entries), vec![F4, F2, F3, F1]);
    assert_eq!(store.lookups, 0);
    assert!(store.reconstructions.is_empty());
}

#[test]
fn what_the_cache_lacks_is_looked_up() {
    let mut store = Store::new()
        .prefetchable(record(F3, Some(F2), None, 3))
        .index(record(F2, Some(F1), None, 2))
        .prefetchable(record(F1, None, None, 1));
    let mut walker = get_file_history(id(F3), path(), None, &store.bulk);
    assert!(matches!(walker.advance(), Step::Entry(_)));
    // The walker does not move while it waits.
    assert_eq!(walker.advance(), Step::Fetch(id(F2)));
    assert_eq!(walker.advance(), Step::Fetch(id(F2)));
    let entries = collect(&mut walker, &mut store).unwrap();
    assert_eq!(nodes(&entries), vec![F2, F1]);
    assert_eq!(store.lookups, 1);
}

#[test]
fn the_cache_is_asked_before_what_is_supplied() {
    let bulk = vec![record(F2, Some(F1), None, 2)];
    let mut walker = get_file_history(id(F2), path(), None, &bulk);
    let step = walker.supply(Ok(record(F2, Some(G1), None, 7)));
    match step {
        Step::Entry(entry) => {
            assert_eq!(*entry.parents(), HgParents::One(F1));
            assert_eq!(*entry.linknode(), HgChangesetId(2));
        }
        step => panic!("{:?}", step),
    }
    // A failure that is supplied where the cache holds the record is not used either.
    let bulk = vec![record(F2, None, None, 2)];
    let mut walker = get_file_history(id(F2), path(), None, &bulk);
    assert!(matches!(walker.supply(Err("unused".to_string())), Step::Entry(_)));
}

#[test]
fn a_missing_filenode_is_rebuilt_from_its_envelope() {
    let mut store = Store::new()
        .index(record(F3, Some(F2), None, 3))
        .envelope(record(F2, Some(F1), None, 77))
        .index(record(F1, None, None, 1));
    let entries = history(&mut store, F3, None).unwrap();
    assert_eq!(nodes(&entries), vec![F3, F2, F1]);
    assert_eq!(store.reconstructions, vec![(F2, HgChangesetId(NULL_HASH))]);
    assert_eq!(*entries[1].linknode(), HgChangesetId::null());
    assert_eq!(*entries[0].linknode(), HgChangesetId(3));
}

#[test]
fn a_disabled_store_sends_every_lookup_to_the_envelopes() {
    let mut store = Store::new()
        .index(record(F2, Some(F1), None, 2))
        .envelope(record(F2, Some(F1), None, 2))
        .envelope(record(F1, None, None, 1));
    store.disabled = true;
    let entries = history(&mut store, F2, None).unwrap();
    assert_eq!(nodes(&entries), vec![F2, F1]);
    assert_eq!(
        store.reconstructions,
        vec![(F2, HgChangesetId::null()), (F1, HgChangesetId::null())]
    );
}

#[test]
fn lookup_outcomes_are_resolved() {
    let found = record(F1, None, None, 1);
    assert_eq!(
        get_maybe_missing_filenode(id(F1), FilenodeResult::Present(Some(found.clone()))),
        Resolution::Found(found)
    );
    assert_eq!(
        get_maybe_missing_filenode(id(F1), FilenodeResult::Present(None)),
        Resolution::FromEnvelope(id(F1), HgChangesetId(0))
    );
    assert_eq!(
        get_maybe_missing_filenode(id(F2), FilenodeResult::Disabled),
        Resolution::FromEnvelope(id(F2), HgChangesetId(0))
    );
}

#[test]
fn a_failed_lookup_fails_the_walk() {
    let mut store = linear_chain();
    store.failing = Some(F2);
    let mut walker = get_file_history(id(F3), path(), None, &store.bulk);
    assert!(matches!(pull(&mut walker, &mut store), Step::Entry(_)));
    assert_eq!(
        pull(&mut walker, &mut store),
        Step::Failed(ErrorKind::StoreFailure("lookup of 22 failed".to_string()))
    );
    assert!(walker.is_done());
    assert_eq!(pull(&mut walker, &mut store), Step::Done);
    assert_eq!(store.lookups, 2);
}

#[test]
fn a_missing_envelope_fails_the_walk() {
    let mut store = Store::new().index(record(F2, Some(F1), None, 2));
    assert_eq!(
        history(&mut store, F2, None),
        Err(ErrorKind::StoreFailure("no envelope for 11".to_string()))
    );
}

#[test]
fn the_last_record_of_a_filenode_stands_in_the_cache() {
    let bulk = vec![
        record(F1, None, None, 1),
        record(F2, Some(F1), None, 2),
        record(F1, Some(G1), None, 5),
    ];
    let prefetched = prefetch_history(&bulk);
    assert_eq!(prefetched.len(), 2);
    assert_eq!(prefetched[&F1], record(F1, Some(G1), None, 5));
    assert_eq!(prefetched[&F2], record(F2, Some(F1), None, 2));
    assert!(prefetch_history(&Vec::new()).is_empty());
}

#[test]
fn a_walk_can_start_from_a_cache_built_before() {
    let prefetched = prefetch_history(&vec![
        record(F1, None, None, 1),
        record(F2, Some(F1), None, 2),
    ]);
    let mut walker = get_file_history_using_prefetched(id(F2), path(), None, prefetched);
    let mut store = Store::new();
    let entries = collect(&mut walker, &mut store).unwrap();
    assert_eq!(nodes(&entries), vec![F2, F1]);
    assert_eq!(store.lookups, 0);
}

#[test]
fn parents_are_structured() {
    assert_eq!(HgParents::new(None, None), HgParents::Zero);
    assert_eq!(HgParents::new(Some(F1), None), HgParents::One(F1));
    assert_eq!(HgParents::new(None, Some(F2)), HgParents::One(F2));
    assert_eq!(HgParents::new(Some(F1), Some(F2)), HgParents::Two(F1, F2));
    assert_eq!(HgParents::new(Some(F1), Some(F1)), HgParents::One(F1));
    assert_eq!(HgParents::Zero.to_vec(), Vec::<u64>::new());
    assert_eq!(HgParents::One(F1).to_vec(), vec![F1]);
    assert_eq!(HgParents::Two(F2, F1).to_vec(), vec![F2, F1]);
}

#[test]
fn identifiers_wrap_their_hash() {
    assert_eq!(id(F1).into_nodehash(), F1);
    assert!(id(NULL_HASH).is_null());
    assert!(!id(F1).is_null());
    assert_eq!(HgChangesetId::null(), HgChangesetId(0));
    assert!(RepoPath::FilePath(path()).is_file());
    assert!(!RepoPath::DirectoryPath(path()).is_file());
}

#[test]
fn a_walk_is_drained_as_far_as_the_cache_carries() {
    let bulk = vec![
        record(F4, Some(F2), Some(F3), 4),
        record(F2, Some(F1), None, 2),
        record(F1, None, None, 1),
    ];
    let mut walker = get_file_history(id(F4), path(), None, &bulk);
    let (entries, stop) = walker.drain();
    assert_eq!(nodes(&entries), vec![F4, F2]);
    assert_eq!(stop, Step::Fetch(id(F3)));
    // Draining again gives nothing new while the record is missing.
    let (entries, stop) = walker.drain();
    assert!(entries.is_empty());
    assert_eq!(stop, Step::Fetch(id(F3)));
    assert!(matches!(walker.supply(Ok(record(F3, Some(F1), None, 3))), Step::Entry(_)));
    let (entries, stop) = walker.drain();
    assert_eq!(nodes(&entries), vec![F1]);
    assert_eq!(stop, Step::Done);
    assert!(walker.is_done());
}

#[test]
fn draining_ends_where_parents_loop() {
    let bulk = vec![
        record(F1, Some(F3), Some(F2), 1),
        record(F2, Some(F1), Some(F2), 2),
        record(F3, Some(F2), Some(F1), 3),
    ];
    let mut walker = get_file_history(id(F3), path(), None, &bulk);
    let (entries, stop) = walker.drain();
    assert_eq!(nodes(&entries), vec![F3, F2, F1]);
    assert_eq!(stop, Step::Done);
}

#[test]
fn draining_stops_at_the_bound_and_at_a_failure() {
    let mut bulk = vec![
        record(F3, Some(F2), None, 3),
        record(F2, Some(F1), None, 2),
        record(F1, None, None, 1),
    ];
    let mut walker = get_file_history(id(F3), path(), Some(2), &bulk);
    let (entries, stop) = walker.drain();
    assert_eq!(nodes(&entries), vec![F3, F2]);
    assert_eq!(stop, Step::Done);

    bulk[1].copyfrom = Some((RepoPath::DirectoryPath(MPath::new(b"d".to_vec())), id(G1)));
    let mut walker = get_file_history(id(F3), path(), None, &bulk);
    let (entries, stop) = walker.drain();
    assert_eq!(nodes(&entries), vec![F3]);
    assert!(matches!(stop, Step::Failed(ErrorKind::InconsistentCopyInfo(_, _))));
    assert_eq!(walker.drain().1, Step::Done);
}
