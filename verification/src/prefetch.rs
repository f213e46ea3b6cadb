//! The prefetch cache: every record known for a path, indexed by filenode.
//!
//! Loading the records in bulk before a walk saves a lookup per node. The
//! cache is an optimisation only: a walk asks its caller for any record the
//! cache does not hold.

use std::collections::HashMap;
use vstd::prelude::*;
use crate::types::{FilenodeInfo, FilenodeInfoView};

verus! {

/// The records of a cache, each as what it denotes.
pub open spec fn cache_view(cache: Map<u64, FilenodeInfo>) -> Map<u64, FilenodeInfoView> {
    cache.map_values(|info: FilenodeInfo| info@)
}

/// The index of a list of records by filenode. Where the list holds several
/// records of one filenode, the last of them stands in the index.
pub open spec fn index_by_filenode(filenodes: Seq<FilenodeInfo>) -> Map<u64, FilenodeInfoView>
    decreases filenodes.len(),
{
    if filenodes.len() == 0 {
        Map::empty()
    } else {
        let last = filenodes.last();
        index_by_filenode(filenodes.drop_last()).insert(last.filenode.0, last@)
    }
}

/// A filenode is in the index exactly if the list holds a record of it.
pub proof fn lemma_index_holds_the_listed(filenodes: Seq<FilenodeInfo>, node: u64)
    ensures
        index_by_filenode(filenodes).dom().contains(node) <==> exists|i: int|
            0 <= i < filenodes.len() && (#[trigger] filenodes[i]).filenode.0 == node,
    decreases filenodes.len(),
{
    if filenodes.len() > 0 {
        let init = filenodes.drop_last();
        lemma_index_holds_the_listed(init, node);
        if filenodes.last().filenode.0 == node {
            assert(filenodes[filenodes.len() - 1].filenode.0 == node);
        } else if index_by_filenode(init).dom().contains(node) {
            let i = choose|i: int| 0 <= i < init.len() && (#[trigger] init[i]).filenode.0 == node;
            assert(filenodes[i] == init[i]);
        } else if exists|i: int|
            0 <= i < filenodes.len() && (#[trigger] filenodes[i]).filenode.0 == node {
            let i = choose|i: int|
                0 <= i < filenodes.len() && (#[trigger] filenodes[i]).filenode.0 == node;
            assert(init[i] == filenodes[i]);
        }
    }
}

/// The index holds, for a filenode, the last record that the list has of it.
pub proof fn lemma_index_holds_the_last(filenodes: Seq<FilenodeInfo>, i: int)
    requires
        0 <= i < filenodes.len(),
        forall|j: int|
            i < j < filenodes.len() ==> (#[trigger] filenodes[j]).filenode.0
                != filenodes[i].filenode.0,
    ensures
        index_by_filenode(filenodes).dom().contains(filenodes[i].filenode.0),
        index_by_filenode(filenodes)[filenodes[i].filenode.0] == filenodes[i]@,
    decreases filenodes.len(),
{
    if i < filenodes.len() - 1 {
        let init = filenodes.drop_last();
        assert(init[i] == filenodes[i]);
        assert forall|j: int| i < j < init.len() implies (#[trigger] init[j]).filenode.0
            != init[i].filenode.0 by {
            assert(init[j] == filenodes[j]);
        }
        lemma_index_holds_the_last(init, i);
        assert(filenodes[filenodes.len() - 1].filenode.0 != filenodes[i].filenode.0);
    }
}

/// Indexes the records of a bulk read by filenode.
pub fn prefetch_history(filenodes: &Vec<FilenodeInfo>) -> (prefetched: HashMap<u64, FilenodeInfo>)
    ensures
        cache_view(prefetched@) == index_by_filenode(filenodes@),
{
    let mut prefetched: HashMap<u64, FilenodeInfo> = HashMap::new();
    assert(cache_view(prefetched@) =~= index_by_filenode(filenodes@.take(0)));
    let mut i: usize = 0;
    while i < filenodes.len()
        invariant
            i <= filenodes.len(),
            cache_view(prefetched@) == index_by_filenode(filenodes@.take(i as int)),
        decreases filenodes.len() - i,
    {
        let info = filenodes[i].clone();
        let ghost before = prefetched@;
        prefetched.insert(info.filenode.0, info);
        proof {
            let upto = filenodes@.take(i + 1);
            assert(upto.drop_last() =~= filenodes@.take(i as int));
            assert(upto.last() == filenodes@[i as int]);
            assert(cache_view(before.insert(info.filenode.0, info)) =~= cache_view(before).insert(
                info.filenode.0,
                info@,
            ));
        }
        i += 1;
    }
    assert(filenodes@.take(i as int) =~= filenodes@);
    prefetched
}

} // verus!
