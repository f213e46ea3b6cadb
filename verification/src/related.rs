//! Whether one filenode is an ancestor of another.

use vstd::prelude::*;
use crate::error::ErrorKind;
use crate::types::{HgFileHistoryEntry, HgFileNodeId};

verus! {

/// How two filenodes of one path are related.
#[derive(Clone, Copy, Debug, PartialEq, Eq, Structural)]
pub enum FilenodesRelatedResult {
    Unrelated,
    FirstAncestorOfSecond,
    SecondAncestorOfFirst,
}

/// Whether a history holds an entry of the given filenode.
pub open spec fn has_filenode(history: Seq<HgFileHistoryEntry>, node: HgFileNodeId) -> bool {
    exists|i: int| 0 <= i < history.len() && (#[trigger] history[i])@.node == node
}

/// The relation of two filenodes, given the full history of each. The
/// history of the first is asked first: where each filenode occurs in the
/// history of the other, the first is called the descendant.
pub open spec fn relation(
    filenode_a: HgFileNodeId,
    filenode_b: HgFileNodeId,
    history_a: Seq<HgFileHistoryEntry>,
    history_b: Seq<HgFileHistoryEntry>,
) -> FilenodesRelatedResult {
    if has_filenode(history_a, filenode_b) {
        FilenodesRelatedResult::SecondAncestorOfFirst
    } else if has_filenode(history_b, filenode_a) {
        FilenodesRelatedResult::FirstAncestorOfSecond
    } else {
        FilenodesRelatedResult::Unrelated
    }
}

/// Whether a history holds an entry of the given filenode.
pub fn history_contains(history: &Vec<HgFileHistoryEntry>, node: HgFileNodeId) -> (found: bool)
    ensures
        found == has_filenode(history@, node),
{
    let mut i: usize = 0;
    while i < history.len()
        invariant
            i <= history.len(),
            forall|j: int| 0 <= j < i ==> (#[trigger] history@[j])@.node != node,
        decreases history.len() - i,
    {
        if *history[i].filenode() == node {
            return true;
        }
        i += 1;
    }
    false
}

/// Checks if one filenode is an ancestor of another, given the outcome of
/// the unbounded walk from each. A walk that failed makes the check fail
/// with the error of that walk, the first walk's where both failed: a
/// failure is never read as "unrelated".
pub fn check_if_related(
    filenode_a: HgFileNodeId,
    filenode_b: HgFileNodeId,
    history_a: Result<Vec<HgFileHistoryEntry>, ErrorKind>,
    history_b: Result<Vec<HgFileHistoryEntry>, ErrorKind>,
) -> (related: Result<FilenodesRelatedResult, ErrorKind>)
    ensures
        match (history_a, history_b) {
            (Ok(a), Ok(b)) => related == Ok::<FilenodesRelatedResult, ErrorKind>(
                relation(filenode_a, filenode_b, a@, b@),
            ),
            (Err(error), _) => related == Err::<FilenodesRelatedResult, ErrorKind>(error),
            (Ok(_), Err(error)) => related == Err::<FilenodesRelatedResult, ErrorKind>(error),
        },
{
    let history_a = match history_a {
        Ok(history) => history,
        Err(error) => {
            return Err(error);
        },
    };
    let history_b = match history_b {
        Ok(history) => history,
        Err(error) => {
            return Err(error);
        },
    };
    if history_contains(&history_a, filenode_b) {
        Ok(FilenodesRelatedResult::SecondAncestorOfFirst)
    } else if history_contains(&history_b, filenode_a) {
        Ok(FilenodesRelatedResult::FirstAncestorOfSecond)
    } else {
        Ok(FilenodesRelatedResult::Unrelated)
    }
}

} // verus!
