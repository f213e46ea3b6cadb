//! The ways a walk can fail.

use vstd::prelude::*;
use crate::types::{RepoPath, RepoPathView};

verus! {

/// What an [`ErrorKind`] denotes.
pub enum ErrorKindView {
    InconsistentCopyInfo(RepoPathView, RepoPathView),
    StoreFailure(Seq<char>),
}

/// A failure of a walk. Either one ends the walk: no entry follows it.
#[derive(Debug, PartialEq, Eq)]
pub enum ErrorKind {
    /// The record of a filenode of the first path says it was copied from
    /// the second path, which is a directory.
    InconsistentCopyInfo(RepoPath, RepoPath),
    /// A lookup in the backing store failed; the store's own message.
    StoreFailure(String),
}

impl View for ErrorKind {
    type V = ErrorKindView;

    open spec fn view(&self) -> ErrorKindView {
        match self {
            ErrorKind::InconsistentCopyInfo(path, from) => ErrorKindView::InconsistentCopyInfo(
                path@,
                from@,
            ),
            ErrorKind::StoreFailure(cause) => ErrorKindView::StoreFailure(cause@),
        }
    }
}

impl Clone for ErrorKind {
    fn clone(&self) -> (copy: ErrorKind)
        ensures
            copy@ == self@,
    {
        match self {
            ErrorKind::InconsistentCopyInfo(path, from) => ErrorKind::InconsistentCopyInfo(
                path.clone(),
                from.clone(),
            ),
            ErrorKind::StoreFailure(cause) => ErrorKind::StoreFailure(cause.clone()),
        }
    }
}

} // verus!
