//! What to do with the outcome of a lookup in the filenode store.

use vstd::prelude::*;
use crate::types::{FilenodeInfo, FilenodeInfoView, HgChangesetId, HgFileNodeId};

verus! {

/// The outcome of a lookup of one filenode in the filenode store.
#[derive(Debug, PartialEq, Eq)]
pub enum FilenodeResult {
    /// The store was asked: it holds the record, or it holds none.
    Present(Option<FilenodeInfo>),
    /// The store keeps no filenodes for this repository.
    Disabled,
}

/// What a [`Resolution`] denotes.
pub enum ResolutionView {
    Found(FilenodeInfoView),
    FromEnvelope(HgFileNodeId, HgChangesetId),
}

/// How the record of a filenode is obtained after a lookup.
#[derive(Debug, PartialEq, Eq)]
pub enum Resolution {
    /// The store held the record.
    Found(FilenodeInfo),
    /// The record is to be rebuilt from the envelope of the filenode, with
    /// the given changeset as its linknode.
    FromEnvelope(HgFileNodeId, HgChangesetId),
}

impl View for Resolution {
    type V = ResolutionView;

    open spec fn view(&self) -> ResolutionView {
        match self {
            Resolution::Found(info) => ResolutionView::Found(info@),
            Resolution::FromEnvelope(node, linknode) => ResolutionView::FromEnvelope(
                *node,
                *linknode,
            ),
        }
    }
}

/// Decides how the record of `node` is obtained, given what the store
/// answered. A record that the store holds is used as it is. Where the store
/// holds none, or keeps no filenodes at all, the filenode may be a draft:
/// its record is rebuilt from its envelope, with the null changeset as the
/// linknode. Neither of the two is a failure.
pub fn get_maybe_missing_filenode(node: HgFileNodeId, filenode_res: FilenodeResult) -> (resolution:
    Resolution)
    ensures
        resolution@ == match filenode_res {
            FilenodeResult::Present(Some(filenode)) => ResolutionView::Found(filenode@),
            FilenodeResult::Present(None) | FilenodeResult::Disabled => ResolutionView::FromEnvelope(
                node,
                HgChangesetId::spec_null(),
            ),
        },
{
    match filenode_res {
        FilenodeResult::Present(Some(filenode)) => Resolution::Found(filenode),
        FilenodeResult::Present(None) | FilenodeResult::Disabled => Resolution::FromEnvelope(
            node,
            HgChangesetId::null(),
        ),
    }
}

} // verus!
