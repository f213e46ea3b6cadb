//! The data model: identifiers, paths, filenode records and history entries.

use vstd::prelude::*;

verus! {

/// Key of the hash that stands for "no file".
pub const NULL_HASH: u64 = 0;

/// Identifier of one version of one file: the key of its content hash.
#[derive(Clone, Copy, Debug, PartialEq, Eq, Hash, Structural)]
pub struct HgFileNodeId(pub u64);

impl HgFileNodeId {
    /// Wraps a hash key.
    pub fn new(hash: u64) -> (id: HgFileNodeId)
        ensures
            id == HgFileNodeId(hash),
    {
        HgFileNodeId(hash)
    }

    /// The hash key behind the identifier.
    pub fn into_nodehash(self) -> (hash: u64)
        ensures
            hash == self.0,
    {
        self.0
    }

    /// Whether this is the identifier of "no file".
    pub fn is_null(&self) -> (b: bool)
        ensures
            b == (self.0 == NULL_HASH),
    {
        self.0 == NULL_HASH
    }
}

/// Identifier of a changeset.
#[derive(Clone, Copy, Debug, PartialEq, Eq, Hash, Structural)]
pub struct HgChangesetId(pub u64);

impl HgChangesetId {
    /// The changeset that marks a draft or reconstructed filenode, whose
    /// introducing changeset is unknown.
    pub open spec fn spec_null() -> HgChangesetId {
        HgChangesetId(NULL_HASH)
    }

    #[verifier::when_used_as_spec(spec_null)]
    pub fn null() -> (id: HgChangesetId)
        ensures
            id == HgChangesetId::spec_null(),
    {
        HgChangesetId(NULL_HASH)
    }
}

/// A path inside the repository, as raw bytes.
#[derive(Debug, PartialEq, Eq, Hash)]
pub struct MPath {
    pub bytes: Vec<u8>,
}

impl View for MPath {
    type V = Seq<u8>;

    open spec fn view(&self) -> Seq<u8> {
        self.bytes@
    }
}

impl Clone for MPath {
    fn clone(&self) -> (copy: MPath)
        ensures
            copy@ == self@,
    {
        let bytes = self.bytes.clone();
        assert(bytes@ =~= self.bytes@);
        MPath { bytes }
    }
}

impl MPath {
    /// A path made of the given bytes.
    pub fn new(bytes: Vec<u8>) -> (path: MPath)
        ensures
            path@ == bytes@,
    {
        MPath { bytes }
    }
}

/// What a [`RepoPath`] denotes: its kind and its bytes.
pub enum RepoPathView {
    DirectoryPath(Seq<u8>),
    FilePath(Seq<u8>),
}

/// A repository path tagged as a directory or as a file. The two are not
/// interchangeable: copy information must name a file.
#[derive(Debug, PartialEq, Eq, Hash)]
pub enum RepoPath {
    DirectoryPath(MPath),
    FilePath(MPath),
}

impl View for RepoPath {
    type V = RepoPathView;

    open spec fn view(&self) -> RepoPathView {
        match self {
            RepoPath::DirectoryPath(p) => RepoPathView::DirectoryPath(p@),
            RepoPath::FilePath(p) => RepoPathView::FilePath(p@),
        }
    }
}

impl Clone for RepoPath {
    fn clone(&self) -> (copy: RepoPath)
        ensures
            copy@ == self@,
    {
        match self {
            RepoPath::DirectoryPath(p) => RepoPath::DirectoryPath(p.clone()),
            RepoPath::FilePath(p) => RepoPath::FilePath(p.clone()),
        }
    }
}

impl RepoPath {
    /// Whether the path is tagged as a file.
    pub fn is_file(&self) -> (b: bool)
        ensures
            b == (self@ is FilePath),
    {
        match self {
            RepoPath::FilePath(_) => true,
            RepoPath::DirectoryPath(_) => false,
        }
    }
}

/// The parents of a filenode: none for the first version of a file, two for
/// a merge that changed the file on both sides.
#[derive(Clone, Copy, Debug, PartialEq, Eq, Hash, Structural)]
pub enum HgParents {
    Zero,
    One(u64),
    Two(u64, u64),
}

impl HgParents {
    /// The parents given by two optional hashes: absent hashes are skipped,
    /// and a hash given twice counts once.
    pub open spec fn spec_new(p1: Option<u64>, p2: Option<u64>) -> HgParents {
        match (p1, p2) {
            (None, None) => HgParents::Zero,
            (Some(a), None) => HgParents::One(a),
            (None, Some(b)) => HgParents::One(b),
            (Some(a), Some(b)) => if a == b {
                HgParents::One(a)
            } else {
                HgParents::Two(a, b)
            },
        }
    }

    /// The parent hashes in order, first parent first.
    pub open spec fn hashes(self) -> Seq<u64> {
        match self {
            HgParents::Zero => seq![],
            HgParents::One(a) => seq![a],
            HgParents::Two(a, b) => seq![a, b],
        }
    }

    #[verifier::when_used_as_spec(spec_new)]
    pub fn new(p1: Option<u64>, p2: Option<u64>) -> (parents: HgParents)
        ensures
            parents == HgParents::spec_new(p1, p2),
    {
        match (p1, p2) {
            (None, None) => HgParents::Zero,
            (Some(a), None) => HgParents::One(a),
            (None, Some(b)) => HgParents::One(b),
            (Some(a), Some(b)) => if a == b {
                HgParents::One(a)
            } else {
                HgParents::Two(a, b)
            },
        }
    }

    /// The parent hashes as a vector, first parent first.
    pub fn to_vec(&self) -> (hashes: Vec<u64>)
        ensures
            hashes@ == self.hashes(),
    {
        let mut hashes: Vec<u64> = Vec::new();
        match self {
            HgParents::Zero => {},
            HgParents::One(a) => {
                hashes.push(*a);
            },
            HgParents::Two(a, b) => {
                hashes.push(*a);
                hashes.push(*b);
            },
        }
        assert(hashes@ =~= self.hashes());
        hashes
    }
}

/// What a [`FilenodeInfo`] denotes.
pub struct FilenodeInfoView {
    pub filenode: HgFileNodeId,
    pub p1: Option<HgFileNodeId>,
    pub p2: Option<HgFileNodeId>,
    pub copyfrom: Option<(RepoPathView, HgFileNodeId)>,
    pub linknode: HgChangesetId,
}

impl FilenodeInfoView {
    /// The parents of the record as a structured value.
    pub open spec fn parents(self) -> HgParents {
        HgParents::spec_new(
            match self.p1 {
                Some(p) => Some(p.0),
                None => None,
            },
            match self.p2 {
                Some(p) => Some(p.0),
                None => None,
            },
        )
    }

    /// Copy information is consistent when it is absent or names a file.
    pub open spec fn copy_is_consistent(self) -> bool {
        match self.copyfrom {
            Some((from, _)) => from is FilePath,
            None => true,
        }
    }
}

/// The stored metadata of one filenode: its parents, the changeset that
/// introduced it, and where it was copied from, if it was.
#[derive(Debug, PartialEq, Eq, Hash)]
pub struct FilenodeInfo {
    pub filenode: HgFileNodeId,
    pub p1: Option<HgFileNodeId>,
    pub p2: Option<HgFileNodeId>,
    pub copyfrom: Option<(RepoPath, HgFileNodeId)>,
    pub linknode: HgChangesetId,
}

impl View for FilenodeInfo {
    type V = FilenodeInfoView;

    open spec fn view(&self) -> FilenodeInfoView {
        FilenodeInfoView {
            filenode: self.filenode,
            p1: self.p1,
            p2: self.p2,
            copyfrom: match self.copyfrom {
                Some((from, node)) => Some((from@, node)),
                None => None,
            },
            linknode: self.linknode,
        }
    }
}

impl Clone for FilenodeInfo {
    fn clone(&self) -> (copy: FilenodeInfo)
        ensures
            copy@ == self@,
    {
        let copyfrom = match &self.copyfrom {
            Some((from, node)) => Some((from.clone(), *node)),
            None => None,
        };
        FilenodeInfo {
            filenode: self.filenode,
            p1: self.p1,
            p2: self.p2,
            copyfrom,
            linknode: self.linknode,
        }
    }
}

/// What an [`HgFileHistoryEntry`] denotes.
pub struct HgFileHistoryEntryView {
    pub node: HgFileNodeId,
    pub parents: HgParents,
    pub linknode: HgChangesetId,
    pub copyfrom: Option<(Seq<u8>, HgFileNodeId)>,
}

/// One entry of a file's history, derived from the record of one filenode.
#[derive(Debug, PartialEq, Eq, Hash)]
pub struct HgFileHistoryEntry {
    node: HgFileNodeId,
    parents: HgParents,
    linknode: HgChangesetId,
    copyfrom: Option<(MPath, HgFileNodeId)>,
}

impl View for HgFileHistoryEntry {
    type V = HgFileHistoryEntryView;

    closed spec fn view(&self) -> HgFileHistoryEntryView {
        HgFileHistoryEntryView {
            node: self.node,
            parents: self.parents,
            linknode: self.linknode,
            copyfrom: match self.copyfrom {
                Some((from, node)) => Some((from@, node)),
                None => None,
            },
        }
    }
}

impl Clone for HgFileHistoryEntry {
    fn clone(&self) -> (copy: HgFileHistoryEntry)
        ensures
            copy@ == self@,
    {
        let copyfrom = match &self.copyfrom {
            Some((from, node)) => Some((from.clone(), *node)),
            None => None,
        };
        HgFileHistoryEntry {
            node: self.node,
            parents: self.parents,
            linknode: self.linknode,
            copyfrom,
        }
    }
}

impl HgFileHistoryEntry {
    pub fn new(
        node: HgFileNodeId,
        parents: HgParents,
        linknode: HgChangesetId,
        copyfrom: Option<(MPath, HgFileNodeId)>,
    ) -> (entry: HgFileHistoryEntry)
        ensures
            entry@ == (HgFileHistoryEntryView {
                node,
                parents,
                linknode,
                copyfrom: match copyfrom {
                    Some((from, from_node)) => Some((from@, from_node)),
                    None => None,
                },
            }),
    {
        HgFileHistoryEntry { node, parents, linknode, copyfrom }
    }

    /// The filenode this entry describes.
    pub fn filenode(&self) -> (node: &HgFileNodeId)
        ensures
            *node == self@.node,
    {
        &self.node
    }

    /// The parents of the filenode.
    pub fn parents(&self) -> (parents: &HgParents)
        ensures
            *parents == self@.parents,
    {
        &self.parents
    }

    /// The changeset that introduced the filenode.
    pub fn linknode(&self) -> (linknode: &HgChangesetId)
        ensures
            *linknode == self@.linknode,
    {
        &self.linknode
    }

    /// The file and filenode this one was copied from, if it was.
    pub fn copyfrom(&self) -> (copyfrom: &Option<(MPath, HgFileNodeId)>)
        ensures
            match *copyfrom {
                Some((from, node)) => self@.copyfrom == Some((from@, node)),
                None => self@.copyfrom is None,
            },
    {
        &self.copyfrom
    }
}

} // verus!
