//! Facts about a host that decide which configuration it is given: its
//! tiers, its release group, its shard, its platform and its domain.
//!
//! The facts are gathered by the caller and handed in as plain values; the
//! rules that turn them into a release group, and the predicates that
//! configuration rules ask, are here.

use vstd::prelude::*;
use crate::name_set::{holds_name, NameSet};
use crate::words::{split_whitespace, texts_of, words_of};

verus! {

/// The repository a configuration is generated for.
#[derive(Clone, Copy, Debug, PartialEq, Eq, Structural)]
pub enum Repo {
    Unknown,
}

impl Repo {
    /// The repository of the given name. No name is known: every name gives
    /// the unknown repository, and none is refused.
    pub fn from_str(name: &str) -> (repo: Result<Repo, String>)
        ensures
            repo == Ok::<Repo, String>(Repo::Unknown),
    {
        Ok(Repo::Unknown)
    }
}

/// The release group of a host, from the earliest adopters to the last.
#[derive(Clone, Copy, Debug, PartialEq, Eq, Structural)]
pub enum HgGroup {
    Dev,
    Alpha,
    Beta,
    Stable,
}

impl HgGroup {
    /// The place of the group in the order of adoption, from 1 for `Dev`.
    pub open spec fn spec_rank(self) -> u32 {
        match self {
            HgGroup::Dev => 1,
            HgGroup::Alpha => 2,
            HgGroup::Beta => 3,
            HgGroup::Stable => 4,
        }
    }

    #[verifier::when_used_as_spec(spec_rank)]
    pub fn rank(self) -> (rank: u32)
        ensures
            rank == self.spec_rank(),
    {
        match self {
            HgGroup::Dev => 1,
            HgGroup::Alpha => 2,
            HgGroup::Beta => 3,
            HgGroup::Stable => 4,
        }
    }

    /// The name of the group.
    pub fn to_str(&self) -> (name: &'static str)
        ensures
            name@ == match self {
                HgGroup::Dev => "hg_dev"@,
                HgGroup::Alpha => "alpha"@,
                HgGroup::Beta => "beta"@,
                HgGroup::Stable => "stable"@,
            },
    {
        match self {
            HgGroup::Dev => "hg_dev",
            HgGroup::Alpha => "alpha",
            HgGroup::Beta => "beta",
            HgGroup::Stable => "stable",
        }
    }
}

/// The operating system of a host, as far as the platform depends on it.
#[derive(Clone, Copy, Debug, PartialEq, Eq, Structural)]
pub enum OsType {
    Centos,
    Fedora,
    Macos,
    Ubuntu,
    Windows,
    Other,
}

#[derive(Clone, Copy, Debug, PartialEq, Eq, Structural)]
pub enum Platform {
    Centos,
    Fedora,
    OSX,
    Ubuntu,
    Unknown,
    Windows,
}

#[derive(Clone, Copy, Debug, PartialEq, Eq, Structural)]
pub enum Domain {
    Corp,
    Prod,
}

/// The platform of a host with the given operating system.
pub open spec fn spec_platform_of(os_type: OsType) -> Platform {
    match os_type {
        OsType::Fedora => Platform::Fedora,
        OsType::Macos => Platform::OSX,
        OsType::Centos => Platform::Centos,
        OsType::Ubuntu => Platform::Ubuntu,
        OsType::Windows => Platform::Windows,
        OsType::Other => Platform::Unknown,
    }
}

#[verifier::when_used_as_spec(spec_platform_of)]
pub fn platform_of(os_type: OsType) -> (platform: Platform)
    ensures
        platform == spec_platform_of(os_type),
{
    match os_type {
        OsType::Fedora => Platform::Fedora,
        OsType::Macos => Platform::OSX,
        OsType::Centos => Platform::Centos,
        OsType::Ubuntu => Platform::Ubuntu,
        OsType::Windows => Platform::Windows,
        OsType::Other => Platform::Unknown,
    }
}

/// The shard of a host: the hash of its name, reduced to 0..100.
pub fn get_shard(hostname_hash: u64) -> (shard: u8)
    ensures
        shard == hostname_hash % 100,
        shard < 100,
{
    (hostname_hash % 100) as u8
}

/// Whether the tiers place the host in the build farm.
pub open spec fn is_sandcastle(tiers: Set<Seq<char>>) -> bool {
    ||| tiers.contains("sandcastle"@)
    ||| tiers.contains("sandcastlefog"@)
    ||| tiers.contains("sandcastle.releng"@)
    ||| tiers.contains("sandcastle.vm.linux"@)
}

/// The release group of a host. A host of the release tier is stable and one
/// of the development tier is in `Dev`, whatever else holds. Else a host is
/// in `Alpha` if a tier or a marker file says so, where the staging marker
/// counts only in the build farm. Of the rest, a fifth of the shards outside
/// the build farm are in `Beta`, and all others are stable.
pub open spec fn hg_group(
    tiers: Set<Seq<char>>,
    shard: u8,
    alpha_marker: bool,
    staging_marker: bool,
) -> HgGroup {
    let sandcastle = is_sandcastle(tiers);
    let alpha_file_exists = alpha_marker || (sandcastle && staging_marker);
    if tiers.contains("hg_release"@) {
        HgGroup::Stable
    } else if tiers.contains("hg_dev"@) {
        HgGroup::Dev
    } else if tiers.contains("hg_alpha"@) || tiers.contains("sandcastle.staging"@)
        || alpha_file_exists {
        HgGroup::Alpha
    } else if shard < 20 && !sandcastle {
        HgGroup::Beta
    } else {
        HgGroup::Stable
    }
}

/// Whether the tiers place the host in the build farm. Only there does the
/// staging marker count, so only there need a caller look for it.
pub fn in_sandcastle(tiers: &NameSet) -> (sandcastle: bool)
    ensures
        sandcastle == is_sandcastle(tiers@),
{
    tiers.contains_str("sandcastle") || tiers.contains_str("sandcastlefog") || tiers.contains_str(
        "sandcastle.releng",
    ) || tiers.contains_str("sandcastle.vm.linux")
}

/// The release group of a host with the given tiers and shard.
/// `alpha_marker` and `staging_marker` say whether the alpha marker file and
/// the staging marker file exist on the host.
pub fn get_hg_group(tiers: &NameSet, shard: u8, alpha_marker: bool, staging_marker: bool) -> (group:
    HgGroup)
    ensures
        group == hg_group(tiers@, shard, alpha_marker, staging_marker),
{
    let sandcastle = in_sandcastle(tiers);
    let mut alpha_file_exists = alpha_marker;
    if !alpha_file_exists && sandcastle {
        alpha_file_exists = staging_marker;
    }
    if tiers.contains_str("hg_release") {
        HgGroup::Stable
    } else if tiers.contains_str("hg_dev") {
        HgGroup::Dev
    } else if tiers.contains_str("hg_alpha") || tiers.contains_str("sandcastle.staging")
        || alpha_file_exists {
        HgGroup::Alpha
    } else if shard < 20 && !sandcastle {
        HgGroup::Beta
    } else {
        HgGroup::Stable
    }
}

/// The tiers that the text of a tiers file names: its words.
pub open spec fn tiers_of(text: Seq<char>) -> Set<Seq<char>> {
    Set::new(|tier: Seq<char>| words_of(text).contains(tier))
}

/// The tiers that the text of a tiers file names.
pub fn parse_tiers(text: &str) -> (tiers: NameSet)
    ensures
        tiers.wf(),
        tiers@ == tiers_of(text@),
{
    let words = split_whitespace(text);
    let tiers = NameSet::from_names(&words);
    proof {
        assert forall|tier: Seq<char>| tiers@.contains(tier) <==> tiers_of(text@).contains(
            tier,
        ) by {
            if holds_name(words@, tier) {
                let i = choose|i: int| 0 <= i < words@.len() && (#[trigger] words@[i])@ == tier;
                assert(texts_of(words@)[i] == tier);
            }
            if words_of(text@).contains(tier) {
                let i = choose|i: int| 0 <= i < words_of(text@).len() && words_of(text@)[i] == tier;
                assert(texts_of(words@)[i] == words@[i]@);
            }
        }
        assert(tiers@ =~= tiers_of(text@));
    }
    tiers
}

/// What a caller has found out about the host.
pub struct HostFacts {
    /// The text of the tiers file, if the host has one.
    pub tiers_file: Option<String>,
    /// The hash of the host's name.
    pub hostname_hash: u64,
    /// Whether the alpha marker file exists.
    pub alpha_marker: bool,
    /// Whether the staging marker file exists.
    pub staging_marker: bool,
    /// The operating system of the host.
    pub os_type: OsType,
    /// Whether the file that marks a production host exists.
    pub prod_marker: bool,
}

impl HostFacts {
    /// The tiers of the host: those its tiers file names, none without one.
    pub open spec fn tiers(self) -> Set<Seq<char>> {
        match self.tiers_file {
            Some(text) => tiers_of(text@),
            None => Set::empty(),
        }
    }
}

/// What a [`Generator`] denotes.
pub struct GeneratorView {
    pub tiers: Set<Seq<char>>,
    pub repo: Repo,
    pub group: HgGroup,
    pub shard: u8,
    pub platform: Platform,
    pub domain: Domain,
}

/// The facts that configuration rules ask about.
pub struct Generator {
    tiers: NameSet,
    repo: Repo,
    group: HgGroup,
    shard: u8,
    platform: Platform,
    domain: Domain,
}

impl View for Generator {
    type V = GeneratorView;

    closed spec fn view(&self) -> GeneratorView {
        GeneratorView {
            tiers: self.tiers@,
            repo: self.repo,
            group: self.group,
            shard: self.shard,
            platform: self.platform,
            domain: self.domain,
        }
    }
}

impl Generator {
    /// The generator for the repository of the given name on a host of which
    /// the given facts hold.
    pub fn new(repo_name: String, host: HostFacts) -> (generator: Generator)
        ensures
            generator@ == (GeneratorView {
                tiers: host.tiers(),
                repo: Repo::Unknown,
                group: hg_group(
                    host.tiers(),
                    (host.hostname_hash % 100) as u8,
                    host.alpha_marker,
                    host.staging_marker,
                ),
                shard: (host.hostname_hash % 100) as u8,
                platform: spec_platform_of(host.os_type),
                domain: if host.prod_marker {
                    Domain::Prod
                } else {
                    Domain::Corp
                },
            }),
    {
        let repo = match Repo::from_str(repo_name.as_str()) {
            Ok(repo) => repo,
            Err(_) => Repo::Unknown,
        };
        let tiers = match &host.tiers_file {
            Some(text) => parse_tiers(text.as_str()),
            None => NameSet::new(),
        };
        let shard = get_shard(host.hostname_hash);
        let group = get_hg_group(&tiers, shard, host.alpha_marker, host.staging_marker);
        let platform = platform_of(host.os_type);
        let domain = if host.prod_marker {
            Domain::Prod
        } else {
            Domain::Corp
        };
        Generator { tiers, repo, group, shard, platform, domain }
    }

    pub fn group(&self) -> (group: HgGroup)
        ensures
            group == self@.group,
    {
        self.group
    }

    pub fn repo(&self) -> (repo: &Repo)
        ensures
            *repo == self@.repo,
    {
        &self.repo
    }

    /// Whether the repository is one of the given.
    pub fn in_repos(&self, repos: &[Repo]) -> (found: bool)
        ensures
            found == repos@.contains(self@.repo),
    {
        let mut i: usize = 0;
        while i < repos.len()
            invariant
                i <= repos.len(),
                forall|j: int| 0 <= j < i ==> repos@[j] != self@.repo,
            decreases repos.len() - i,
        {
            if repos[i] == self.repo {
                return true;
            }
            i += 1;
        }
        false
    }

    /// Replaces the tiers, the group and the shard.
    pub fn set_inputs(&mut self, tiers: NameSet, group: HgGroup, shard: u8)
        ensures
            final(self)@ == (GeneratorView { tiers: tiers@, group, shard, ..old(self)@ }),
    {
        self.tiers = tiers;
        self.group = group;
        self.shard = shard;
    }

    /// Whether the host is in the given tier.
    pub fn in_tier(&self, tier: &str) -> (found: bool)
        ensures
            found == self@.tiers.contains(tier@),
    {
        self.tiers.contains_str(tier)
    }

    /// Whether the host is in one of the given tiers.
    pub fn in_tiers(&self, tiers: &[&str]) -> (found: bool)
        ensures
            found == exists|i: int|
                0 <= i < tiers@.len() && self@.tiers.contains((#[trigger] tiers@[i])@),
    {
        let mut i: usize = 0;
        while i < tiers.len()
            invariant
                i <= tiers.len(),
                forall|j: int| 0 <= j < i ==> !self@.tiers.contains((#[trigger] tiers@[j])@),
            decreases tiers.len() - i,
        {
            if self.tiers.contains_str(tiers[i]) {
                return true;
            }
            i += 1;
        }
        false
    }

    /// Whether what is released to the given group is released to the host:
    /// to its own group and to every later one.
    pub fn in_group(&self, group: HgGroup) -> (included: bool)
        ensures
            included == (self@.group.spec_rank() <= group.spec_rank()),
    {
        self.group.rank() <= group.rank()
    }

    /// Whether the shard of the host is below the given.
    pub fn in_shard(&self, shard: u8) -> (included: bool)
        ensures
            included == (self@.shard < shard),
    {
        self.shard < shard
    }

    pub fn shard(&self) -> (shard: u8)
        ensures
            shard == self@.shard,
    {
        self.shard
    }

    pub fn platform(&self) -> (platform: Platform)
        ensures
            platform == self@.platform,
    {
        self.platform
    }

    pub fn domain(&self) -> (domain: Domain)
        ensures
            domain == self@.domain,
    {
        self.domain
    }
}

} // verus!
