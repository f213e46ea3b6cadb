//! Which hooks a repository loads.
//!
//! A repository names the hooks it runs and, for each bookmark, the hooks
//! that guard it; an operator may disable hooks by name. The loader decides,
//! hook by hook, what is to be registered and what is wrong with the
//! configuration. Building a hook and registering it is the caller's part.

use vstd::prelude::*;
use vstd::string::{StrSliceExecFns, StringExecFns};
use crate::name_set::{holds_name, NameSet};

verus! {

/// What a hook acts on.
#[derive(Clone, Copy, Debug, PartialEq, Eq, Structural)]
pub enum HookKind {
    /// The hook judges a changeset as a whole.
    ChangesetHook,
    /// The hook judges one file of a changeset.
    FileHook,
}

/// The hooks that can be loaded.
#[derive(Clone, Copy, Debug, PartialEq, Eq, Structural)]
pub enum RustHook {
    AlwaysFailChangeset,
    BlockCrossRepoCommits,
    BlockEmptyCommit,
    CheckNocommit,
    CheckUnittests,
    ConflictMarkers,
    DenyFiles,
    EnsureValidEmail,
    GitattributesTextDirectives,
    LimitCommitMessageLength,
    LimitCommitsize,
    LimitFilesize,
    LimitPathLength,
    NoBadFilenames,
    NoInsecureFilenames,
    NoQuestionableFilenames,
    SignedSource,
    TP2SymlinksOnly,
    VerifyIntegrity,
    VerifyReviewedbyInfo,
}

impl RustHook {
    /// What the hook acts on.
    pub open spec fn spec_kind(self) -> HookKind {
        match self {
            RustHook::AlwaysFailChangeset
            | RustHook::BlockEmptyCommit
            | RustHook::CheckUnittests
            | RustHook::EnsureValidEmail
            | RustHook::LimitCommitMessageLength
            | RustHook::LimitCommitsize
            | RustHook::VerifyIntegrity
            | RustHook::VerifyReviewedbyInfo => HookKind::ChangesetHook,
            _ => HookKind::FileHook,
        }
    }

    #[verifier::when_used_as_spec(spec_kind)]
    pub fn kind(self) -> (kind: HookKind)
        ensures
            kind == self.spec_kind(),
    {
        match self {
            RustHook::AlwaysFailChangeset
            | RustHook::BlockEmptyCommit
            | RustHook::CheckUnittests
            | RustHook::EnsureValidEmail
            | RustHook::LimitCommitMessageLength
            | RustHook::LimitCommitsize
            | RustHook::VerifyIntegrity
            | RustHook::VerifyReviewedbyInfo => HookKind::ChangesetHook,
            _ => HookKind::FileHook,
        }
    }

    /// The hook of the given name, if there is one.
    pub open spec fn spec_from_name(hook_name: Seq<char>) -> Option<RustHook> {
        if hook_name == "always_fail_changeset"@ {
            Some(RustHook::AlwaysFailChangeset)
        } else if hook_name == "block_cross_repo_commits"@ {
            Some(RustHook::BlockCrossRepoCommits)
        } else if hook_name == "block_empty_commit"@ {
            Some(RustHook::BlockEmptyCommit)
        } else if hook_name == "check_nocommit"@ {
            Some(RustHook::CheckNocommit)
        } else if hook_name == "check_unittests"@ {
            Some(RustHook::CheckUnittests)
        } else if hook_name == "conflict_markers"@ {
            Some(RustHook::ConflictMarkers)
        } else if hook_name == "deny_files"@ {
            Some(RustHook::DenyFiles)
        } else if hook_name == "ensure_valid_email"@ {
            Some(RustHook::EnsureValidEmail)
        } else if hook_name == "gitattributes-textdirectives"@ {
            Some(RustHook::GitattributesTextDirectives)
        } else if hook_name == "limit_commit_message_length"@ {
            Some(RustHook::LimitCommitMessageLength)
        } else if hook_name == "limit_commitsize"@ {
            Some(RustHook::LimitCommitsize)
        } else if hook_name == "limit_filesize"@ {
            Some(RustHook::LimitFilesize)
        } else if hook_name == "limit_path_length"@ {
            Some(RustHook::LimitPathLength)
        } else if hook_name == "no_bad_filenames"@ {
            Some(RustHook::NoBadFilenames)
        } else if hook_name == "no_insecure_filenames"@ {
            Some(RustHook::NoInsecureFilenames)
        } else if hook_name == "no_questionable_filenames"@ {
            Some(RustHook::NoQuestionableFilenames)
        } else if hook_name == "signed_source"@ {
            Some(RustHook::SignedSource)
        } else if hook_name == "tp2_symlinks_only"@ {
            Some(RustHook::TP2SymlinksOnly)
        } else if hook_name == "verify_integrity"@ {
            Some(RustHook::VerifyIntegrity)
        } else if hook_name == "verify_reviewedby_info"@ {
            Some(RustHook::VerifyReviewedbyInfo)
        } else {
            None
        }
    }

    pub fn from_name(hook_name: &str) -> (hook: Option<RustHook>)
        ensures
            hook == RustHook::spec_from_name(hook_name@),
    {
        let name = String::from_str(hook_name);
        if is_name(&name, "always_fail_changeset") {
            Some(RustHook::AlwaysFailChangeset)
        } else if is_name(&name, "block_cross_repo_commits") {
            Some(RustHook::BlockCrossRepoCommits)
        } else if is_name(&name, "block_empty_commit") {
            Some(RustHook::BlockEmptyCommit)
        } else if is_name(&name, "check_nocommit") {
            Some(RustHook::CheckNocommit)
        } else if is_name(&name, "check_unittests") {
            Some(RustHook::CheckUnittests)
        } else if is_name(&name, "conflict_markers") {
            Some(RustHook::ConflictMarkers)
        } else if is_name(&name, "deny_files") {
            Some(RustHook::DenyFiles)
        } else if is_name(&name, "ensure_valid_email") {
            Some(RustHook::EnsureValidEmail)
        } else if is_name(&name, "gitattributes-textdirectives") {
            Some(RustHook::GitattributesTextDirectives)
        } else if is_name(&name, "limit_commit_message_length") {
            Some(RustHook::LimitCommitMessageLength)
        } else if is_name(&name, "limit_commitsize") {
            Some(RustHook::LimitCommitsize)
        } else if is_name(&name, "limit_filesize") {
            Some(RustHook::LimitFilesize)
        } else if is_name(&name, "limit_path_length") {
            Some(RustHook::LimitPathLength)
        } else if is_name(&name, "no_bad_filenames") {
            Some(RustHook::NoBadFilenames)
        } else if is_name(&name, "no_insecure_filenames") {
            Some(RustHook::NoInsecureFilenames)
        } else if is_name(&name, "no_questionable_filenames") {
            Some(RustHook::NoQuestionableFilenames)
        } else if is_name(&name, "signed_source") {
            Some(RustHook::SignedSource)
        } else if is_name(&name, "tp2_symlinks_only") {
            Some(RustHook::TP2SymlinksOnly)
        } else if is_name(&name, "verify_integrity") {
            Some(RustHook::VerifyIntegrity)
        } else if is_name(&name, "verify_reviewedby_info") {
            Some(RustHook::VerifyReviewedbyInfo)
        } else {
            None
        }
    }
}

fn is_name(name: &String, literal: &str) -> (same: bool)
    ensures
        same == (name@ == literal@),
{
    *name == String::from_str(literal)
}

/// The name of a hook without the prefix `rust:`, which older
/// configurations put before it.
pub open spec fn spec_hook_name(name: Seq<char>) -> Seq<char> {
    if name.len() >= 5 && name.subrange(0, 5) == "rust:"@ {
        name.subrange(5, name.len() as int)
    } else {
        name
    }
}

pub fn hook_name(name: &str) -> (hook_name: &str)
    ensures
        hook_name@ == spec_hook_name(name@),
{
    proof {
        reveal_strlit("rust:");
    }
    let len = name.unicode_len();
    if len >= 5 && name.get_char(0) == 'r' && name.get_char(1) == 'u' && name.get_char(2) == 's'
        && name.get_char(3) == 't' && name.get_char(4) == ':' {
        assert(name@.subrange(0, 5) =~= "rust:"@);
        name.substring_char(5, len)
    } else {
        assert(name@.len() >= 5 ==> name@.subrange(0, 5) != "rust:"@) by {
            if name@.len() >= 5 {
                assert(forall|i: int| 0 <= i < 5 ==> name@.subrange(0, 5)[i] == name@[i]);
            }
        }
        name
    }
}

/// What a [`HookError`] denotes.
pub enum HookErrorView {
    InvalidRustHook(Seq<char>),
    NoSuchHookToDisable(Set<Seq<char>>),
    NoSuchBookmarkHook(Seq<char>, Set<Seq<char>>),
}

/// What can be wrong with the hooks of a repository.
#[derive(Debug)]
pub enum HookError {
    /// A hook of this name does not exist.
    InvalidRustHook(String),
    /// These hooks were to be disabled, but the repository has none of them.
    NoSuchHookToDisable(NameSet),
    /// The bookmark is guarded by these hooks, which the repository has not.
    NoSuchBookmarkHook(String, NameSet),
}

impl View for HookError {
    type V = HookErrorView;

    open spec fn view(&self) -> HookErrorView {
        match self {
            HookError::InvalidRustHook(name) => HookErrorView::InvalidRustHook(name@),
            HookError::NoSuchHookToDisable(names) => HookErrorView::NoSuchHookToDisable(names@),
            HookError::NoSuchBookmarkHook(bookmark, names) => HookErrorView::NoSuchBookmarkHook(
                bookmark@,
                names@,
            ),
        }
    }
}

/// What a [`HookLoader`] denotes.
pub struct HookLoaderView {
    /// The hooks that are disabled.
    pub disabled_hooks: Set<Seq<char>>,
    /// The disabled hooks that the repository has not named so far.
    pub hooks_not_disabled: Set<Seq<char>>,
    /// The hooks that were loaded.
    pub hook_set: Set<Seq<char>>,
}

impl HookLoaderView {
    /// What loading the hook of the given name gives, and the loader after
    /// it. A disabled hook is passed over, and counts as met. Any other hook
    /// must exist, and is loaded under the name the repository gave it.
    pub open spec fn load_hook(self, name: Seq<char>) -> (
        HookLoaderView,
        Result<Option<RustHook>, HookErrorView>,
    ) {
        if self.disabled_hooks.contains(name) {
            (
                HookLoaderView {
                    hooks_not_disabled: self.hooks_not_disabled.remove(name),
                    ..self
                },
                Ok(None),
            )
        } else {
            match RustHook::spec_from_name(spec_hook_name(name)) {
                Some(hook) => (
                    HookLoaderView { hook_set: self.hook_set.insert(name), ..self },
                    Ok(Some(hook)),
                ),
                None => (self, Err(HookErrorView::InvalidRustHook(name))),
            }
        }
    }

    /// The hooks of a bookmark that are not disabled, in their order.
    pub open spec fn enabled_hooks(self, hooks: Seq<String>) -> Seq<Seq<char>>
        decreases hooks.len(),
    {
        if hooks.len() == 0 {
            Seq::empty()
        } else {
            let init = self.enabled_hooks(hooks.drop_last());
            if self.disabled_hooks.contains(hooks.last()@) {
                init
            } else {
                init.push(hooks.last()@)
            }
        }
    }

    /// The hooks of a bookmark that are neither disabled nor loaded.
    pub open spec fn missing_hooks(self, hooks: Seq<String>) -> Set<Seq<char>> {
        Set::new(
            |name: Seq<char>|
                holds_name(hooks, name) && !self.disabled_hooks.contains(name)
                    && !self.hook_set.contains(name),
        )
    }
}

/// The state of loading the hooks of one repository.
pub struct HookLoader {
    disabled_hooks: NameSet,
    hooks_not_disabled: NameSet,
    hook_set: NameSet,
}

impl View for HookLoader {
    type V = HookLoaderView;

    closed spec fn view(&self) -> HookLoaderView {
        HookLoaderView {
            disabled_hooks: self.disabled_hooks@,
            hooks_not_disabled: self.hooks_not_disabled@,
            hook_set: self.hook_set@,
        }
    }
}

/// The names of a list, each as what it denotes.
pub open spec fn names_of(names: Seq<String>) -> Seq<Seq<char>> {
    names.map_values(|name: String| name@)
}

impl HookLoader {
    pub closed spec fn wf(&self) -> bool {
        &&& self.disabled_hooks.wf()
        &&& self.hooks_not_disabled.wf()
        &&& self.hook_set.wf()
    }

    /// A loader that has loaded nothing, with the given hooks disabled.
    pub fn new(disabled_hooks: &Vec<String>) -> (loader: HookLoader)
        ensures
            loader.wf(),
            forall|name: Seq<char>|
                loader@.disabled_hooks.contains(name) <==> holds_name(disabled_hooks@, name),
            loader@.hooks_not_disabled == loader@.disabled_hooks,
            loader@.hook_set == Set::<Seq<char>>::empty(),
    {
        let disabled = NameSet::from_names(disabled_hooks);
        let hooks_not_disabled = disabled.clone();
        HookLoader { disabled_hooks: disabled, hooks_not_disabled, hook_set: NameSet::new() }
    }

    /// Decides what to do with the hook that the repository names next:
    /// nothing where it is disabled, else which hook is to be built and
    /// registered under that name.
    pub fn load_hook(&mut self, name: &String) -> (loaded: Result<Option<RustHook>, HookError>)
        requires
            old(self).wf(),
        ensures
            final(self).wf(),
            final(self)@ == old(self)@.load_hook(name@).0,
            match loaded {
                Ok(hook) => old(self)@.load_hook(name@).1 == Ok::<
                    Option<RustHook>,
                    HookErrorView,
                >(hook),
                Err(error) => old(self)@.load_hook(name@).1 == Err::<
                    Option<RustHook>,
                    HookErrorView,
                >(error@),
            },
    {
        if self.disabled_hooks.contains(name) {
            self.hooks_not_disabled.remove(name);
            return Ok(None);
        }
        match RustHook::from_name(hook_name(name.as_str())) {
            Some(hook) => {
                self.hook_set.insert(name.clone());
                Ok(Some(hook))
            },
            None => Err(HookError::InvalidRustHook(name.clone())),
        }
    }

    /// After the last hook: every hook that was to be disabled must have
    /// been named by the repository.
    pub fn finish(&self) -> (finished: Result<(), HookError>)
        requires
            self.wf(),
        ensures
            match finished {
                Ok(_) => self@.hooks_not_disabled == Set::<Seq<char>>::empty(),
                Err(error) => self@.hooks_not_disabled != Set::<Seq<char>>::empty() && error@
                    == HookErrorView::NoSuchHookToDisable(self@.hooks_not_disabled),
            },
    {
        if self.hooks_not_disabled.is_empty() {
            Ok(())
        } else {
            Err(HookError::NoSuchHookToDisable(self.hooks_not_disabled.clone()))
        }
    }

    /// The hooks that guard a bookmark: those it names, without the disabled
    /// ones. Each of them must have been loaded.
    pub fn bookmark_hooks(&self, bookmark: &String, hooks: &Vec<String>) -> (kept: Result<
        Vec<String>,
        HookError,
    >)
        requires
            self.wf(),
        ensures
            match kept {
                Ok(kept) => self@.missing_hooks(hooks@) == Set::<Seq<char>>::empty() && names_of(
                    kept@,
                ) == self@.enabled_hooks(hooks@),
                Err(error) => self@.missing_hooks(hooks@) != Set::<Seq<char>>::empty() && error@
                    == HookErrorView::NoSuchBookmarkHook(bookmark@, self@.missing_hooks(hooks@)),
            },
    {
        let mut kept: Vec<String> = Vec::new();
        let mut missing = NameSet::new();
        let mut i: usize = 0;
        assert(names_of(kept@) =~= self@.enabled_hooks(hooks@.take(0)));
        assert(missing@ =~= self@.missing_hooks(hooks@.take(0)));
        while i < hooks.len()
            invariant
                i <= hooks.len(),
                self.wf(),
                missing.wf(),
                names_of(kept@) == self@.enabled_hooks(hooks@.take(i as int)),
                missing@ == self@.missing_hooks(hooks@.take(i as int)),
            decreases hooks.len() - i,
        {
            let ghost taken = hooks@.take(i as int);
            let ghost upto = hooks@.take(i + 1);
            let ghost kept_before = kept@;
            let ghost missing_before = missing@;
            proof {
                assert(upto.drop_last() =~= taken);
                assert(upto.last() == hooks@[i as int]);
            }
            if !self.disabled_hooks.contains(&hooks[i]) {
                kept.push(hooks[i].clone());
                assert(names_of(kept@) =~= names_of(kept_before).push(hooks@[i as int]@));
                if !self.hook_set.contains(&hooks[i]) {
                    missing.insert(hooks[i].clone());
                }
            }
            proof {
                let name_i = hooks@[i as int]@;
                assert forall|name: Seq<char>| #[trigger]
                    missing@.contains(name) <==> self@.missing_hooks(upto).contains(name) by {
                    if holds_name(upto, name) {
                        let k = choose|k: int| 0 <= k < upto.len() && (#[trigger] upto[k])@ == name;
                        if k < i {
                            assert(taken[k]@ == name);
                        }
                    }
                    if holds_name(taken, name) {
                        let k = choose|k: int|
                            0 <= k < taken.len() && (#[trigger] taken[k])@ == name;
                        assert(upto[k]@ == name);
                    }
                    assert(upto[i as int]@ == name_i);
                    assert(missing_before.contains(name) <==> self@.missing_hooks(taken).contains(
                        name,
                    ));
                }
                assert(missing@ =~= self@.missing_hooks(upto));
            }
            i += 1;
        }
        assert(hooks@.take(i as int) =~= hooks@);
        if missing.is_empty() {
            Ok(kept)
        } else {
            Err(HookError::NoSuchBookmarkHook(bookmark.clone(), missing))
        }
    }
}

/// The hooks that guard one bookmark, as the repository names them.
pub struct BookmarkParams {
    pub bookmark: String,
    pub hooks: Vec<String>,
}

/// What is to be done for a repository whose hooks are in order.
pub struct LoadedHooks {
    /// The hooks to build and register, each under the name the repository
    /// gave it, in the order in which the repository names them.
    pub hooks: Vec<(String, RustHook)>,
    /// For each bookmark, in the repository's order, the hooks to set.
    pub bookmarks: Vec<(String, Vec<String>)>,
}

/// What a [`LoadedHooks`] denotes.
pub struct LoadedHooksView {
    pub hooks: Seq<(Seq<char>, RustHook)>,
    pub bookmarks: Seq<(Seq<char>, Seq<Seq<char>>)>,
}

impl View for LoadedHooks {
    type V = LoadedHooksView;

    open spec fn view(&self) -> LoadedHooksView {
        LoadedHooksView {
            hooks: self.hooks@.map_values(|hook: (String, RustHook)| (hook.0@, hook.1)),
            bookmarks: self.bookmarks@.map_values(
                |bookmark: (String, Vec<String>)| (bookmark.0@, names_of(bookmark.1@)),
            ),
        }
    }
}

/// The loader with the given hooks disabled, before any hook is loaded.
pub open spec fn fresh_loader(disabled_hooks: Seq<String>) -> HookLoaderView {
    let disabled = Set::new(|name: Seq<char>| holds_name(disabled_hooks, name));
    HookLoaderView {
        disabled_hooks: disabled,
        hooks_not_disabled: disabled,
        hook_set: Set::empty(),
    }
}

/// Loading the given hooks in order: the loader afterwards and the hooks to
/// register, or the first error, at which loading stops.
pub open spec fn load_all(loader: HookLoaderView, hooks: Seq<String>) -> (
    HookLoaderView,
    Result<Seq<(Seq<char>, RustHook)>, HookErrorView>,
)
    decreases hooks.len(),
{
    if hooks.len() == 0 {
        (loader, Ok(Seq::empty()))
    } else {
        let (before, loaded) = load_all(loader, hooks.drop_last());
        match loaded {
            Err(error) => (before, Err(error)),
            Ok(registered) => {
                let name = hooks.last()@;
                let (after, hook) = before.load_hook(name);
                match hook {
                    Ok(None) => (after, Ok(registered)),
                    Ok(Some(hook)) => (after, Ok(registered.push((name, hook)))),
                    Err(error) => (after, Err(error)),
                }
            },
        }
    }
}

/// The hooks to set for the given bookmarks, in order, or the error of the
/// first bookmark that names a hook which is neither disabled nor loaded.
pub open spec fn set_all(loader: HookLoaderView, bookmarks: Seq<BookmarkParams>) -> Result<
    Seq<(Seq<char>, Seq<Seq<char>>)>,
    HookErrorView,
>
    decreases bookmarks.len(),
{
    if bookmarks.len() == 0 {
        Ok(Seq::empty())
    } else {
        match set_all(loader, bookmarks.drop_last()) {
            Err(error) => Err(error),
            Ok(set) => {
                let last = bookmarks.last();
                if loader.missing_hooks(last.hooks@) == Set::<Seq<char>>::empty() {
                    Ok(set.push((last.bookmark@, loader.enabled_hooks(last.hooks@))))
                } else {
                    Err(
                        HookErrorView::NoSuchBookmarkHook(
                            last.bookmark@,
                            loader.missing_hooks(last.hooks@),
                        ),
                    )
                }
            },
        }
    }
}

/// What loading the hooks of a repository gives: first every hook is loaded,
/// in order; then every disabled hook must have been met; then every
/// bookmark is given its hooks, in order. The first error ends it.
pub open spec fn spec_load_hooks(
    hooks: Seq<String>,
    bookmarks: Seq<BookmarkParams>,
    disabled_hooks: Seq<String>,
) -> Result<LoadedHooksView, HookErrorView> {
    let (loader, loaded) = load_all(fresh_loader(disabled_hooks), hooks);
    match loaded {
        Err(error) => Err(error),
        Ok(registered) => if loader.hooks_not_disabled != Set::<Seq<char>>::empty() {
            Err(HookErrorView::NoSuchHookToDisable(loader.hooks_not_disabled))
        } else {
            match set_all(loader, bookmarks) {
                Err(error) => Err(error),
                Ok(set) => Ok(LoadedHooksView { hooks: registered, bookmarks: set }),
            }
        },
    }
}

/// Decides which hooks of a repository are to be registered and which hooks
/// guard each bookmark, given the hooks that are disabled.
pub fn load_hooks(
    hooks: &Vec<String>,
    bookmarks: &Vec<BookmarkParams>,
    disabled_hooks: &Vec<String>,
) -> (loaded: Result<LoadedHooks, HookError>)
    ensures
        match loaded {
            Ok(loaded) => spec_load_hooks(hooks@, bookmarks@, disabled_hooks@) == Ok::<
                LoadedHooksView,
                HookErrorView,
            >(loaded@),
            Err(error) => spec_load_hooks(hooks@, bookmarks@, disabled_hooks@) == Err::<
                LoadedHooksView,
                HookErrorView,
            >(error@),
        },
{
    let mut loader = HookLoader::new(disabled_hooks);
    assert(loader@.disabled_hooks =~= fresh_loader(disabled_hooks@).disabled_hooks);
    assert(loader@ == fresh_loader(disabled_hooks@));
    let mut registered: Vec<(String, RustHook)> = Vec::new();
    let ghost view_of = |hook: (String, RustHook)| (hook.0@, hook.1);
    let mut i: usize = 0;
    assert(hooks@.take(0) =~= Seq::<String>::empty());
    assert(registered@.map_values(view_of) =~= Seq::<(Seq<char>, RustHook)>::empty());
    while i < hooks.len()
        invariant
            i <= hooks.len(),
            loader.wf(),
            view_of == |hook: (String, RustHook)| (hook.0@, hook.1),
            load_all(fresh_loader(disabled_hooks@), hooks@.take(i as int)) == (
                loader@,
                Ok::<Seq<(Seq<char>, RustHook)>, HookErrorView>(registered@.map_values(view_of)),
            ),
        decreases hooks.len() - i,
    {
        let ghost upto = hooks@.take(i + 1);
        let ghost before = registered@;
        proof {
            assert(upto.drop_last() =~= hooks@.take(i as int));
            assert(upto.last() == hooks@[i as int]);
        }
        match loader.load_hook(&hooks[i]) {
            Ok(None) => {},
            Ok(Some(hook)) => {
                registered.push((hooks[i].clone(), hook));
                assert(registered@.map_values(view_of) =~= before.map_values(view_of).push(
                    (hooks@[i as int]@, hook),
                ));
            },
            Err(error) => {
                proof {
                    lemma_load_all_stays_failed(
                        fresh_loader(disabled_hooks@),
                        hooks@,
                        (i + 1) as int,
                    );
                }
                return Err(error);
            },
        }
        i += 1;
    }
    assert(hooks@.take(i as int) =~= hooks@);
    match loader.finish() {
        Ok(_) => {},
        Err(error) => {
            return Err(error);
        },
    }
    let mut set: Vec<(String, Vec<String>)> = Vec::new();
    let ghost names = |bookmark: (String, Vec<String>)| (bookmark.0@, names_of(bookmark.1@));
    let mut j: usize = 0;
    assert(bookmarks@.take(0) =~= Seq::<BookmarkParams>::empty());
    assert(set@.map_values(names) =~= Seq::<(Seq<char>, Seq<Seq<char>>)>::empty());
    while j < bookmarks.len()
        invariant
            j <= bookmarks.len(),
            loader.wf(),
            names == |bookmark: (String, Vec<String>)| (bookmark.0@, names_of(bookmark.1@)),
            view_of == |hook: (String, RustHook)| (hook.0@, hook.1),
            loader@.hooks_not_disabled == Set::<Seq<char>>::empty(),
            load_all(fresh_loader(disabled_hooks@), hooks@) == (
                loader@,
                Ok::<Seq<(Seq<char>, RustHook)>, HookErrorView>(registered@.map_values(view_of)),
            ),
            set_all(loader@, bookmarks@.take(j as int)) == Ok::<
                Seq<(Seq<char>, Seq<Seq<char>>)>,
                HookErrorView,
            >(set@.map_values(names)),
        decreases bookmarks.len() - j,
    {
        let ghost upto = bookmarks@.take(j + 1);
        let ghost before = set@;
        proof {
            assert(upto.drop_last() =~= bookmarks@.take(j as int));
            assert(upto.last() == bookmarks@[j as int]);
        }
        let params = &bookmarks[j];
        match loader.bookmark_hooks(&params.bookmark, &params.hooks) {
            Ok(kept) => {
                set.push((params.bookmark.clone(), kept));
                assert(set@.map_values(names) =~= before.map_values(names).push(
                    (params.bookmark@, names_of(kept@)),
                ));
            },
            Err(error) => {
                proof {
                    lemma_set_all_stays_failed(loader@, bookmarks@, (j + 1) as int);
                }
                return Err(error);
            },
        }
        j += 1;
    }
    assert(bookmarks@.take(j as int) =~= bookmarks@);
    Ok(LoadedHooks { hooks: registered, bookmarks: set })
}

/// Once loading has failed at some hook, the hooks after it change nothing.
proof fn lemma_load_all_stays_failed(loader: HookLoaderView, hooks: Seq<String>, upto: int)
    requires
        0 <= upto <= hooks.len(),
        load_all(loader, hooks.take(upto)).1 is Err,
    ensures
        load_all(loader, hooks) == load_all(loader, hooks.take(upto)),
    decreases hooks.len(),
{
    if upto < hooks.len() {
        assert(hooks.drop_last().take(upto) =~= hooks.take(upto));
        lemma_load_all_stays_failed(loader, hooks.drop_last(), upto);
    } else {
        assert(hooks.take(upto) =~= hooks);
    }
}

/// Once a bookmark has failed, the bookmarks after it change nothing.
proof fn lemma_set_all_stays_failed(
    loader: HookLoaderView,
    bookmarks: Seq<BookmarkParams>,
    upto: int,
)
    requires
        0 <= upto <= bookmarks.len(),
        set_all(loader, bookmarks.take(upto)) is Err,
    ensures
        set_all(loader, bookmarks) == set_all(loader, bookmarks.take(upto)),
    decreases bookmarks.len(),
{
    if upto < bookmarks.len() {
        assert(bookmarks.drop_last().take(upto) =~= bookmarks.take(upto));
        lemma_set_all_stays_failed(loader, bookmarks.drop_last(), upto);
    } else {
        assert(bookmarks.take(upto) =~= bookmarks);
    }
}

} // verus!
