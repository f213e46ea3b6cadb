use file_history::hook_loader::{
    hook_name, load_hooks, BookmarkParams, HookError, HookKind, HookLoader, RustHook,
};
use file_history::name_set::{position_of, NameSet};

fn names(list: &[&str]) -> Vec<String> {
    list.iter().map(|s| s.to_string()).collect()
}

fn sorted(set: NameSet) -> Vec<String> {
    let mut list = set.into_vec();
    list.sort();
    list
}

fn bookmark(name: &str, hooks: &[&str]) -> BookmarkParams {
    BookmarkParams { bookmark: name.to_string(), hooks: names(hooks) }
}

const ALL: [(&str, RustHook, HookKind); 20] = [
    ("always_fail_changeset", RustHook::AlwaysFailChangeset, HookKind::ChangesetHook),
    ("block_cross_repo_commits", RustHook::BlockCrossRepoCommits, HookKind::FileHook),
    ("block_empty_commit", RustHook::BlockEmptyCommit, HookKind::ChangesetHook),
    ("check_nocommit", RustHook::CheckNocommit, HookKind::FileHook),
    ("check_unittests", RustHook::CheckUnittests, HookKind::ChangesetHook),
    ("conflict_markers", RustHook::ConflictMarkers, HookKind::FileHook),
    ("deny_files", RustHook::DenyFiles, HookKind::FileHook),
    ("ensure_valid_email", RustHook::EnsureValidEmail, HookKind::ChangesetHook),
    ("gitattributes-textdirectives", RustHook::GitattributesTextDirectives, HookKind::FileHook),
    ("limit_commit_message_length", RustHook::LimitCommitMessageLength, HookKind::ChangesetHook),
    ("limit_commitsize", RustHook::LimitCommitsize, HookKind::ChangesetHook),
    ("limit_filesize", RustHook::LimitFilesize, HookKind::FileHook),
    ("limit_path_length", RustHook::LimitPathLength, HookKind::FileHook),
    ("no_bad_filenames", RustHook::NoBadFilenames, HookKind::FileHook),
    ("no_insecure_filenames", RustHook::NoInsecureFilenames, HookKind::FileHook),
    ("no_questionable_filenames", RustHook::NoQuestionableFilenames, HookKind::FileHook),
    ("signed_source", RustHook::SignedSource, HookKind::FileHook),
    ("tp2_symlinks_only", RustHook::TP2SymlinksOnly, HookKind::FileHook),
    ("verify_integrity", RustHook::VerifyIntegrity, HookKind::ChangesetHook),
    ("verify_reviewedby_info", RustHook::VerifyReviewedbyInfo, HookKind::ChangesetHook),
];

#[test]
fn every_hook_is_known_by_its_name() {
    for (name, hook, kind) in ALL {
        assert_eq!(RustHook::from_name(name), Some(hook));
        assert_eq!(hook.kind(), kind);
    }
    assert_eq!(RustHook::from_name("gitattributes_textdirectives"), None);
    assert_eq!(RustHook::from_name("rust:deny_files"), None);
    assert_eq!(RustHook::from_name(""), None);
    assert_eq!(RustHook::from_name("deny_file"), None);
}

#[test]
fn the_old_prefix_is_taken_off() {
    assert_eq!(hook_name("rust:deny_files"), "deny_files");
    assert_eq!(hook_name("deny_files"), "deny_files");
    assert_eq!(hook_name("rust:"), "");
    assert_eq!(hook_name("rust"), "rust");
    assert_eq!(hook_name("Rust:deny_files"), "Rust:deny_files");
    assert_eq!(hook_name("rust:rust:x"), "rust:x");
    assert_eq!(hook_name("rust:pr\u{fc}fung"), "pr\u{fc}fung");
    assert_eq!(hook_name(""), "");
}

#[test]
fn hooks_are_registered_under_the_name_given() {
    let loaded = load_hooks(
        &names(&["rust:deny_files", "verify_integrity"]),
        &vec![bookmark("master", &["rust:deny_files"]), bookmark("stable", &[])],
        &Vec::new(),
    )
    .unwrap();
    assert_eq!(
        loaded.hooks,
        vec![
            ("rust:deny_files".to_string(), RustHook::DenyFiles),
            ("verify_integrity".to_string(), RustHook::VerifyIntegrity),
        ]
    );
    assert_eq!(
        loaded.bookmarks,
        vec![
            ("master".to_string(), names(&["rust:deny_files"])),
            ("stable".to_string(), Vec::new()),
        ]
    );
}

#[test]
fn a_disabled_hook_is_passed_over() {
    let loaded = load_hooks(
        &names(&["deny_files", "not_a_hook", "signed_source"]),
        &vec![bookmark("master", &["not_a_hook", "signed_source", "deny_files", "signed_source"])],
        &names(&["not_a_hook", "deny_files"]),
    )
    .unwrap();
    assert_eq!(loaded.hooks, vec![("signed_source".to_string(), RustHook::SignedSource)]);
    assert_eq!(
        loaded.bookmarks,
        vec![("master".to_string(), names(&["signed_source", "signed_source"]))]
    );
}

#[test]
fn an_unknown_hook_is_refused() {
    match load_hooks(&names(&["deny_files", "rust:nothing", "also_nothing"]), &Vec::new(), &Vec::new())
    {
        Err(HookError::InvalidRustHook(name)) => assert_eq!(name, "rust:nothing"),
        other => panic!("{:?}", other.map(|loaded| loaded.hooks)),
    }
}

#[test]
fn a_hook_to_disable_must_exist() {
    match load_hooks(
        &names(&["deny_files"]),
        &vec![bookmark("master", &["nothing"])],
        &names(&["deny_files", "gone", "away", "gone"]),
    ) {
        Err(HookError::NoSuchHookToDisable(missing)) => {
            assert_eq!(sorted(missing), names(&["away", "gone"]))
        }
        other => panic!("{:?}", other.map(|loaded| loaded.hooks)),
    }
}

#[test]
fn a_bookmark_hook_must_be_loaded() {
    match load_hooks(
        &names(&["deny_files", "signed_source"]),
        &vec![
            bookmark("fine", &["deny_files"]),
            bookmark("master", &["conflict_markers", "deny_files", "other", "conflict_markers"]),
            bookmark("later", &["nothing"]),
        ],
        &names(&["signed_source"]),
    ) {
        Err(HookError::NoSuchBookmarkHook(bookmark, missing)) => {
            assert_eq!(bookmark, "master");
            assert_eq!(sorted(missing), names(&["conflict_markers", "other"]));
        }
        other => panic!("{:?}", other.map(|loaded| loaded.hooks)),
    }
}

#[test]
fn a_loader_can_be_stepped_hook_by_hook() {
    let mut loader = HookLoader::new(&names(&["off", "never_named"]));
    assert_eq!(loader.load_hook(&"off".to_string()).unwrap(), None);
    assert_eq!(
        loader.load_hook(&"rust:check_nocommit".to_string()).unwrap(),
        Some(RustHook::CheckNocommit)
    );
    assert!(matches!(
        loader.load_hook(&"bogus".to_string()),
        Err(HookError::InvalidRustHook(_))
    ));
    match loader.finish() {
        Err(HookError::NoSuchHookToDisable(missing)) => {
            assert_eq!(sorted(missing), names(&["never_named"]))
        }
        other => panic!("{:?}", other),
    }
    assert_eq!(
        loader
            .bookmark_hooks(&"b".to_string(), &names(&["off", "rust:check_nocommit"]))
            .unwrap(),
        names(&["rust:check_nocommit"])
    );
    // The name without the prefix was not loaded.
    assert!(matches!(
        loader.bookmark_hooks(&"b".to_string(), &names(&["check_nocommit"])),
        Err(HookError::NoSuchBookmarkHook(_, _))
    ));

    let loader = HookLoader::new(&Vec::new());
    assert!(loader.finish().is_ok());
}

#[test]
fn a_name_set_holds_each_name_once() {
    let mut set = NameSet::new();
    assert!(set.is_empty());
    assert!(set.insert("a".to_string()));
    assert!(set.insert("b".to_string()));
    assert!(!set.insert("a".to_string()));
    assert!(set.contains(&"a".to_string()));
    assert!(!set.contains(&"c".to_string()));
    assert!(!set.remove(&"c".to_string()));
    assert!(set.remove(&"a".to_string()));
    assert!(!set.contains(&"a".to_string()));
    assert!(!set.is_empty());
    let copy = set.clone();
    assert!(set.remove(&"b".to_string()));
    assert!(set.is_empty());
    assert_eq!(copy.into_vec(), names(&["b"]));

    let set = NameSet::from_names(&names(&["x", "y", "x", "z", "y"]));
    assert_eq!(set.into_vec(), names(&["x", "y", "z"]));
}

#[test]
fn a_name_is_found_where_it_first_stands() {
    let list = names(&["a", "b", "a"]);
    assert_eq!(position_of(&list, &"a".to_string()), Some(0));
    assert_eq!(position_of(&list, &"b".to_string()), Some(1));
    assert_eq!(position_of(&list, &"c".to_string()), None);
}
