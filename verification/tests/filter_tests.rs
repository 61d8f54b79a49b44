use watchrun::filter::{
    default_ignore_globs, find_project_gitignore, first_invalid_glob, handle_event, kind_triggers,
    ChangeKind, Filter, GitignoreRules,
};
use watchrun::paths::{extension_of, last_segment, parent_dir, str_eq, strip_prefix_rel};

#[test]
fn test_extension() {
    let mut filter = Filter::new();
    filter.extensions.push("rs".to_string());
    let p = "/Users/debug/.fingerprint/server2-66aa47d134ef7589/invoked.timestamp";
    assert_eq!(
        handle_event(&p, &filter),
        false,
        ".timestamp ignored when watching .rs files"
    );

    filter.extensions.push("ts".to_string());
    let p = "foo/bar.d.ts";
    assert_eq!(handle_event(&p, &filter), false, "handle two file extensions");
}

#[test]
fn test_gitignore() {
    let mut filter = Filter::new();
    let root = "/Users/kurt/work/server/";
    filter.gitignore = Some(GitignoreRules {
        root: root.to_string(),
        lines: vec!["/target".to_string()],
    });
    let p = "/Users/kurt/work/server/target/debug/.fingerprint/foo.rs";
    assert_eq!(
        handle_event(&p, &filter),
        false,
        "gitignore should understand paths relative to project root"
    );
}

#[test]
fn test_ignore() {
    let mut filter = Filter::new();
    filter.ignore_globs.push("**/.DS_Store".to_string());
    let path = "/Users/kurt/work/server/dist/.DS_Store";
    assert_eq!(handle_event(&path, &filter), false, "ignore globs should match");

    filter.ignore_globs.push("**/.git".to_string());
    let path = "/Users/kurt/work/server/.git";
    assert_eq!(handle_event(&path, &filter), false, "ignore globs should match");

    filter.ignore_globs.push("dist/*".to_string());
    let path = "dist/foo.ts";
    assert_eq!(handle_event(&path, &filter), false, "ignore globs should match");
}

#[test]
fn watched_file_admitted_despite_every_ignore_rule() {
    let mut filter = Filter::new();
    filter.working_dir = "/repo".to_string();
    filter.watched_files.push("/repo/.env".to_string());
    filter.ignore_globs.push("**".to_string());
    filter.extensions.push("rs".to_string());
    filter.gitignore = Some(GitignoreRules {
        root: "/repo".to_string(),
        lines: vec!["*".to_string()],
    });
    assert_eq!(handle_event("/repo/.env", &filter), true);
    // The same path not listed as watched is rejected by the very same rules.
    filter.watched_files.clear();
    assert_eq!(handle_event("/repo/.env", &filter), false);
}

#[test]
fn extension_filter_dominates_gitignore() {
    let mut filter = Filter::new();
    filter.working_dir = "/repo".to_string();
    filter.extensions.push("rs".to_string());
    // A whitelist rule that would rescue the path cannot: the extension check
    // already rejected it.
    filter.gitignore = Some(GitignoreRules {
        root: "/repo".to_string(),
        lines: vec!["*.txt".to_string(), "!notes.txt".to_string()],
    });
    assert_eq!(handle_event("/repo/notes.txt", &filter), false);
    // An ignore rule on the directory cannot reject a path that passes the
    // extension check: the extension branch short-circuits the gitignore.
    filter.gitignore = Some(GitignoreRules {
        root: "/repo".to_string(),
        lines: vec!["/src".to_string()],
    });
    assert_eq!(handle_event("/repo/src/main.rs", &filter), true);
}

#[test]
fn repeated_calls_agree() {
    let mut filter = Filter::new();
    filter.working_dir = "/repo".to_string();
    filter.extensions.push("rs".to_string());
    let first = handle_event("/repo/src/main.rs", &filter);
    let second = handle_event("/repo/src/main.rs", &filter);
    assert_eq!(first, second);
    assert_eq!(first, true);
}

#[test]
fn scenario_extensions_with_default_ignores() {
    let mut filter = Filter::new();
    filter.working_dir = "/repo".to_string();
    filter.extensions.push("rs".to_string());
    filter.ignore_globs = default_ignore_globs();
    assert_eq!(handle_event("/repo/src/main.rs", &filter), true);
    assert_eq!(handle_event("/repo/target/debug/foo", &filter), false);
}

#[test]
fn scenario_gitignore_rejects_build_tree() {
    let mut filter = Filter::new();
    let root = "/home/dev/proj";
    filter.working_dir = root.to_string();
    filter.gitignore = Some(GitignoreRules {
        root: root.to_string(),
        lines: vec!["/target".to_string()],
    });
    // No extension filter and no explicit glob mentions target, yet the
    // gitignore directory rule covers everything beneath it.
    assert_eq!(handle_event("/home/dev/proj/target/debug/build.log", &filter), false);
    assert_eq!(handle_event("/home/dev/proj/src/lib.c", &filter), true);
}

#[test]
fn gitignore_last_matching_pattern_wins() {
    let mut filter = Filter::new();
    filter.working_dir = "/repo".to_string();
    filter.gitignore = Some(GitignoreRules {
        root: "/repo".to_string(),
        lines: vec!["*.log".to_string(), "!keep.log".to_string()],
    });
    assert_eq!(handle_event("/repo/keep.log", &filter), true);
    assert_eq!(handle_event("/repo/other.log", &filter), false);
}

#[test]
fn paths_outside_working_directory_rejected() {
    let mut filter = Filter::new();
    filter.working_dir = "/repo".to_string();
    assert_eq!(handle_event("/elsewhere/a.rs", &filter), false);
    // A prefix match that is not a segment boundary does not count.
    assert_eq!(handle_event("/repository/a.rs", &filter), false);
    assert_eq!(handle_event("/repo/a.rs", &filter), true);
}

#[test]
fn default_ignore_globs_reject_the_usual_noise() {
    let mut filter = Filter::new();
    filter.working_dir = "/repo".to_string();
    filter.ignore_globs = default_ignore_globs();
    assert_eq!(handle_event("/repo/notes.txt~", &filter), false);
    assert_eq!(handle_event("/repo/dist/.DS_Store", &filter), false);
    assert_eq!(handle_event("/repo/.git/HEAD", &filter), false);
    assert_eq!(handle_event("/repo/src/main.rs", &filter), true);
}

#[test]
fn bare_filename_pattern_matches_at_any_depth() {
    // A deliberate choice: an ignore pattern without a directory separator
    // matches a bare filename anywhere in the tree, not only at the root.
    let mut filter = Filter::new();
    filter.working_dir = "/repo".to_string();
    filter.ignore_globs.push("*~".to_string());
    assert_eq!(handle_event("/repo/deep/dir/notes.txt~", &filter), false);
    assert_eq!(handle_event("/repo/notes.txt~", &filter), false);
}

#[test]
fn gitignore_discovery_stops_at_the_root() {
    // Nothing above a nonexistent directory holds a .gitignore (nor a .git
    // marker), so the walk reaches the filesystem root and gives up.
    assert_eq!(find_project_gitignore("/nonexistent-dir-for-this-check"), None);
}

#[test]
fn invalid_glob_is_reported_with_its_index() {
    let globs = vec!["*.rs".to_string(), "[".to_string(), "docs/*".to_string()];
    assert_eq!(first_invalid_glob(&globs), Some(1));
    let good = vec!["*.rs".to_string(), "docs/*".to_string()];
    assert_eq!(first_invalid_glob(&good), None);
    assert_eq!(first_invalid_glob(&Vec::new()), None);
}

#[test]
fn extension_extraction_rules() {
    assert_eq!(extension_of("main.rs"), "rs");
    assert_eq!(extension_of("bar.d.ts"), "d.ts");
    assert_eq!(extension_of(".env"), "env");
    assert_eq!(extension_of("Makefile"), "Makefile");
    assert_eq!(last_segment("/a/b/c.rs"), "c.rs");
    assert_eq!(last_segment("plain"), "plain");
}

#[test]
fn path_model_helpers() {
    assert!(str_eq("abc", "abc"));
    assert!(!str_eq("abc", "abd"));
    assert_eq!(strip_prefix_rel("/repo/src/a.rs", "/repo"), Some("src/a.rs"));
    assert_eq!(strip_prefix_rel("/repo", "/repo"), Some(""));
    assert_eq!(strip_prefix_rel("/repository", "/repo"), None);
    assert_eq!(strip_prefix_rel("x/y", ""), Some("x/y"));
    assert_eq!(parent_dir("/a/b"), Some("/a"));
    assert_eq!(parent_dir("/a"), Some("/"));
    assert_eq!(parent_dir("/"), None);
    assert_eq!(parent_dir("plain"), None);
}

#[test]
fn only_write_like_events_trigger() {
    assert!(kind_triggers(&ChangeKind::Write));
    assert!(kind_triggers(&ChangeKind::NoticeWrite));
    assert!(kind_triggers(&ChangeKind::Chmod));
    assert!(!kind_triggers(&ChangeKind::Other));
}
