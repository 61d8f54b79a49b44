//! The path filter engine: decides whether a changed path should trigger a
//! restart. Rule evaluation order is fixed and observable: explicitly watched
//! file -> working-directory containment -> ignore globs -> extension
//! allow-list -> project gitignore -> global gitignore; the first decisive
//! rule wins, and the extension allow-list, when present, short-circuits both
//! gitignore stages.

use vstd::prelude::*;

use crate::paths::{
    after_last_slash, contains_str, ext_of, extension_of, last_segment, parent_dir, parent_seq,
    rel_of, strip_ok, strip_prefix_rel, lemma_parent_shorter,
};

verus! {

/// Whether a shell-style glob pattern matches a path, exactly as
/// `glob::Pattern::matches` decides it; an invalid pattern matches nothing.
pub uninterp spec fn glob_match(pattern: Seq<char>, path: Seq<char>) -> bool;

/// Whether a pattern is a well-formed shell-style glob, exactly as
/// `glob::Pattern::new` decides it.
pub uninterp spec fn glob_valid(pattern: Seq<char>) -> bool;

/// What one gitignore-style rule set says about one path, exactly as the
/// `ignore` crate decides it: `Some(true)` for an ignore match, `Some(false)`
/// for a whitelist match, `None` when no rule matches the path itself.
pub uninterp spec fn gitignore_match(
    root: Seq<char>,
    lines: Seq<Seq<char>>,
    path: Seq<char>,
    is_dir: bool,
) -> Option<bool>;

/// Relies on `glob::Pattern::{new, matches}` (crate `glob`): whether a pattern
/// matches a path is a function of the pattern text and the path alone, and an
/// invalid pattern matches nothing.
#[verifier::external_body]
fn glob_match_exec(pattern: &str, path: &str) -> (r: bool)
    ensures
        r == glob_match(pattern@, path@),
{
    match glob::Pattern::new(pattern) {
        Ok(p) => p.matches(path),
        Err(_) => false,
    }
}

/// Relies on `glob::Pattern::new` (crate `glob`): whether a pattern text
/// compiles as a glob is a function of the text alone.
#[verifier::external_body]
fn glob_valid_exec(pattern: &str) -> (r: bool)
    ensures
        r == glob_valid(pattern@),
{
    glob::Pattern::new(pattern).is_ok()
}

/// Relies on `ignore::gitignore::{GitignoreBuilder, Gitignore::matched}`
/// (crate `ignore`): what a gitignore rule set, rooted at `root`, says about
/// one path is a function of the root, the rule lines, the path, and the
/// directory flag alone. Unparsable lines are skipped, as the crate itself
/// skips them when reading a gitignore file.
#[verifier::external_body]
fn gitignore_match_exec(root: &str, lines: &Vec<String>, path: &str, is_dir: bool) -> (r: Option<
    bool,
>)
    ensures
        r == gitignore_match(root@, lines.deep_view(), path@, is_dir),
{
    let mut builder = ignore::gitignore::GitignoreBuilder::new(root);
    for line in lines.iter() {
        let _ = builder.add_line(None, line);
    }
    match builder.build() {
        Ok(g) => match g.matched(path, is_dir) {
            ignore::Match::Ignore(_) => Some(true),
            ignore::Match::Whitelist(_) => Some(false),
            ignore::Match::None => None,
        },
        Err(_) => None,
    }
}

/// Relies on `std::path::Path::exists`; the answer depends on the state of
/// the filesystem at the moment of the call.
#[verifier::external_body]
fn path_exists(p: &str) -> bool {
    std::path::Path::new(p).exists()
}

/// Relies on `std::path::Path::is_dir`; the answer depends on the state of
/// the filesystem at the moment of the call.
#[verifier::external_body]
fn path_is_dir(p: &str) -> bool {
    std::path::Path::new(p).is_dir()
}

/// One gitignore-style rule set: the directory it is rooted at and its rule
/// lines, in file order (later rules override earlier ones).
pub struct GitignoreRules {
    pub root: String,
    pub lines: Vec<String>,
}

/// The mathematical content of a `GitignoreRules`.
pub struct GitignoreView {
    pub root: Seq<char>,
    pub lines: Seq<Seq<char>>,
}

impl View for GitignoreRules {
    type V = GitignoreView;

    open spec fn view(&self) -> GitignoreView {
        GitignoreView { root: self.root@, lines: self.lines.deep_view() }
    }
}

#[via_fn]
proof fn gitignore_rejects_spec_decreases(
    root: Seq<char>,
    lines: Seq<Seq<char>>,
    path: Seq<char>,
    is_dir: bool,
) {
    lemma_parent_shorter(path);
}

/// Whether a gitignore rule set rejects a path: the path itself is consulted
/// first; when no rule decides it, each parent directory is consulted in turn,
/// as a directory, so that an ignored directory ignores everything beneath it.
pub open spec fn gitignore_rejects_spec(
    root: Seq<char>,
    lines: Seq<Seq<char>>,
    path: Seq<char>,
    is_dir: bool,
) -> bool
    decreases path.len(),
    via gitignore_rejects_spec_decreases
{
    match gitignore_match(root, lines, path, is_dir) {
        Some(b) => b,
        None => match parent_seq(path) {
            Some(par) => gitignore_rejects_spec(root, lines, par, true),
            None => false,
        },
    }
}

/// Test a path, and then each of its parent directories, against one
/// gitignore rule set.
pub fn gitignore_rejects(rules: &GitignoreRules, path: &str, is_dir: bool) -> (r: bool)
    ensures
        r == gitignore_rejects_spec(rules@.root, rules@.lines, path@, is_dir),
    decreases path@.len(),
{
    match gitignore_match_exec(rules.root.as_str(), &rules.lines, path, is_dir) {
        Some(b) => b,
        None => {
            proof {
                lemma_parent_shorter(path@);
            }
            match parent_dir(path) {
                Some(par) => gitignore_rejects(rules, par, true),
                None => false,
            }
        },
    }
}

/// The filter rule set, immutable once built for a run.
pub struct Filter {
    /// Absolute base path; matching is relative to this directory.
    pub working_dir: String,
    /// Canonical absolute paths watched as individual files; always admitted.
    pub watched_files: Vec<String>,
    /// When non-empty, only paths whose extension is listed are admitted, and
    /// this rule short-circuits both gitignore stages.
    pub extensions: Vec<String>,
    /// Shell-style glob patterns; a match on the relativized path rejects it.
    pub ignore_globs: Vec<String>,
    /// Rules of the project `.gitignore`, when one was discovered.
    pub gitignore: Option<GitignoreRules>,
    /// Rules of the user-level global ignore file, when one exists.
    pub global_gitignore: Option<GitignoreRules>,
}

/// The mathematical content of a `Filter`.
pub struct FilterView {
    pub working_dir: Seq<char>,
    pub watched_files: Seq<Seq<char>>,
    pub extensions: Seq<Seq<char>>,
    pub ignore_globs: Seq<Seq<char>>,
    pub gitignore: Option<GitignoreView>,
    pub global_gitignore: Option<GitignoreView>,
}

impl View for Filter {
    type V = FilterView;

    open spec fn view(&self) -> FilterView {
        FilterView {
            working_dir: self.working_dir@,
            watched_files: self.watched_files.deep_view(),
            extensions: self.extensions.deep_view(),
            ignore_globs: self.ignore_globs.deep_view(),
            gitignore: match self.gitignore {
                Some(g) => Some(g@),
                None => None,
            },
            global_gitignore: match self.global_gitignore {
                Some(g) => Some(g@),
                None => None,
            },
        }
    }
}

impl Filter {
    /// An empty rule set: nothing watched, no extension restriction, no
    /// ignore rules, working directory at the path root of everything.
    pub fn new() -> (f: Filter)
        ensures
            f@.working_dir.len() == 0,
            f@.watched_files.len() == 0,
            f@.extensions.len() == 0,
            f@.ignore_globs.len() == 0,
            f@.gitignore is None,
            f@.global_gitignore is None,
    {
        Filter {
            working_dir: String::new(),
            watched_files: Vec::new(),
            extensions: Vec::new(),
            ignore_globs: Vec::new(),
            gitignore: None,
            global_gitignore: None,
        }
    }
}

/// Whether any ignore glob of the rule set matches the relativized path.
pub open spec fn any_glob_matches(globs: Seq<Seq<char>>, path: Seq<char>) -> bool {
    exists|i: int| 0 <= i < globs.len() && glob_match(globs[i], path)
}

/// Whether an optional gitignore stage rejects the relativized path.
pub open spec fn gitignore_opt_rejects(
    g: Option<GitignoreView>,
    path: Seq<char>,
    is_dir: bool,
) -> bool {
    match g {
        Some(gv) => gitignore_rejects_spec(gv.root, gv.lines, path, is_dir),
        None => false,
    }
}

/// The filter decision for a path `p` under rule set `f`, with `is_dir`
/// telling the gitignore stages whether `p` names a directory:
/// an explicitly watched file is always admitted; a path outside the working
/// directory is rejected; then, on the relativized path, a matching ignore
/// glob rejects; a non-empty extension allow-list alone decides; finally the
/// project and global gitignore stages may reject, and what survives is
/// admitted.
pub open spec fn admits(f: FilterView, p: Seq<char>, is_dir: bool) -> bool {
    if f.watched_files.contains(p) {
        true
    } else if !strip_ok(p, f.working_dir) {
        false
    } else {
        let rel = rel_of(p, f.working_dir);
        if any_glob_matches(f.ignore_globs, rel) {
            false
        } else if f.extensions.len() > 0 {
            f.extensions.contains(ext_of(after_last_slash(rel)))
        } else if gitignore_opt_rejects(f.gitignore, rel, is_dir) {
            false
        } else if gitignore_opt_rejects(f.global_gitignore, rel, is_dir) {
            false
        } else {
            true
        }
    }
}

/// The filter decision, computed from a given directory flag.
pub fn admits_from(p: &str, filter: &Filter, is_dir: bool) -> (r: bool)
    ensures
        r == admits(filter@, p@, is_dir),
{
    if contains_str(&filter.watched_files, p) {
        return true;
    }
    let rel = match strip_prefix_rel(p, filter.working_dir.as_str()) {
        Some(rel) => rel,
        None => {
            return false;
        },
    };
    let mut i: usize = 0;
    while i < filter.ignore_globs.len()
        invariant
            i <= filter.ignore_globs.len(),
            filter@.ignore_globs.len() == filter.ignore_globs.len(),
            !filter@.watched_files.contains(p@),
            strip_ok(p@, filter@.working_dir),
            rel@ == rel_of(p@, filter@.working_dir),
            forall|j: int| 0 <= j < i ==> !glob_match(filter@.ignore_globs[j], rel@),
        decreases filter.ignore_globs.len() - i,
    {
        proof {
            assert(filter@.ignore_globs[i as int] == filter.ignore_globs@[i as int]@);
        }
        if glob_match_exec(filter.ignore_globs[i].as_str(), rel) {
            proof {
                assert(any_glob_matches(filter@.ignore_globs, rel@)) by {
                    assert(glob_match(filter@.ignore_globs[i as int], rel@));
                }
            }
            return false;
        }
        i += 1;
    }
    proof {
        assert(!any_glob_matches(filter@.ignore_globs, rel@));
    }
    if filter.extensions.len() > 0 {
        let seg = last_segment(rel);
        let ext = extension_of(seg);
        proof {
            assert(filter@.extensions.len() > 0) by {
                assert(filter@.extensions.len() == filter.extensions@.len());
            }
        }
        return contains_str(&filter.extensions, ext);
    }
    proof {
        assert(filter@.extensions.len() == 0);
    }
    match &filter.gitignore {
        Some(g) => {
            if gitignore_rejects(g, rel, is_dir) {
                return false;
            }
        },
        None => {},
    }
    match &filter.global_gitignore {
        Some(g) => {
            if gitignore_rejects(g, rel, is_dir) {
                return false;
            }
        },
        None => {},
    }
    true
}

/// The directory flag only reaches the gitignore stages: a rule set without
/// them decides every path the same way whatever the flag says.
pub proof fn lemma_dir_flag_only_reaches_gitignore(f: FilterView, p: Seq<char>, d1: bool, d2: bool)
    requires
        f.gitignore is None,
        f.global_gitignore is None,
    ensures
        admits(f, p, d1) == admits(f, p, d2),
{
}

/// The filter decision for a raw change notification. The directory flag that
/// the gitignore stages see is read from the filesystem, so the result is the
/// decision of `admits` for the flag that was observed; without gitignore
/// stages the decision is independent of the flag, and so fully determined.
pub fn handle_event(p: &str, filter: &Filter) -> (r: bool)
    ensures
        exists|d: bool| r == admits(filter@, p@, d),
        filter@.gitignore is None && filter@.global_gitignore is None ==> r == admits(
            filter@,
            p@,
            false,
        ),
{
    let is_dir = match strip_prefix_rel(p, filter.working_dir.as_str()) {
        Some(rel) => path_is_dir(rel),
        None => false,
    };
    let r = admits_from(p, filter, is_dir);
    proof {
        assert(r == admits(filter@, p@, is_dir));
    }
    r
}

/// The index of the first ignore glob that does not compile, if any; `None`
/// exactly when every pattern is a well-formed glob. A run is configured
/// correctly if and only if this returns `None`.
pub fn first_invalid_glob(globs: &Vec<String>) -> (r: Option<usize>)
    ensures
        r is None <==> (forall|i: int|
            0 <= i < globs.deep_view().len() ==> glob_valid(globs.deep_view()[i])),
        r is Some ==> r->Some_0 < globs.len() && !glob_valid(
            globs.deep_view()[r->Some_0 as int],
        ),
{
    let mut i: usize = 0;
    while i < globs.len()
        invariant
            i <= globs.len(),
            globs.deep_view().len() == globs.len(),
            forall|j: int| 0 <= j < i ==> glob_valid(globs.deep_view()[j]),
        decreases globs.len() - i,
    {
        proof {
            assert(globs.deep_view()[i as int] == globs@[i as int]@);
        }
        if !glob_valid_exec(globs[i].as_str()) {
            return Some(i);
        }
        i += 1;
    }
    None
}

/// The default ignore rules, applied unless explicitly disabled: backup
/// editor files, OS metadata files anywhere in the tree, and the `.git`
/// directory tree.
pub fn default_ignore_globs() -> (r: Vec<String>)
    ensures
        r.deep_view() == seq!["*~"@, "**/.DS_Store"@, ".git/*"@],
{
    let mut v: Vec<String> = Vec::new();
    v.push(String::from_str("*~"));
    v.push(String::from_str("**/.DS_Store"));
    v.push(String::from_str(".git/*"));
    proof {
        assert(v.deep_view() =~= seq!["*~"@, "**/.DS_Store"@, ".git/*"@]);
    }
    v
}

#[via_fn]
proof fn is_ancestor_of_decreases(d: Seq<char>, s: Seq<char>) {
    lemma_parent_shorter(s);
}

/// `d` is `s` itself or a directory reached from `s` by walking parents.
pub open spec fn is_ancestor_of(d: Seq<char>, s: Seq<char>) -> bool
    decreases s.len(),
    via is_ancestor_of_decreases
{
    d == s || (parent_seq(s) is Some && is_ancestor_of(d, parent_seq(s)->Some_0))
}

proof fn lemma_ancestor_step(c: Seq<char>, s: Seq<char>)
    requires
        is_ancestor_of(c, s),
        parent_seq(c) is Some,
    ensures
        is_ancestor_of(parent_seq(c)->Some_0, s),
    decreases s.len(),
{
    lemma_parent_shorter(s);
    if c == s {
        assert(is_ancestor_of(parent_seq(s)->Some_0, parent_seq(s)->Some_0));
    } else {
        lemma_ancestor_step(c, parent_seq(s)->Some_0);
    }
}

/// Walk from `start` toward the filesystem root, looking for a `.gitignore`
/// file; the search stops without a result at a directory that holds a `.git`
/// marker, or at the top. Any path returned is the `.gitignore` of `start`
/// itself or of one of its ancestor directories; whether one is found depends
/// on what is on disk.
pub fn find_project_gitignore(start: &str) -> (r: Option<String>)
    ensures
        r is Some ==> exists|d: Seq<char>|
            is_ancestor_of(d, start@) && r->Some_0@ == d + "/.gitignore"@,
{
    let mut cur: String = String::from_str(start);
    loop
        invariant
            is_ancestor_of(cur@, start@),
        decreases cur@.len(),
    {
        let cand = cur.clone().concat("/.gitignore");
        if path_exists(cand.as_str()) {
            proof {
                assert(is_ancestor_of(cur@, start@) && cand@ == cur@ + "/.gitignore"@);
            }
            return Some(cand);
        }
        let marker = cur.clone().concat("/.git");
        if path_exists(marker.as_str()) {
            return None;
        }
        match parent_dir(cur.as_str()) {
            Some(par) => {
                let next = String::from_str(par);
                proof {
                    lemma_ancestor_step(cur@, start@);
                }
                cur = next;
            },
            None => {
                return None;
            },
        }
    }
}

/// The kind of a raw filesystem event, as the watcher reports it.
#[derive(Clone, Copy, Debug, PartialEq, Eq, Structural)]
pub enum ChangeKind {
    /// A write to a file was noticed while it was still in progress.
    NoticeWrite,
    /// A file's contents were written.
    Write,
    /// A file's metadata (permissions, timestamps) changed.
    Chmod,
    /// Anything else the watcher reports: creations, removals, renames,
    /// rescans, or watcher-side errors.
    Other,
}

/// The event kinds that can trigger a restart: content writes, in-progress
/// write notices, and metadata changes; everything else is dropped before the
/// filter even sees the path.
pub open spec fn spec_kind_triggers(k: ChangeKind) -> bool {
    match k {
        ChangeKind::NoticeWrite => true,
        ChangeKind::Write => true,
        ChangeKind::Chmod => true,
        ChangeKind::Other => false,
    }
}

/// Whether a raw event of this kind is considered a change at all.
pub fn kind_triggers(k: &ChangeKind) -> (r: bool)
    ensures
        r == spec_kind_triggers(*k),
{
    match k {
        ChangeKind::NoticeWrite => true,
        ChangeKind::Write => true,
        ChangeKind::Chmod => true,
        ChangeKind::Other => false,
    }
}

/// An explicitly watched file is admitted no matter what any ignore rule,
/// extension restriction, or gitignore says, whenever it lies within the
/// working directory.
pub proof fn lemma_watched_always_admitted(f: FilterView, p: Seq<char>, is_dir: bool)
    requires
        f.watched_files.contains(p),
        strip_ok(p, f.working_dir),
    ensures
        admits(f, p, is_dir),
{
}

/// With a non-empty extension allow-list, a path (not explicitly watched)
/// whose extension is not listed is rejected, whatever the ignore globs and
/// the gitignore stages hold: extension filtering dominates them.
pub proof fn lemma_extension_filter_dominates(f: FilterView, p: Seq<char>, is_dir: bool)
    requires
        f.extensions.len() > 0,
        !f.watched_files.contains(p),
        !f.extensions.contains(ext_of(after_last_slash(rel_of(p, f.working_dir)))),
    ensures
        !admits(f, p, is_dir),
{
}

/// For a path that fails the extension check, the decision depends neither on
/// the ignore globs nor on the gitignore stages, nor on the directory flag:
/// two rule sets that agree only on the working directory, the watched files,
/// and the extension list decide such a path identically.
pub proof fn lemma_extension_independent_of_ignores(
    f: FilterView,
    g: FilterView,
    p: Seq<char>,
    d1: bool,
    d2: bool,
)
    requires
        f.working_dir == g.working_dir,
        f.watched_files == g.watched_files,
        f.extensions == g.extensions,
        f.extensions.len() > 0,
        !f.watched_files.contains(p),
        !f.extensions.contains(ext_of(after_last_slash(rel_of(p, f.working_dir)))),
    ensures
        admits(f, p, d1) == admits(g, p, d2),
{
    lemma_extension_filter_dominates(f, p, d1);
    lemma_extension_filter_dominates(g, p, d2);
}

/// The filter decision is a function of the rule set, the path, and the
/// directory flag alone: any two evaluations on the same inputs agree. This
/// is the idempotence of `admits` under an unchanging ruleset and filesystem,
/// as callers of `admits_from` observe it through its contract.
pub proof fn lemma_admits_idempotent(
    f: FilterView,
    p: Seq<char>,
    is_dir: bool,
    r1: bool,
    r2: bool,
)
    requires
        r1 == admits(f, p, is_dir),
        r2 == admits(f, p, is_dir),
    ensures
        r1 == r2,
{
}

} // verus!
