//! What changed between two states of a lockfile, and how healthy it is.

use crate::display::{color_of, health_color, BOLD, GRAY, RED, RESET};
use crate::render::{add_line, decimal, distinct, join, joined, lemma_distinct, number};
use crate::scan::{ids_to_show, shown_ids};
use crate::table::{keys, lemma_keys, lookup, value_of};
use crate::text::{contains, holds, occurs_at, same, trim, trim_end, trimmed, trimmed_end, Text};
use crate::types::{
    health_of_word, lemma_signs, of_emoji, of_word, Health, PackageResult, PackageView, VulnInfo,
    VulnView,
};
use vstd::prelude::*;

verus! {

// ── Delta types ──────────────────────────────────────────────────────

/// A dependency change between two lockfile revisions.
#[derive(Debug, PartialEq)]
pub enum DepDelta {
    /// `(name, new_version)`: package was added
    Added(String, String),
    /// `(name, old_version, new_version)`: package version changed
    Upgraded(String, String, String),
    /// `(name, old_version)`: package was removed
    Removed(String, String),
}

/// What a `DepDelta` holds.
pub enum DeltaView {
    Added(Text, Text),
    Upgraded(Text, Text, Text),
    Removed(Text, Text),
}

impl DeepView for DepDelta {
    type V = DeltaView;

    open spec fn deep_view(&self) -> DeltaView {
        match self {
            DepDelta::Added(n, v) => DeltaView::Added(n@, v@),
            DepDelta::Upgraded(n, o, v) => DeltaView::Upgraded(n@, o@, v@),
            DepDelta::Removed(n, v) => DeltaView::Removed(n@, v@),
        }
    }
}

// ── Helpers ──────────────────────────────────────────────────────────

/// Convert a health string (as stored in `PackageResult.health`) back to
/// its display emoji.
pub fn string_to_emoji(s: &str) -> (r: &'static str)
    ensures
        r@ == of_word(s@).emoji(),
{
    health_of_word(s).sign()
}

/// What came of running `git show`.
#[derive(Debug)]
pub enum GitShow {
    /// It could not be run.
    NotRun(String),
    /// It failed, and complained.
    Failed(String),
    /// It printed a text, or something else, for the given reason.
    Printed(Result<String, String>),
}

/// A complaint that there is no such file or no such commit.
pub open spec fn nothing_there(stderr: Text) -> bool {
    holds(stderr, "does not exist"@) || holds(stderr, "not found"@) || holds(stderr, "bad object"@)
        || holds(stderr, "invalid object name"@)
}

/// The file `path` at `commit`, or why there is none.
pub open spec fn file_at(commit: Text, path: Text, shown: GitShow) -> Result<Text, Text> {
    match shown {
        GitShow::NotRun(e) => Err("Failed to run git show: "@ + e@),
        GitShow::Failed(stderr) => if nothing_there(stderr@) {
            Err("Path '"@ + path + "' does not exist at commit '"@ + commit + "'"@)
        } else {
            Err("git show failed: "@ + trimmed(stderr@))
        },
        GitShow::Printed(Ok(text)) => Ok(text@),
        GitShow::Printed(Err(e)) => Err("Non-UTF8 output from git show: "@ + e@),
    }
}

/// What a result with texts holds.
pub open spec fn texts(r: Result<String, String>) -> Result<Text, Text> {
    match r {
        Ok(t) => Ok(t@),
        Err(e) => Err(e@),
    }
}

/// What `git show` is asked for: a path at a commit.
pub fn git_ref(commit: &str, path: &str) -> (r: String)
    ensures
        r@ == commit@ + ":"@ + path@,
{
    let mut text = commit.to_owned();
    text.append(":");
    text.append(path);
    text
}

/// The content of a file at a given Git commit, from what came of
/// `git show`. An error if the command failed or the path does not exist at
/// that commit.
pub fn git_show(commit: &str, path: &str, shown: GitShow) -> (r: Result<String, String>)
    ensures
        texts(r) == file_at(commit@, path@, shown),
{
    match shown {
        GitShow::NotRun(e) => {
            let mut text = "Failed to run git show: ".to_owned();
            text.append(e.as_str());
            Err(text)
        },
        GitShow::Failed(stderr) => {
            let complaint = stderr.as_str();
            if contains(complaint, "does not exist") || contains(complaint, "not found")
                || contains(complaint, "bad object") || contains(complaint, "invalid object name") {
                let mut text = "Path '".to_owned();
                text.append(path);
                text.append("' does not exist at commit '");
                text.append(commit);
                text.append("'");
                return Err(text);
            }
            let mut text = "git show failed: ".to_owned();
            text.append(trim(complaint));
            Err(text)
        },
        GitShow::Printed(Ok(text)) => Ok(text),
        GitShow::Printed(Err(e)) => {
            let mut text = "Non-UTF8 output from git show: ".to_owned();
            text.append(e.as_str());
            Err(text)
        },
    }
}

// ── Diff computation ─────────────────────────────────────────────────

/// What became of the dependency `name`, which stands in `new`. Where a name
/// stands several times, the last version counts.
pub open spec fn change(
    old: Seq<(Text, Text)>,
    new: Seq<(Text, Text)>,
    name: Text,
) -> Option<DeltaView> {
    match (value_of(old, name), value_of(new, name)) {
        (Some(o), Some(n)) => if o != n {
            Some(DeltaView::Upgraded(name, o, n))
        } else {
            None
        },
        (None, Some(n)) => Some(DeltaView::Added(name, n)),
        _ => None,
    }
}

/// What became of the named dependencies, which stand in `new`.
pub open spec fn changes(
    old: Seq<(Text, Text)>,
    new: Seq<(Text, Text)>,
    names: Seq<Text>,
) -> Seq<DeltaView>
    decreases names.len(),
{
    if names.len() == 0 {
        Seq::empty()
    } else {
        match change(old, new, names.last()) {
            Some(d) => changes(old, new, names.drop_last()).push(d),
            None => changes(old, new, names.drop_last()),
        }
    }
}

/// Those of the named dependencies, which stand in `old`, that are gone.
pub open spec fn removals(
    old: Seq<(Text, Text)>,
    new: Seq<(Text, Text)>,
    names: Seq<Text>,
) -> Seq<DeltaView>
    decreases names.len(),
{
    if names.len() == 0 {
        Seq::empty()
    } else {
        let rest = removals(old, new, names.drop_last());
        match (value_of(old, names.last()), value_of(new, names.last())) {
            (Some(o), None) => rest.push(DeltaView::Removed(names.last(), o)),
            _ => rest,
        }
    }
}

/// The delta between two lists of dependencies: what was added or upgraded,
/// in the order of `new`, then what was removed, in the order of `old`.
pub open spec fn diff(old: Seq<(Text, Text)>, new: Seq<(Text, Text)>) -> Seq<DeltaView> {
    changes(old, new, distinct(keys(new))) + removals(old, new, distinct(keys(old)))
}

/// Whether one of the first `n` entries is for `key`.
fn keyed_before(list: &[(String, String)], n: usize, key: &str) -> (r: bool)
    requires
        n <= list.len(),
    ensures
        r == keys(list.deep_view()).take(n as int).contains(key@),
{
    let ghost all = keys(list.deep_view());
    let mut i: usize = 0;
    while i < n
        invariant
            i <= n <= list.len(),
            all == keys(list.deep_view()),
            forall|k: int| 0 <= k < i ==> #[trigger] all[k] != key@,
        decreases n - i,
    {
        assert(all[i as int] == list[i as int].0@);
        if same(list[i].0.as_str(), key) {
            assert(all.take(n as int)[i as int] == key@);
            return true;
        }
        i = i + 1;
    }
    proof {
        if all.take(n as int).contains(key@) {
            let k = choose|k: int| 0 <= k < n && all.take(n as int)[k] == key@;
            assert(all[k] == key@);
        }
    }
    false
}

/// What was added or upgraded.
fn find_changes(old_deps: &[(String, String)], new_deps: &[(String, String)]) -> (r: Vec<
    DepDelta,
>)
    ensures
        r.deep_view() == changes(
            old_deps.deep_view(),
            new_deps.deep_view(),
            distinct(keys(new_deps.deep_view())),
        ),
{
    let mut out: Vec<DepDelta> = Vec::new();
    let ghost before = old_deps.deep_view();
    let ghost after = new_deps.deep_view();
    let ghost names = keys(after);
    let mut i: usize = 0;
    assert(names.take(0) =~= Seq::empty());
    assert(out.deep_view() =~= Seq::empty());
    while i < new_deps.len()
        invariant
            i <= new_deps.len(),
            before == old_deps.deep_view(),
            after == new_deps.deep_view(),
            names == keys(after),
            out.deep_view() == changes(before, after, distinct(names.take(i as int))),
        decreases new_deps.len() - i,
    {
        let name = new_deps[i].0.as_str();
        let ghost seen = distinct(names.take(i as int));
        proof {
            assert(names.take(i + 1).drop_last() =~= names.take(i as int));
            assert(names.take(i + 1).last() == name@);
        }
        if !keyed_before(new_deps, i, name) {
            assert(distinct(names.take(i + 1)).drop_last() =~= seen);
            assert(distinct(names.take(i + 1)).last() == name@);
            if let Some(version) = lookup(new_deps, name) {
                let delta = match lookup(old_deps, name) {
                    Some(earlier) => if same(earlier.as_str(), version.as_str()) {
                        None
                    } else {
                        Some(
                            DepDelta::Upgraded(name.to_owned(), earlier.clone(), version.clone()),
                        )
                    },
                    None => Some(DepDelta::Added(name.to_owned(), version.clone())),
                };
                if let Some(d) = delta {
                    let ghost here = out.deep_view();
                    out.push(d);
                    assert(out.deep_view() =~= here.push(d.deep_view()));
                }
            }
        }
        i = i + 1;
    }
    assert(names.take(new_deps.len() as int) =~= names);
    out
}

/// What was removed.
fn find_removals(old_deps: &[(String, String)], new_deps: &[(String, String)]) -> (r: Vec<
    DepDelta,
>)
    ensures
        r.deep_view() == removals(
            old_deps.deep_view(),
            new_deps.deep_view(),
            distinct(keys(old_deps.deep_view())),
        ),
{
    let mut out: Vec<DepDelta> = Vec::new();
    let ghost before = old_deps.deep_view();
    let ghost after = new_deps.deep_view();
    let ghost names = keys(before);
    let mut i: usize = 0;
    assert(names.take(0) =~= Seq::empty());
    assert(out.deep_view() =~= Seq::empty());
    while i < old_deps.len()
        invariant
            i <= old_deps.len(),
            before == old_deps.deep_view(),
            after == new_deps.deep_view(),
            names == keys(before),
            out.deep_view() == removals(before, after, distinct(names.take(i as int))),
        decreases old_deps.len() - i,
    {
        let name = old_deps[i].0.as_str();
        let ghost seen = distinct(names.take(i as int));
        proof {
            assert(names.take(i + 1).drop_last() =~= names.take(i as int));
            assert(names.take(i + 1).last() == name@);
        }
        if !keyed_before(old_deps, i, name) {
            assert(distinct(names.take(i + 1)).drop_last() =~= seen);
            assert(distinct(names.take(i + 1)).last() == name@);
            if let Some(version) = lookup(old_deps, name) {
                if lookup(new_deps, name).is_none() {
                    let ghost here = out.deep_view();
                    let d = DepDelta::Removed(name.to_owned(), version.clone());
                    out.push(d);
                    assert(out.deep_view() =~= here.push(d.deep_view()));
                }
            }
        }
        i = i + 1;
    }
    assert(names.take(old_deps.len() as int) =~= names);
    out
}

/// Compute the delta between two dependency lists: what was added or
/// upgraded, then what was removed.
///
/// Comparison is by exact package name (string equality).  This is a
/// known limitation for PyPI where `Foo_Bar` and `foo-bar` are the same
/// package: case normalization is intentionally not applied for
/// performance and simplicity.
pub fn compute_diff(
    old_deps: &[(String, String)],
    new_deps: &[(String, String)],
) -> (r: Vec<DepDelta>)
    ensures
        r.deep_view() == diff(old_deps.deep_view(), new_deps.deep_view()),
{
    let mut deltas = find_changes(old_deps, new_deps);
    let mut gone = find_removals(old_deps, new_deps);
    let ghost first = deltas.deep_view();
    let ghost second = gone.deep_view();
    deltas.append(&mut gone);
    assert(deltas.deep_view() =~= first + second);
    deltas
}

// ── Ecosystem auto-detection ─────────────────────────────────────────

/// What is said where there is no lockfile.
pub const NO_LOCKFILE: &'static str =
    "No supported lockfile found (Cargo.lock, package-lock.json, poetry.lock, Pipfile.lock, go.mod)";

/// The lockfiles that there are in the current directory.
#[derive(Clone, Copy, Debug, PartialEq, Eq, Structural)]
pub struct Present {
    pub cargo_lock: bool,
    pub package_lock: bool,
    pub poetry_lock: bool,
    pub pipfile_lock: bool,
    pub go_mod: bool,
}

/// The ecosystem that is detected, and its lockfile.
pub open spec fn detected(files: Present) -> Option<(Text, Text)> {
    if files.cargo_lock {
        Some(("cargo"@, "Cargo.lock"@))
    } else if files.package_lock {
        Some(("npm"@, "package-lock.json"@))
    } else if files.poetry_lock {
        Some(("pypi"@, "poetry.lock"@))
    } else if files.pipfile_lock {
        Some(("pypi"@, "Pipfile.lock"@))
    } else if files.go_mod {
        Some(("go"@, "go.mod"@))
    } else {
        None
    }
}

/// Detect which lockfile ecosystem is present in the current directory.
/// Returns `(ecosystem_name, lockfile_path)`.
pub fn detect_ecosystem(files: Present) -> (r: Result<(String, String), String>)
    ensures
        match detected(files) {
            Some(pair) => r matches Ok(p) && p.deep_view() == pair,
            None => r matches Err(e) && e@ == NO_LOCKFILE@,
        },
{
    if files.cargo_lock {
        Ok(("cargo".to_owned(), "Cargo.lock".to_owned()))
    } else if files.package_lock {
        Ok(("npm".to_owned(), "package-lock.json".to_owned()))
    } else if files.poetry_lock {
        Ok(("pypi".to_owned(), "poetry.lock".to_owned()))
    } else if files.pipfile_lock {
        Ok(("pypi".to_owned(), "Pipfile.lock".to_owned()))
    } else if files.go_mod {
        Ok(("go".to_owned(), "go.mod".to_owned()))
    } else {
        Err(NO_LOCKFILE.to_owned())
    }
}

/// The lockfile of the given ecosystem, or why there is none.
pub open spec fn lockfile_for(eco: Text, files: Present) -> Result<Text, Text> {
    if eco == "cargo"@ {
        Ok("Cargo.lock"@)
    } else if eco == "npm"@ {
        Ok("package-lock.json"@)
    } else if eco == "pypi"@ {
        if files.poetry_lock {
            Ok("poetry.lock"@)
        } else if files.pipfile_lock {
            Ok("Pipfile.lock"@)
        } else {
            Err("❌ No poetry.lock or Pipfile.lock found in current directory"@)
        }
    } else if eco == "go"@ {
        Ok("go.mod"@)
    } else {
        Err("❌ Unknown ecosystem: "@ + eco + " (try cargo, npm, pypi, or go)"@)
    }
}

/// The ecosystem and the lockfile that are compared, or why none are: those of
/// the ecosystem asked for, else those that are detected.
pub open spec fn target(ecosystem: Option<Text>, files: Present) -> Result<(Text, Text), Text> {
    match ecosystem {
        Some(eco) => match lockfile_for(eco, files) {
            Ok(file) => Ok((eco, file)),
            Err(e) => Err(e),
        },
        None => match detected(files) {
            Some(pair) => Ok(pair),
            None => Err("❌ "@ + NO_LOCKFILE@),
        },
    }
}

/// The lockfile of the given ecosystem, or why there is none.
fn find_lockfile(eco: &str, files: Present) -> (r: Result<String, String>)
    ensures
        texts(r) == lockfile_for(eco@, files),
{
    if same(eco, "cargo") {
        Ok("Cargo.lock".to_owned())
    } else if same(eco, "npm") {
        Ok("package-lock.json".to_owned())
    } else if same(eco, "pypi") {
        if files.poetry_lock {
            Ok("poetry.lock".to_owned())
        } else if files.pipfile_lock {
            Ok("Pipfile.lock".to_owned())
        } else {
            Err("❌ No poetry.lock or Pipfile.lock found in current directory".to_owned())
        }
    } else if same(eco, "go") {
        Ok("go.mod".to_owned())
    } else {
        let mut text = "❌ Unknown ecosystem: ".to_owned();
        text.append(eco);
        text.append(" (try cargo, npm, pypi, or go)");
        Err(text)
    }
}

/// What a comparison starts with: the ecosystem and the lockfile that are
/// compared, or why none are. If `ecosystem` is `None`, the ecosystem is
/// auto-detected from lockfiles present in the current directory.
pub fn run_diff(ecosystem: Option<&str>, files: Present) -> (r: Result<(String, String), String>)
    ensures
        match target(ecosystem.deep_view(), files) {
            Ok(pair) => r matches Ok(p) && p.deep_view() == pair,
            Err(e) => r matches Err(m) && m@ == e,
        },
{
    match ecosystem {
        Some(eco) => match find_lockfile(eco, files) {
            Ok(file) => Ok((eco.to_owned(), file)),
            Err(e) => Err(e),
        },
        None => match detect_ecosystem(files) {
            Ok(pair) => Ok(pair),
            Err(e) => {
                let mut text = "❌ ".to_owned();
                text.append(e.as_str());
                Err(text)
            },
        },
    }
}

// ── Health scanning ──────────────────────────────────────────────────

/// What is scanned of a change: an added package, or the new version of an
/// upgraded one.
pub open spec fn scanned_of(delta: DeltaView) -> Option<(Text, Text)> {
    match delta {
        DeltaView::Added(name, version) => Some((name, version)),
        DeltaView::Upgraded(name, _, version) => Some((name, version)),
        DeltaView::Removed(_, _) => None,
    }
}

/// What is scanned of each change, as a name and a version. Only packages
/// that were added or upgraded are scanned (removed deps are shown without
/// health data).
pub fn scan_deps(deltas: &Vec<DepDelta>) -> (r: Vec<Option<(String, String)>>)
    ensures
        r.deep_view() == deltas.deep_view().map_values(|d: DeltaView| scanned_of(d)),
{
    let mut out: Vec<Option<(String, String)>> = Vec::new();
    let ghost pick = |d: DeltaView| scanned_of(d);
    let mut i: usize = 0;
    while i < deltas.len()
        invariant
            i <= deltas.len(),
            pick == (|d: DeltaView| scanned_of(d)),
            out.deep_view() == deltas.deep_view().take(i as int).map_values(pick),
        decreases deltas.len() - i,
    {
        let ghost before = out.deep_view();
        let item = match &deltas[i] {
            DepDelta::Added(name, version) => Some((name.clone(), version.clone())),
            DepDelta::Upgraded(name, _, version) => Some((name.clone(), version.clone())),
            DepDelta::Removed(_, _) => None,
        };
        out.push(item);
        proof {
            assert(deltas.deep_view()[i as int] == deltas[i as int].deep_view());
            assert(out.deep_view() =~= before.push(scanned_of(deltas[i as int].deep_view())));
            assert(out.deep_view() =~= deltas.deep_view().take(i + 1).map_values(pick));
        }
        i = i + 1;
    }
    assert(deltas.deep_view().take(deltas.len() as int) =~= deltas.deep_view());
    out
}

// ── Standard ecosystem diff ──────────────────────────────────────────

/// How many of the changes are removals.
pub open spec fn removed_count(deltas: Seq<DeltaView>) -> nat
    decreases deltas.len(),
{
    if deltas.len() == 0 {
        0
    } else {
        removed_count(deltas.drop_last()) + if deltas.last() is Removed {
            1nat
        } else {
            0
        }
    }
}

/// The number that is shown as that of the unchanged dependencies: the length
/// of the longer list, less the removals. Added and upgraded dependencies are
/// counted too: one dependency that is upgraded gives 1.
pub open spec fn unchanged_count(old: Seq<(Text, Text)>, new: Seq<(Text, Text)>) -> int {
    (if old.len() > new.len() {
        old.len()
    } else {
        new.len()
    }) - removed_count(diff(old, new))
}

proof fn lemma_removed_split(a: Seq<DeltaView>, b: Seq<DeltaView>)
    ensures
        removed_count(a + b) == removed_count(a) + removed_count(b),
    decreases b.len(),
{
    if b.len() == 0 {
        assert(a + b =~= a);
    } else {
        assert((a + b).drop_last() =~= a + b.drop_last());
        lemma_removed_split(a, b.drop_last());
    }
}

proof fn lemma_removed_of_parts(old: Seq<(Text, Text)>, new: Seq<(Text, Text)>, names: Seq<Text>)
    ensures
        removed_count(changes(old, new, names)) == 0,
        removed_count(removals(old, new, names)) <= names.len(),
    decreases names.len(),
{
    if names.len() > 0 {
        lemma_removed_of_parts(old, new, names.drop_last());
        let c = changes(old, new, names);
        if change(old, new, names.last()) is Some {
            assert(c.drop_last() =~= changes(old, new, names.drop_last()));
        }
        let r = removals(old, new, names);
        if value_of(old, names.last()) is Some && value_of(new, names.last()) is None {
            assert(r.drop_last() =~= removals(old, new, names.drop_last()));
        }
    }
}

/// No more can be removed than there was.
pub proof fn law_removed_at_most_old(old: Seq<(Text, Text)>, new: Seq<(Text, Text)>)
    ensures
        removed_count(diff(old, new)) <= old.len(),
        unchanged_count(old, new) >= 0,
{
    lemma_removed_split(
        changes(old, new, distinct(keys(new))),
        removals(old, new, distinct(keys(old))),
    );
    lemma_removed_of_parts(old, new, distinct(keys(new)));
    lemma_removed_of_parts(old, new, distinct(keys(old)));
    lemma_distinct(keys(old));
}

/// How many of the changes are removals.
fn count_removed(deltas: &Vec<DepDelta>) -> (r: usize)
    ensures
        r == removed_count(deltas.deep_view()),
{
    let mut n: usize = 0;
    let mut i: usize = 0;
    let ghost all = deltas.deep_view();
    assert(all.take(0) =~= Seq::empty());
    while i < deltas.len()
        invariant
            i <= deltas.len(),
            n <= i,
            all == deltas.deep_view(),
            n == removed_count(all.take(i as int)),
        decreases deltas.len() - i,
    {
        proof {
            assert(all.take(i + 1).drop_last() =~= all.take(i as int));
            assert(all.take(i + 1).last() == deltas[i as int].deep_view());
        }
        if let DepDelta::Removed(_, _) = &deltas[i] {
            n = n + 1;
        }
        i = i + 1;
    }
    assert(all.take(deltas.len() as int) =~= all);
    n
}

/// What became of the dependencies in a lockfile: why it could not be had,
/// else what is wrong with it, else the dependencies.
pub type Deps = Result<Result<Vec<(String, String)>, String>, String>;

/// What a comparison comes to.
#[derive(Debug)]
pub enum DiffPlan {
    /// Nothing, for the given reason.
    Refuse(String),
    /// There are no changes: the line that says so.
    Nothing(String),
    /// The changes, and the number that is shown as that of the unchanged
    /// dependencies: the longer list's length, less the removals.
    Show(Vec<DepDelta>, usize),
}

/// What a `DiffPlan` holds.
pub enum DiffPlanView {
    Refuse(Text),
    Nothing(Text),
    Show(Seq<DeltaView>, int),
}

impl DeepView for DiffPlan {
    type V = DiffPlanView;

    open spec fn deep_view(&self) -> DiffPlanView {
        match self {
            DiffPlan::Refuse(e) => DiffPlanView::Refuse(e@),
            DiffPlan::Nothing(t) => DiffPlanView::Nothing(t@),
            DiffPlan::Show(d, n) => DiffPlanView::Show(d.deep_view(), *n as int),
        }
    }
}

/// What the comparison of a lockfile at `old_ref` with the current one comes
/// to.
pub open spec fn comparison(
    old_ref: Text,
    lockfile: Text,
    old_deps: Deps,
    new_deps: Deps,
) -> DiffPlanView {
    match old_deps {
        Err(e) => DiffPlanView::Refuse("❌ "@ + e@),
        Ok(Err(e)) => DiffPlanView::Refuse("❌ Failed to parse old "@ + lockfile + ": "@ + e@),
        Ok(Ok(before)) => match new_deps {
            Err(e) => DiffPlanView::Refuse("❌ Failed to read "@ + lockfile + ": "@ + e@),
            Ok(Err(e)) => DiffPlanView::Refuse("❌ Failed to parse "@ + lockfile + ": "@ + e@),
            Ok(Ok(after)) => {
                let deltas = diff(before.deep_view(), after.deep_view());
                if deltas.len() == 0 {
                    DiffPlanView::Nothing("✅ No dependency changes since "@ + old_ref)
                } else {
                    DiffPlanView::Show(
                        deltas,
                        unchanged_count(before.deep_view(), after.deep_view()),
                    )
                }
            },
        },
    }
}

/// A refusal: what failed, and why.
fn refusal(what: &str, lockfile: &str, why: &str) -> (r: DiffPlan)
    ensures
        r.deep_view() == DiffPlanView::Refuse(what@ + lockfile@ + ": "@ + why@),
{
    let mut text = what.to_owned();
    text.append(lockfile);
    text.append(": ");
    text.append(why);
    DiffPlan::Refuse(text)
}

/// What the comparison of a lockfile at `old_ref` with the current one comes
/// to.
pub fn run_diff_standard(
    old_ref: &str,
    lockfile: &str,
    old_deps: &Deps,
    new_deps: &Deps,
) -> (r: DiffPlan)
    ensures
        r.deep_view() == comparison(old_ref@, lockfile@, *old_deps, *new_deps),
{
    let before = match old_deps {
        Ok(Ok(deps)) => deps,
        Ok(Err(e)) => {
            return refusal("❌ Failed to parse old ", lockfile, e.as_str());
        },
        Err(e) => {
            let mut text = "❌ ".to_owned();
            text.append(e.as_str());
            return DiffPlan::Refuse(text);
        },
    };
    let after = match new_deps {
        Ok(Ok(deps)) => deps,
        Ok(Err(e)) => {
            return refusal("❌ Failed to parse ", lockfile, e.as_str());
        },
        Err(e) => {
            return refusal("❌ Failed to read ", lockfile, e.as_str());
        },
    };
    let deltas = compute_diff(before.as_slice(), after.as_slice());
    if deltas.len() == 0 {
        let mut text = "✅ No dependency changes since ".to_owned();
        text.append(old_ref);
        return DiffPlan::Nothing(text);
    }
    proof {
        law_removed_at_most_old(before.deep_view(), after.deep_view());
    }
    let most = if before.len() > after.len() {
        before.len()
    } else {
        after.len()
    };
    let unchanged = most - count_removed(&deltas);
    DiffPlan::Show(deltas, unchanged)
}

// ── Display ──────────────────────────────────────────────────────────

/// What is said of the vulnerabilities of a package.
pub open spec fn vulns_note(vulns: Seq<VulnView>) -> Text {
    if vulns.len() == 0 {
        ""@
    } else {
        "  "@ + RED@ + "🚨 "@ + decimal(vulns.len()) + " CVE"@ + (if vulns.len() == 1 {
            ""@
        } else {
            "s"@
        }) + ": "@ + joined(shown_ids(vulns), ", "@) + RESET@
    }
}

/// A description, or a hint that there is none.
pub open spec fn described(p: PackageView) -> Text {
    match p.description {
        Some(d) => d,
        None => "no description"@,
    }
}

/// The start of the line of a package: the sign of its health, in its color.
pub open spec fn sign_of(p: PackageView) -> Text {
    "   "@ + color_of(of_word(p.health)) + of_word(p.health).emoji() + RESET@ + " "@
}

/// The line of a change, with what the scan found.
pub open spec fn delta_line(delta: DeltaView, result: Option<PackageView>) -> Text {
    match (delta, result) {
        (DeltaView::Added(name, version), Some(p)) => sign_of(p) + name + " v"@ + version + " — "@
            + described(p) + vulns_note(p.vulns),
        (DeltaView::Added(name, version), None) => "   "@ + GRAY@ + "?"@ + RESET@ + " "@ + name
            + " v"@ + version,
        (DeltaView::Upgraded(name, old, new), Some(p)) => sign_of(p) + name + " v"@ + old + " → v"@
            + new + " ("@ + described(p) + ")"@ + vulns_note(p.vulns),
        (DeltaView::Upgraded(name, old, new), None) => "   "@ + GRAY@ + "?"@ + RESET@ + " "@ + name
            + " v"@ + old + " → v"@ + new,
        (DeltaView::Removed(name, version), _) => "   "@ + GRAY@ + "🗑 "@ + name + " v"@ + version
            + " removed"@ + RESET@,
    }
}

/// The three kinds of change.
#[derive(Clone, Copy, Debug, PartialEq, Eq, Structural)]
pub enum Group {
    Added,
    Upgraded,
    Removed,
}

/// The kind of a change.
pub open spec fn group_of(delta: DeltaView) -> Group {
    match delta {
        DeltaView::Added(_, _) => Group::Added,
        DeltaView::Upgraded(_, _, _) => Group::Upgraded,
        DeltaView::Removed(_, _) => Group::Removed,
    }
}

/// The lines of the changes of one kind, each ended by a line break.
pub open spec fn group_text(
    scanned: Seq<(DeltaView, Option<PackageView>)>,
    group: Group,
) -> Text
    decreases scanned.len(),
{
    if scanned.len() == 0 {
        ""@
    } else {
        let rest = group_text(scanned.drop_last(), group);
        if group_of(scanned.last().0) == group {
            rest + delta_line(scanned.last().0, scanned.last().1) + "\n"@
        } else {
            rest
        }
    }
}

/// The changes of one kind under their title; nothing where there are none.
pub open spec fn section(title: Text, text: Text) -> Seq<Text> {
    if text.len() == 0 {
        Seq::empty()
    } else {
        seq![BOLD@ + title + RESET@ + "\n"@ + trimmed_end(text)]
    }
}

/// What is shown of a comparison.
pub open spec fn diff_lines(
    eco: Text,
    scanned: Seq<(DeltaView, Option<PackageView>)>,
    unchanged: nat,
) -> Seq<Text> {
    seq![
        ""@,
        "📦 "@ + eco + " dependency diff — "@ + decimal(scanned.len()) + " changed, "@ + decimal(
            unchanged,
        ) + " unchanged"@,
        ""@,
    ] + section("🟢 Added:"@, group_text(scanned, Group::Added)) + section(
        "🔵 Upgraded:"@,
        group_text(scanned, Group::Upgraded),
    ) + section("🔴 Removed:"@, group_text(scanned, Group::Removed))
}

/// Format a vuln summary suffix (empty if no vulns).
pub fn vulns_suffix(vulns: &Vec<VulnInfo>) -> (r: String)
    ensures
        r@ == vulns_note(vulns.deep_view()),
{
    if vulns.len() == 0 {
        return "".to_owned();
    }
    let ids = ids_to_show(vulns);
    let mut text = "  ".to_owned();
    text.append(RED);
    text.append("🚨 ");
    text.append(number(vulns.len() as u64).as_str());
    text.append(" CVE");
    text.append(
        if vulns.len() == 1 {
            ""
        } else {
            "s"
        },
    );
    text.append(": ");
    text.append(join(&ids, ", ").as_str());
    text.append(RESET);
    text
}

/// The start of the line of a package.
fn sign_text(p: &PackageResult) -> (r: String)
    ensures
        r@ == sign_of(p.deep_view()),
{
    let emoji = string_to_emoji(p.health.as_str());
    proof {
        lemma_signs(of_word(p.health@));
    }
    let mut text = "   ".to_owned();
    text.append(health_color(emoji));
    text.append(emoji);
    text.append(RESET);
    text.append(" ");
    text
}

/// The start of the line of a package that was not scanned.
fn unscanned_text() -> (r: String)
    ensures
        r@ == "   "@ + GRAY@ + "?"@ + RESET@ + " "@,
{
    let mut text = "   ".to_owned();
    text.append(GRAY);
    text.append("?");
    text.append(RESET);
    text.append(" ");
    text
}

/// A description, or a hint that there is none.
fn description_of(p: &PackageResult) -> (r: &str)
    ensures
        r@ == described(p.deep_view()),
{
    match &p.description {
        Some(d) => d.as_str(),
        None => "no description",
    }
}

/// The line of a change, with what the scan found.
fn delta_text(delta: &DepDelta, result: &Option<PackageResult>) -> (r: String)
    ensures
        r@ == delta_line(delta.deep_view(), result.deep_view()),
{
    match delta {
        DepDelta::Added(name, version) => match result {
            Some(p) => {
                let mut text = sign_text(p);
                text.append(name.as_str());
                text.append(" v");
                text.append(version.as_str());
                text.append(" — ");
                text.append(description_of(p));
                text.append(vulns_suffix(&p.vulns).as_str());
                text
            },
            None => {
                let mut text = unscanned_text();
                text.append(name.as_str());
                text.append(" v");
                text.append(version.as_str());
                text
            },
        },
        DepDelta::Upgraded(name, earlier, version) => match result {
            Some(p) => {
                let mut text = sign_text(p);
                text.append(name.as_str());
                text.append(" v");
                text.append(earlier.as_str());
                text.append(" → v");
                text.append(version.as_str());
                text.append(" (");
                text.append(description_of(p));
                text.append(")");
                text.append(vulns_suffix(&p.vulns).as_str());
                text
            },
            None => {
                let mut text = unscanned_text();
                text.append(name.as_str());
                text.append(" v");
                text.append(earlier.as_str());
                text.append(" → v");
                text.append(version.as_str());
                text
            },
        },
        DepDelta::Removed(name, version) => {
            let mut text = "   ".to_owned();
            text.append(GRAY);
            text.append("🗑 ");
            text.append(name.as_str());
            text.append(" v");
            text.append(version.as_str());
            text.append(" removed");
            text.append(RESET);
            text
        },
    }
}

/// The lines of the changes of one kind, each ended by a line break.
fn text_of_group(scanned: &Vec<(DepDelta, Option<PackageResult>)>, group: Group) -> (r: String)
    ensures
        r@ == group_text(scanned.deep_view(), group),
{
    let mut text = "".to_owned();
    let mut i: usize = 0;
    let ghost all = scanned.deep_view();
    assert(all.take(0) =~= Seq::empty());
    while i < scanned.len()
        invariant
            i <= scanned.len(),
            all == scanned.deep_view(),
            text@ == group_text(all.take(i as int), group),
        decreases scanned.len() - i,
    {
        let item = &scanned[i];
        proof {
            assert(all.take(i + 1).drop_last() =~= all.take(i as int));
            assert(all.take(i + 1).last() == item.deep_view());
        }
        let here = match &item.0 {
            DepDelta::Added(_, _) => group == Group::Added,
            DepDelta::Upgraded(_, _, _) => group == Group::Upgraded,
            DepDelta::Removed(_, _) => group == Group::Removed,
        };
        if here {
            text.append(delta_text(&item.0, &item.1).as_str());
            text.append("\n");
        }
        i = i + 1;
    }
    assert(all.take(scanned.len() as int) =~= all);
    text
}

/// Adds the changes of one kind under their title.
fn add_section(out: &mut Vec<String>, title: &str, text: String)
    ensures
        final(out).deep_view() == old(out).deep_view() + section(title@, text@),
{
    if text.as_str().is_empty() {
        assert(out.deep_view() =~= old(out).deep_view() + Seq::<Text>::empty());
        return;
    }
    let mut whole = BOLD.to_owned();
    whole.append(title);
    whole.append(RESET);
    whole.append("\n");
    whole.append(trim_end(text.as_str()));
    let ghost shown = whole@;
    add_line(out, whole);
    assert(out.deep_view() =~= old(out).deep_view() + seq![shown]);
}

/// What is shown of a comparison: the changes grouped by kind, each with what
/// the scan found.
pub fn display_diff(
    eco: &str,
    scanned: &Vec<(DepDelta, Option<PackageResult>)>,
    unchanged: usize,
) -> (r: Vec<String>)
    ensures
        r.deep_view() == diff_lines(eco@, scanned.deep_view(), unchanged as nat),
{
    let mut title = "📦 ".to_owned();
    title.append(eco);
    title.append(" dependency diff — ");
    title.append(number(scanned.len() as u64).as_str());
    title.append(" changed, ");
    title.append(number(unchanged as u64).as_str());
    title.append(" unchanged");
    let ghost shown = title@;
    let mut out: Vec<String> = Vec::new();
    add_line(&mut out, "".to_owned());
    add_line(&mut out, title);
    add_line(&mut out, "".to_owned());
    assert(out.deep_view() =~= seq![""@, shown, ""@]);
    add_section(&mut out, "🟢 Added:", text_of_group(scanned, Group::Added));
    add_section(&mut out, "🔵 Upgraded:", text_of_group(scanned, Group::Upgraded));
    add_section(&mut out, "🔴 Removed:", text_of_group(scanned, Group::Removed));
    out
}

// ── Laws ─────────────────────────────────────────────────────────────

proof fn lemma_changes(
    old: Seq<(Text, Text)>,
    new: Seq<(Text, Text)>,
    names: Seq<Text>,
    d: DeltaView,
)
    ensures
        changes(old, new, names).contains(d) <==> exists|k: int|
            0 <= k < names.len() && change(old, new, #[trigger] names[k]) == Some(d),
    decreases names.len(),
{
    if names.len() > 0 {
        let init = names.drop_last();
        lemma_changes(old, new, init, d);
        let here = changes(old, new, names);
        let rest = changes(old, new, init);
        let n = names.len() - 1;
        if here.contains(d) {
            let k = choose|k: int| 0 <= k < here.len() && here[k] == d;
            if k < rest.len() {
                assert(rest[k] == d);
                let j = choose|j: int|
                    0 <= j < init.len() && change(old, new, #[trigger] init[j]) == Some(d);
                assert(names[j] == init[j]);
            } else {
                assert(change(old, new, names[n]) == Some(d));
            }
        }
        if exists|k: int| 0 <= k < names.len() && change(old, new, #[trigger] names[k]) == Some(d) {
            let k = choose|k: int|
                0 <= k < names.len() && change(old, new, #[trigger] names[k]) == Some(d);
            if k < n {
                assert(init[k] == names[k]);
                let j = choose|j: int| 0 <= j < rest.len() && rest[j] == d;
                assert(here[j] == d);
            } else {
                assert(here[here.len() - 1] == d);
            }
        }
    }
}

proof fn lemma_removals(
    old: Seq<(Text, Text)>,
    new: Seq<(Text, Text)>,
    names: Seq<Text>,
    d: DeltaView,
)
    ensures
        removals(old, new, names).contains(d) <==> (d matches DeltaView::Removed(name, o)
            && value_of(old, name) == Some(o) && value_of(new, name) is None && names.contains(
            name,
        )),
    decreases names.len(),
{
    if names.len() > 0 {
        let init = names.drop_last();
        lemma_removals(old, new, init, d);
        let here = removals(old, new, names);
        let rest = removals(old, new, init);
        let n = names.len() - 1;
        assert(names[n] == names.last());
        assert(forall|x: Text| init.contains(x) ==> names.contains(x)) by {
            assert forall|x: Text| init.contains(x) implies names.contains(x) by {
                let k = choose|k: int| 0 <= k < init.len() && init[k] == x;
                assert(names[k] == x);
            }
        }
        if here.contains(d) {
            let k = choose|k: int| 0 <= k < here.len() && here[k] == d;
            if k < rest.len() {
                assert(rest[k] == d);
            }
        }
        if let DeltaView::Removed(name, o) = d {
            if value_of(old, name) == Some(o) && value_of(new, name) is None && names.contains(
                name,
            ) {
                let k = choose|k: int| 0 <= k < names.len() && names[k] == name;
                if k < n {
                    assert(init[k] == name);
                    let j = choose|j: int| 0 <= j < rest.len() && rest[j] == d;
                    assert(here[j] == d);
                } else {
                    assert(here[here.len() - 1] == d);
                }
            }
        }
    }
}

/// What a delta holds: the additions are the packages that only the new list
/// has, the removals those that only the old one has, and the upgrades those
/// that both have in different versions.
pub proof fn law_diff_holds_every_change(
    old: Seq<(Text, Text)>,
    new: Seq<(Text, Text)>,
    d: DeltaView,
)
    ensures
        diff(old, new).contains(d) <==> match d {
            DeltaView::Added(name, n) => value_of(old, name) is None && value_of(new, name) == Some(
                n,
            ),
            DeltaView::Upgraded(name, o, n) => value_of(old, name) == Some(o) && value_of(new, name)
                == Some(n) && o != n,
            DeltaView::Removed(name, o) => value_of(old, name) == Some(o) && value_of(
                new,
                name,
            ) is None,
        },
{
    let first = changes(old, new, distinct(keys(new)));
    let second = removals(old, new, distinct(keys(old)));
    let all = diff(old, new);
    lemma_changes(old, new, distinct(keys(new)), d);
    lemma_removals(old, new, distinct(keys(old)), d);
    lemma_distinct(keys(new));
    lemma_distinct(keys(old));
    if all.contains(d) {
        let k = choose|k: int| 0 <= k < all.len() && all[k] == d;
        if k < first.len() {
            assert(first[k] == d);
        } else {
            assert(second[k - first.len()] == d);
        }
    }
    if first.contains(d) {
        let k = choose|k: int| 0 <= k < first.len() && first[k] == d;
        assert(all[k] == d);
    }
    if second.contains(d) {
        let k = choose|k: int| 0 <= k < second.len() && second[k] == d;
        assert(all[first.len() + k] == d);
    }
    let name = match d {
        DeltaView::Added(name, _) => name,
        DeltaView::Upgraded(name, _, _) => name,
        DeltaView::Removed(name, _) => name,
    };
    lemma_keys(new, name);
    lemma_keys(old, name);
    if value_of(new, name) is Some {
        assert(distinct(keys(new)).contains(name));
        let k = choose|k: int|
            0 <= k < distinct(keys(new)).len() && distinct(keys(new))[k] == name;
        assert(change(old, new, distinct(keys(new))[k]) == change(old, new, name));
    }
    if value_of(old, name) is Some {
        assert(distinct(keys(old)).contains(name));
    }
}

/// A list compared with itself gives no changes.
pub proof fn law_same_list_no_changes(deps: Seq<(Text, Text)>)
    ensures
        diff(deps, deps).len() == 0,
{
    if diff(deps, deps).len() > 0 {
        let d = diff(deps, deps)[0];
        assert(diff(deps, deps).contains(d));
        law_diff_holds_every_change(deps, deps, d);
    }
}

/// A delta read backwards.
pub open spec fn reversed(d: DeltaView) -> DeltaView {
    match d {
        DeltaView::Added(name, n) => DeltaView::Removed(name, n),
        DeltaView::Upgraded(name, o, n) => DeltaView::Upgraded(name, n, o),
        DeltaView::Removed(name, o) => DeltaView::Added(name, o),
    }
}

/// With the two lists exchanged every change is read backwards.
pub proof fn law_exchange_reverses(old: Seq<(Text, Text)>, new: Seq<(Text, Text)>, d: DeltaView)
    ensures
        diff(old, new).contains(d) <==> diff(new, old).contains(reversed(d)),
{
    law_diff_holds_every_change(old, new, d);
    law_diff_holds_every_change(new, old, reversed(d));
}

/// The dependency that a change is about.
pub open spec fn about(d: DeltaView) -> Text {
    match d {
        DeltaView::Added(name, _) => name,
        DeltaView::Upgraded(name, _, _) => name,
        DeltaView::Removed(name, _) => name,
    }
}

proof fn lemma_parts_distinct(old: Seq<(Text, Text)>, new: Seq<(Text, Text)>, names: Seq<Text>)
    requires
        names.no_duplicates(),
    ensures
        forall|i: int|
            0 <= i < changes(old, new, names).len() ==> names.contains(
                about(#[trigger] changes(old, new, names)[i]),
            ) && value_of(new, about(changes(old, new, names)[i])) is Some,
        forall|i: int, j: int|
            0 <= i < j < changes(old, new, names).len() ==> about(changes(old, new, names)[i])
                != about(changes(old, new, names)[j]),
        forall|i: int|
            0 <= i < removals(old, new, names).len() ==> names.contains(
                about(#[trigger] removals(old, new, names)[i]),
            ) && value_of(new, about(removals(old, new, names)[i])) is None,
        forall|i: int, j: int|
            0 <= i < j < removals(old, new, names).len() ==> about(removals(old, new, names)[i])
                != about(removals(old, new, names)[j]),
    decreases names.len(),
{
    if names.len() > 0 {
        let init = names.drop_last();
        lemma_parts_distinct(old, new, init);
        let n = names.len() - 1;
        assert(names[n] == names.last());
        assert(!init.contains(names.last())) by {
            if init.contains(names.last()) {
                let k = choose|k: int| 0 <= k < init.len() && init[k] == names.last();
                assert(names[k] == names[n]);
            }
        }
        assert forall|x: Text| init.contains(x) implies names.contains(x) by {
            let k = choose|k: int| 0 <= k < init.len() && init[k] == x;
            assert(names[k] == x);
        }
        let c = changes(old, new, names);
        let c0 = changes(old, new, init);
        assert forall|i: int| 0 <= i < c.len() implies names.contains(about(#[trigger] c[i]))
            && value_of(new, about(c[i])) is Some by {
            if i < c0.len() {
                assert(c[i] == c0[i]);
            }
        }
        assert forall|i: int, j: int| 0 <= i < j < c.len() implies about(c[i]) != about(c[j]) by {
            assert(c[i] == c0[i]);
            if j < c0.len() {
                assert(c[j] == c0[j]);
            }
        }
        let r = removals(old, new, names);
        let r0 = removals(old, new, init);
        assert forall|i: int| 0 <= i < r.len() implies names.contains(about(#[trigger] r[i]))
            && value_of(new, about(r[i])) is None by {
            if i < r0.len() {
                assert(r[i] == r0[i]);
            }
        }
        assert forall|i: int, j: int| 0 <= i < j < r.len() implies about(r[i]) != about(r[j]) by {
            assert(r[i] == r0[i]);
            if j < r0.len() {
                assert(r[j] == r0[j]);
            }
        }
    }
}

/// No dependency occurs in two changes.
pub proof fn law_one_change_per_dependency(old: Seq<(Text, Text)>, new: Seq<(Text, Text)>)
    ensures
        forall|i: int, j: int|
            0 <= i < j < diff(old, new).len() ==> about(#[trigger] diff(old, new)[i]) != about(
                #[trigger] diff(old, new)[j],
            ),
{
    lemma_distinct(keys(new));
    lemma_distinct(keys(old));
    lemma_parts_distinct(old, new, distinct(keys(new)));
    lemma_parts_distinct(old, new, distinct(keys(old)));
    let first = changes(old, new, distinct(keys(new)));
    let second = removals(old, new, distinct(keys(old)));
    let all = diff(old, new);
    assert forall|i: int, j: int| 0 <= i < j < all.len() implies about(#[trigger] all[i]) != about(
        #[trigger] all[j],
    ) by {
        if j < first.len() {
            assert(all[i] == first[i] && all[j] == first[j]);
        } else if i < first.len() {
            assert(all[i] == first[i] && all[j] == second[j - first.len()]);
        } else {
            assert(all[i] == second[i - first.len()] && all[j] == second[j - first.len()]);
        }
    }
}

/// A health that was stored as a word is shown with the sign that it was
/// scored with.
pub proof fn law_stored_health_keeps_its_sign(h: Health)
    ensures
        of_word(of_emoji(h.emoji()).word()).emoji() == h.emoji(),
{
    lemma_signs(h);
    crate::types::lemma_words(h);
}

/// Only what changed is scanned, in the version that is current now.
pub proof fn law_only_changes_are_scanned(
    old: Seq<(Text, Text)>,
    new: Seq<(Text, Text)>,
    i: int,
)
    requires
        0 <= i < diff(old, new).len(),
    ensures
        scanned_of(diff(old, new)[i]) matches Some(dep) ==> value_of(new, dep.0) == Some(dep.1)
            && value_of(old, dep.0) != Some(dep.1),
{
    let d = diff(old, new)[i];
    assert(diff(old, new).contains(d));
    law_diff_holds_every_change(old, new, d);
}

proof fn lemma_part_holds(a: Text, b: Text, c: Text)
    ensures
        holds(a + b + c, b),
{
    let all = a + b + c;
    let n = a.len() as int;
    assert(all.subrange(n, n + b.len()) =~= b);
    assert(occurs_at(all, b, n));
}

proof fn lemma_longer_holds(a: Text, c: Text, p: Text)
    requires
        holds(a, p),
    ensures
        holds(a + c, p),
{
    let i = choose|i: int| occurs_at(a, p, i);
    assert((a + c).subrange(i, i + p.len()) =~= a.subrange(i, i + p.len()));
    assert(occurs_at(a + c, p, i));
}

/// Every change is shown, in the group of its kind.
pub proof fn law_every_change_is_shown(
    scanned: Seq<(DeltaView, Option<PackageView>)>,
    i: int,
)
    requires
        0 <= i < scanned.len(),
    ensures
        holds(
            group_text(scanned, group_of(scanned[i].0)),
            delta_line(scanned[i].0, scanned[i].1),
        ),
    decreases scanned.len(),
{
    let init = scanned.drop_last();
    let group = group_of(scanned[i].0);
    let line = delta_line(scanned[i].0, scanned[i].1);
    let rest = group_text(init, group);
    if i == scanned.len() - 1 {
        lemma_part_holds(rest, line, "\n"@);
    } else {
        assert(init[i] == scanned[i]);
        law_every_change_is_shown(init, i);
        if group_of(scanned.last().0) == group {
            let last = delta_line(scanned.last().0, scanned.last().1);
            lemma_longer_holds(rest, last, line);
            lemma_longer_holds(rest + last, "\n"@, line);
        }
    }
}

} // verus!
