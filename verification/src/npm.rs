//! Packages of npm, and the `package-lock.json` that names them.

use crate::api::{github_repo, parse_github_repo, GitHubRepo, GitHubView};
use crate::clock::{age, days_since_on, now, Moment};
use crate::display::{GRAY, GREEN, RESET};
use crate::health::{combine, combined, days_since_push, push_age, reason, why_stale};
use crate::report::{
    law_two_scans, only_worth_a_look, records, report, report_of, tally, Ecosystem, Report,
};
use crate::scan::{
    age_note, age_text, alarm, alarm_text, counted_license, failed, fetch_failed, first_sentence,
    found, heading, heading_text, law_found_narrows, narrows, opening, or_hint, or_none_given,
    package_found, reason_note, reason_text, track_license, unknown_package, unknown_record,
    with_stale, Options, Outcome, OutcomeView,
};
use crate::table::{lookup, unique, value_of};
use crate::text::{after_last, begins, replace, replaced, same, starts_with, tail_after, Text};
use crate::types::{copy_text, copy_vulns, Health, PackageResult, PackageView, VulnInfo};
use vstd::prelude::*;

verus! {

// ── Structs ──────────────────────────────────────────────────────────

/// A `package-lock.json`: the packages by the path of their directory, or,
/// in the older format, the dependencies by name. No path and no name occurs
/// twice.
#[derive(Debug)]
pub struct NpmLock {
    pub packages: Option<Vec<(String, NpmPkg)>>,
    pub dependencies: Option<Vec<(String, NpmDep)>>,
}

impl NpmLock {
    /// No path and no name occurs twice.
    pub open spec fn wf(self) -> bool {
        &&& self.packages matches Some(all) ==> unique(all.deep_view())
        &&& self.dependencies matches Some(all) ==> unique(all.deep_view())
    }
}

#[derive(Debug)]
pub struct NpmPkg {
    pub version: Option<String>,
}

impl DeepView for NpmPkg {
    type V = Option<Text>;

    open spec fn deep_view(&self) -> Option<Text> {
        self.version.deep_view()
    }
}

#[derive(Debug)]
pub struct NpmDep {
    pub version: String,
}

impl DeepView for NpmDep {
    type V = Text;

    open spec fn deep_view(&self) -> Text {
        self.version@
    }
}

/// What the npm registry knows of a package. No tag and no event occurs
/// twice.
#[derive(Debug)]
pub struct NpmRegistryResponse {
    pub dist_tags: Vec<(String, String)>,
    pub time: Vec<(String, String)>,
    pub repository: Option<NpmRepo>,
    pub description: Option<String>,
    pub license: Option<String>,
}

#[derive(Debug)]
pub struct NpmRepo {
    pub url: Option<String>,
}

/// A dependency with all that was fetched for it: what the registry knows,
/// or why it could not be asked, the repository on GitHub, the known
/// vulnerabilities, and what is known of its provenance.
#[derive(Debug)]
pub struct NpmScan {
    pub name: String,
    pub version: String,
    pub fetched: Result<NpmRegistryResponse, String>,
    pub github: Option<GitHubRepo>,
    pub vulns: Vec<VulnInfo>,
    pub provenance: String,
}

// ── Helpers ──────────────────────────────────────────────────────────

/// The packages with a version, each under what follows the last
/// `node_modules/` of its path, without the root of the project; a name and
/// version that came before is not repeated.
pub open spec fn lock_packages(all: Seq<(Text, Option<Text>)>) -> Seq<(Text, Text)>
    decreases all.len(),
{
    if all.len() == 0 {
        Seq::empty()
    } else {
        let rest = lock_packages(all.drop_last());
        let (path, version) = all.last();
        match version {
            Some(v) => {
                let dep = (after_last(path, "node_modules/"@), v);
                if path.len() == 0 || rest.contains(dep) {
                    rest
                } else {
                    rest.push(dep)
                }
            },
            None => rest,
        }
    }
}

/// The dependencies that a `package-lock.json` names: its packages, else its
/// dependencies.
pub open spec fn npm_deps(lock: NpmLock) -> Seq<(Text, Text)> {
    match (lock.packages, lock.dependencies) {
        (Some(packages), _) => lock_packages(packages.deep_view()),
        (None, Some(deps)) => deps.deep_view(),
        (None, None) => Seq::empty(),
    }
}

/// Whether the dependency is in the list.
fn listed(deps: &Vec<(String, String)>, name: &str, version: &str) -> (r: bool)
    ensures
        r == deps.deep_view().contains((name@, version@)),
{
    let mut i: usize = 0;
    while i < deps.len()
        invariant
            i <= deps.len(),
            forall|k: int| 0 <= k < i ==> #[trigger] deps.deep_view()[k] != (name@, version@),
        decreases deps.len() - i,
    {
        assert(deps.deep_view()[i as int] == (deps[i as int].0@, deps[i as int].1@));
        if same(deps[i].0.as_str(), name) && same(deps[i].1.as_str(), version) {
            return true;
        }
        i = i + 1;
    }
    false
}

/// The dependencies that a `package-lock.json` names, as pairs of name and
/// version. Packages that are installed in several versions are kept in each.
pub fn extract_npm_deps(lock: &NpmLock) -> (r: Vec<(String, String)>)
    ensures
        r.deep_view() == npm_deps(*lock),
{
    let mut deps: Vec<(String, String)> = Vec::new();
    assert(deps.deep_view() =~= Seq::empty());
    let mut i: usize = 0;
    if let Some(packages) = &lock.packages {
        let ghost all = packages.deep_view();
        assert(all.take(0) =~= Seq::empty());
        while i < packages.len()
            invariant
                i <= packages.len(),
                all == packages.deep_view(),
                deps.deep_view() == lock_packages(all.take(i as int)),
            decreases packages.len() - i,
        {
            let path = packages[i].0.as_str();
            proof {
                assert(all.take(i + 1).drop_last() =~= all.take(i as int));
                assert(all.take(i + 1).last() == packages[i as int].deep_view());
            }
            if let Some(version) = &packages[i].1.version {
                let name = tail_after(path, "node_modules/");
                if !path.is_empty() && !listed(&deps, name, version.as_str()) {
                    let ghost before = deps.deep_view();
                    deps.push((name.to_owned(), version.clone()));
                    assert(deps.deep_view() =~= before.push((name@, version@)));
                }
            }
            i = i + 1;
        }
        assert(all.take(packages.len() as int) =~= all);
        return deps;
    }
    if let Some(named) = &lock.dependencies {
        let ghost all = named.deep_view();
        assert(all.take(0) =~= Seq::empty());
        while i < named.len()
            invariant
                i <= named.len(),
                all == named.deep_view(),
                deps.deep_view() == all.take(i as int),
            decreases named.len() - i,
        {
            let ghost before = deps.deep_view();
            deps.push((named[i].0.clone(), named[i].1.version.clone()));
            proof {
                assert(all[i as int] == named[i as int].deep_view());
                assert(deps.deep_view() =~= before.push(all[i as int]));
                assert(all.take(i + 1) =~= all.take(i as int).push(all[i as int]));
            }
            i = i + 1;
        }
        assert(all.take(named.len() as int) =~= all);
    }
    deps
}

// ── Public parser ────────────────────────────────────────────────────

/// All dependencies in a `package-lock.json`, as pairs of name and version.
/// Supports both v3 (`packages`) and v1 (`dependencies`) lock file formats.
/// `lock` is what the file holds, or what is wrong with it.
pub fn parse_npm_lock(lock: Result<NpmLock, String>) -> (r: Result<Vec<(String, String)>, String>)
    ensures
        match lock {
            Ok(l) => r matches Ok(deps) && deps.deep_view() == npm_deps(l),
            Err(e) => r matches Err(m) && m@ == "Failed to parse package-lock.json: "@ + e@,
        },
{
    match lock {
        Ok(l) => Ok(extract_npm_deps(&l)),
        Err(e) => {
            let mut text = "Failed to parse package-lock.json: ".to_owned();
            text.append(e.as_str());
            Err(text)
        },
    }
}

// ── Health scoring ───────────────────────────────────────────────────

/// The days from the last change in the registry to `today`.
pub open spec fn npm_release_age(data: NpmRegistryResponse, today: i32) -> Option<i64> {
    match value_of(data.time.deep_view(), "modified"@) {
        Some(modified) => age(modified, today),
        None => None,
    }
}

/// The health of a package on the given day.
pub open spec fn npm_health(
    data: NpmRegistryResponse,
    gh: Option<GitHubView>,
    today: i32,
) -> Health {
    combined(npm_release_age(data, today), push_age(gh, today))
}

/// Why a package is not healthy on the given day.
pub open spec fn npm_reason(
    data: NpmRegistryResponse,
    gh: Option<GitHubView>,
    today: i32,
) -> Option<Text> {
    reason("No update on npm"@, npm_release_age(data, today), push_age(gh, today))
}

/// The days from the last change in the registry to `today`.
fn days_since_release(data: &NpmRegistryResponse, today: i32) -> (r: Option<i64>)
    ensures
        r == npm_release_age(*data, today),
{
    match lookup(data.time.as_slice(), "modified") {
        Some(modified) => days_since_on(modified.as_str(), today),
        None => None,
    }
}

/// The health of a package on the given day.
pub fn npm_health_on(
    data: &NpmRegistryResponse,
    gh: Option<&GitHubRepo>,
    today: i32,
) -> (r: Health)
    ensures
        r == npm_health(*data, gh.deep_view(), today),
{
    combine(days_since_release(data, today), days_since_push(gh, today))
}

/// Why a package is not healthy on the given day.
pub fn npm_stale_reason_on(
    data: &NpmRegistryResponse,
    gh: Option<&GitHubRepo>,
    today: i32,
) -> (r: Option<String>)
    ensures
        r.deep_view() == npm_reason(*data, gh.deep_view(), today),
{
    why_stale("No update on npm", days_since_release(data, today), days_since_push(gh, today))
}

/// The health of an npm package, as of today.
///
/// Uses the npm registry `modified` date first. If the registry says
/// healthy (✅), goes by GitHub `pushed_at` for finer granularity, where the
/// repository is known.
pub fn get_npm_health(data: &NpmRegistryResponse, gh: Option<&GitHubRepo>) -> (r: &'static str)
    ensures
        exists|at: Moment|
            #[trigger] at.wf() && r@ == npm_health(
                *data,
                gh.deep_view(),
                at.day() as i32,
            ).emoji(),
{
    let at = now();
    npm_health_on(data, gh, at.today()).sign()
}

/// Stale reason for npm packages, as of today.
///
/// `None` when the package is fully healthy (both npm registry and GitHub
/// are active). The absence of a repository is not a health problem.
pub fn get_npm_stale_reason(data: &NpmRegistryResponse, gh: Option<&GitHubRepo>) -> (r: Option<
    String,
>)
    ensures
        exists|at: Moment|
            #[trigger] at.wf() && r.deep_view() == npm_reason(
                *data,
                gh.deep_view(),
                at.day() as i32,
            ),
{
    let at = now();
    npm_stale_reason_on(data, gh, at.today())
}

// ── npm registry API ─────────────────────────────────────────────────

/// Where the registry is asked about a package.
pub fn npm_url(name: &str) -> (r: String)
    ensures
        r@ == "https://registry.npmjs.org/"@ + replaced(name@, '/', "%2F"@),
{
    let mut url = "https://registry.npmjs.org/".to_owned();
    url.append(replace(name, '/', "%2F").as_str());
    url
}

/// The repository on GitHub that a package names.
pub open spec fn npm_repository(data: NpmRegistryResponse) -> Option<(Text, Text)> {
    match data.repository {
        Some(repo) => match repo.url {
            Some(url) => github_repo(url@),
            None => None,
        },
        None => None,
    }
}

/// The repository on GitHub that a package names.
pub fn repository_of(data: &NpmRegistryResponse) -> (r: Option<(String, String)>)
    ensures
        r.deep_view() == npm_repository(*data),
{
    match &data.repository {
        Some(repo) => match &repo.url {
            Some(url) => parse_github_repo(url.as_str()),
            None => None,
        },
        None => None,
    }
}

// ── One package ──────────────────────────────────────────────────────

/// The record of a dependency on the given day.
pub open spec fn npm_record(s: NpmScan, today: i32) -> PackageView {
    match s.fetched {
        Ok(data) => PackageView {
            name: s.name@,
            version: s.version@,
            health: npm_health(data, s.github.deep_view(), today).word(),
            description: data.description.deep_view(),
            latest_version: value_of(data.dist_tags.deep_view(), "latest"@),
            stale_reason: npm_reason(data, s.github.deep_view(), today),
            vulns: s.vulns.deep_view(),
            provenance: Some(s.provenance@),
        },
        Err(e) => unknown_package(s.name@, s.version@, e@),
    }
}

/// What is known of the provenance, on a line of its own.
pub open spec fn provenance_note(provenance: Text) -> Text {
    "\n   "@ + (if begins(provenance, "🧾"@) {
        GREEN@
    } else {
        GRAY@
    }) + provenance + RESET@
}

/// The line of a dependency on the given day.
pub open spec fn npm_line(
    opts: Options,
    s: NpmScan,
    data: NpmRegistryResponse,
    today: i32,
) -> Text {
    let release = npm_release_age(data, today);
    let commit = push_age(s.github.deep_view(), today);
    let health = combined(release, commit);
    heading(health, s.name@, s.version@) + " — "@ + or_none_given(
        first_sentence(data.description.deep_view(), ""@),
    ) + " (latest: "@ + (match value_of(data.dist_tags.deep_view(), "latest"@) {
        Some(v) => v,
        None => "?"@,
    }) + ")"@ + reason_note(opts, npm_reason(data, s.github.deep_view(), today)) + provenance_note(
        s.provenance@,
    ) + alarm(s.vulns.deep_view()) + age_note(health, release, commit)
}

/// What a dependency contributes to a scan on the given day.
pub open spec fn npm_outcome(opts: Options, s: NpmScan, today: i32) -> OutcomeView {
    match s.fetched {
        Ok(data) => found(
            opts,
            npm_health(data, s.github.deep_view(), today),
            counted_license(opts, data.license.deep_view()),
            npm_record(s, today),
            npm_line(opts, s, data, today),
        ),
        Err(e) => failed(opts, s.name@, s.version@, e@),
    }
}

/// The record of a dependency on the given day.
pub fn scan_single_on(s: &NpmScan, today: i32) -> (r: PackageResult)
    ensures
        r.deep_view() == npm_record(*s, today),
{
    match &s.fetched {
        Ok(data) => {
            let health = npm_health_on(data, s.github.as_ref(), today);
            let latest_version = match lookup(data.dist_tags.as_slice(), "latest") {
                Some(v) => Some(v.clone()),
                None => None,
            };
            PackageResult {
                name: s.name.clone(),
                version: s.version.clone(),
                health: health.name().to_owned(),
                description: copy_text(&data.description),
                latest_version,
                stale_reason: npm_stale_reason_on(data, s.github.as_ref(), today),
                vulns: copy_vulns(&s.vulns),
                provenance: Some(s.provenance.clone()),
            }
        },
        Err(e) => unknown_record(s.name.as_str(), s.version.as_str(), e.as_str()),
    }
}

/// The record of a single npm dependency, as of today.
pub fn scan_single(s: &NpmScan) -> (r: PackageResult)
    ensures
        exists|at: Moment| #[trigger] at.wf() && r.deep_view() == npm_record(*s, at.day() as i32),
{
    let at = now();
    scan_single_on(s, at.today())
}

/// The line of a dependency on the given day.
fn line_on(opts: Options, s: &NpmScan, data: &NpmRegistryResponse, today: i32) -> (r: String)
    ensures
        r@ == npm_line(opts, *s, *data, today),
{
    let release = days_since_release(data, today);
    let commit = days_since_push(s.github.as_ref(), today);
    let health = combine(release, commit);
    let mut line = heading_text(health, s.name.as_str(), s.version.as_str());
    line.append(" — ");
    line.append(or_hint(opening(&data.description, "")).as_str());
    line.append(" (latest: ");
    line.append(
        match lookup(data.dist_tags.as_slice(), "latest") {
            Some(v) => v.as_str(),
            None => "?",
        },
    );
    line.append(")");
    let reason = npm_stale_reason_on(data, s.github.as_ref(), today);
    line.append(reason_text(opts, &reason).as_str());
    let mut provenance = "\n   ".to_owned();
    provenance.append(
        if starts_with(s.provenance.as_str(), "🧾") {
            GREEN
        } else {
            GRAY
        },
    );
    provenance.append(s.provenance.as_str());
    provenance.append(RESET);
    line.append(provenance.as_str());
    line.append(alarm_text(&s.vulns).as_str());
    line.append(age_text(health, release, commit).as_str());
    line
}

/// What a dependency contributes to a scan on the given day.
pub fn scan_package_on(opts: Options, s: &NpmScan, today: i32) -> (r: Outcome)
    ensures
        r.deep_view() == npm_outcome(opts, *s, today),
{
    match &s.fetched {
        Ok(data) => package_found(
            opts,
            npm_health_on(data, s.github.as_ref(), today),
            track_license(opts, &data.license),
            scan_single_on(s, today),
            line_on(opts, s, data, today),
        ),
        Err(e) => fetch_failed(opts, s.name.as_str(), s.version.as_str(), e.as_str()),
    }
}

// ── Public entry point ───────────────────────────────────────────────

/// What the dependencies contribute to a scan on the given day, in order.
pub open spec fn npm_outcomes(opts: Options, deps: Seq<NpmScan>, today: i32) -> Seq<OutcomeView> {
    deps.map_values(|s: NpmScan| npm_outcome(opts, s, today))
}

/// What a scan of the given dependencies puts out on the given day.
pub fn scan_npm_deps_on(opts: Options, deps: &Vec<NpmScan>, today: i32) -> (r: Report)
    ensures
        r.deep_view() == report_of(Ecosystem::Npm, opts, npm_outcomes(opts, deps@, today)),
{
    let mut all: Vec<Outcome> = Vec::new();
    let mut i: usize = 0;
    while i < deps.len()
        invariant
            i <= deps.len(),
            all.deep_view() == npm_outcomes(opts, deps@.take(i as int), today),
        decreases deps.len() - i,
    {
        let ghost before = all.deep_view();
        all.push(scan_package_on(opts, &deps[i], today));
        assert(all.deep_view() =~= before.push(npm_outcome(opts, deps[i as int], today)));
        assert(all.deep_view() =~= npm_outcomes(opts, deps@.take(i + 1), today));
        i = i + 1;
    }
    assert(deps@.take(deps.len() as int) =~= deps@);
    report(Ecosystem::Npm, opts, &all)
}

/// What a scan of the given dependencies puts out, as of today.
pub fn scan_npm_deps(opts: Options, deps: &Vec<NpmScan>) -> (r: Report)
    ensures
        exists|at: Moment|
            #[trigger] at.wf() && r.deep_view() == report_of(
                Ecosystem::Npm,
                opts,
                npm_outcomes(opts, deps@, at.day() as i32),
            ),
{
    let at = now();
    scan_npm_deps_on(opts, deps, at.today())
}

// ── Laws ─────────────────────────────────────────────────────────────

/// No name and version is listed twice, and listed is exactly what some
/// package outside the root has.
pub proof fn law_lock_packages(all: Seq<(Text, Option<Text>)>)
    ensures
        lock_packages(all).no_duplicates(),
        forall|d: (Text, Text)| #[trigger]
            lock_packages(all).contains(d) <==> exists|i: int|
                0 <= i < all.len() && (#[trigger] all[i]).0.len() > 0 && all[i].1 == Some(d.1)
                    && after_last(all[i].0, "node_modules/"@) == d.0,
    decreases all.len(),
{
    if all.len() > 0 {
        let init = all.drop_last();
        law_lock_packages(init);
        let rest = lock_packages(init);
        let list = lock_packages(all);
        let n = all.len() - 1;
        assert forall|d: (Text, Text)| #[trigger] list.contains(d) implies exists|i: int|
            0 <= i < all.len() && (#[trigger] all[i]).0.len() > 0 && all[i].1 == Some(d.1)
                && after_last(all[i].0, "node_modules/"@) == d.0 by {
            if rest.contains(d) {
                let i = choose|i: int|
                    0 <= i < init.len() && (#[trigger] init[i]).0.len() > 0 && init[i].1 == Some(
                        d.1,
                    ) && after_last(init[i].0, "node_modules/"@) == d.0;
                assert(all[i] == init[i]);
            } else {
                let k = choose|k: int| 0 <= k < list.len() && list[k] == d;
                if k < rest.len() {
                    assert(rest[k] == d);
                }
                assert(all[n].0.len() > 0);
            }
        }
        assert forall|d: (Text, Text)|
            (exists|i: int|
                0 <= i < all.len() && (#[trigger] all[i]).0.len() > 0 && all[i].1 == Some(d.1)
                    && after_last(all[i].0, "node_modules/"@) == d.0) implies #[trigger]
            list.contains(d) by {
            let i = choose|i: int|
                0 <= i < all.len() && (#[trigger] all[i]).0.len() > 0 && all[i].1 == Some(d.1)
                    && after_last(all[i].0, "node_modules/"@) == d.0;
            if i < n {
                assert(init[i] == all[i]);
                assert(rest.contains(d));
                let k = choose|k: int| 0 <= k < rest.len() && rest[k] == d;
                assert(list[k] == d);
            } else if rest.contains(d) {
                let k = choose|k: int| 0 <= k < rest.len() && rest[k] == d;
                assert(list[k] == d);
            } else {
                assert(list == rest.push(d));
                assert(list[rest.len() as int] == d);
            }
        }
    }
}

/// Of two scans for records of the same packages, as they were fetched, on the
/// same day, one of all and one of those worth a look: both report the same
/// summary, and the packages of the second are exactly those of the first
/// that are stale, inactive, dead or unknown or have vulnerabilities.
pub proof fn law_stale_narrows_the_packages(opts: Options, deps: Seq<NpmScan>, today: i32)
    requires
        opts.records(),
    ensures
        ({
            let all = npm_outcomes(with_stale(opts, false), deps, today);
            let few = npm_outcomes(with_stale(opts, true), deps, today);
            &&& tally(few) == tally(all)
            &&& records(all).len() == deps.len()
            &&& records(few) == only_worth_a_look(records(all))
        }),
{
    let all = npm_outcomes(with_stale(opts, false), deps, today);
    let few = npm_outcomes(with_stale(opts, true), deps, today);
    assert forall|i: int| 0 <= i < all.len() implies narrows(#[trigger] few[i], all[i]) by {
        let s = deps[i];
        match s.fetched {
            Ok(data) => {
                law_found_narrows(
                    opts,
                    npm_health(data, s.github.deep_view(), today),
                    counted_license(opts, data.license.deep_view()),
                    npm_record(s, today),
                    npm_line(with_stale(opts, true), s, data, today),
                    npm_line(with_stale(opts, false), s, data, today),
                );
            },
            Err(e) => {},
        }
    }
    law_two_scans(Ecosystem::Npm, opts, few, all);
}

/// In either format no name and version is listed twice.
pub proof fn law_dependencies_are_distinct(lock: NpmLock)
    requires
        lock.wf(),
    ensures
        npm_deps(lock).no_duplicates(),
{
    if lock.packages is Some {
        law_lock_packages(lock.packages->0.deep_view());
    } else if lock.dependencies is Some {
        let all = lock.dependencies->0.deep_view();
        assert forall|i: int, j: int|
            0 <= i < all.len() && 0 <= j < all.len() && i != j implies all[i] != all[j] by {
            if i < j {
                assert(all[i].0 != all[j].0);
            } else {
                assert(all[j].0 != all[i].0);
            }
        }
    }
}

} // verus!
