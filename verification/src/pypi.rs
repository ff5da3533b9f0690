//! Packages of PyPI, and the Python lockfiles that name them.

use crate::api::{github_repo, parse_github_repo, GitHubRepo, GitHubView};
use crate::clock::{age, days_since_on, now, Moment};
use crate::health::{combine, combined, days_since_push, push_age, reason, why_stale};
use crate::report::{
    law_two_scans, only_worth_a_look, records, report, report_of, tally, Ecosystem, Report,
};
use crate::scan::{
    alarm, alarm_text, counted_license, failed, fetch_failed, found, heading, heading_text,
    law_found_narrows, narrows, or_hint, or_none_given, package_found, reason_note, reason_text,
    track_license, unknown_package, unknown_record, with_stale, Options, Outcome, OutcomeView,
};
use crate::table::unique;
use crate::text::{strip_ends, strip_starts, trim_end_matches, trim_start_matches, Text};
use crate::types::{copy_text, copy_vulns, Health, PackageResult, PackageView, VulnInfo};
use vstd::prelude::*;

verus! {

// ── Structs ──────────────────────────────────────────────────────────

/// A `poetry.lock`.
#[derive(Debug)]
pub struct PoetryLock {
    pub package: Option<Vec<PoetryPkg>>,
}

#[derive(Debug)]
pub struct PoetryPkg {
    pub name: String,
    pub version: String,
    pub description: Option<String>,
}

/// A `Pipfile.lock`. No package occurs twice in either list.
#[derive(Debug)]
pub struct PipfileLock {
    pub default: Option<Vec<(String, PipPkg)>>,
    pub develop: Option<Vec<(String, PipPkg)>>,
}

impl PipfileLock {
    /// No package occurs twice in either list.
    pub open spec fn wf(self) -> bool {
        &&& self.default matches Some(all) ==> unique(all.deep_view())
        &&& self.develop matches Some(all) ==> unique(all.deep_view())
    }
}

#[derive(Debug)]
pub struct PipPkg {
    pub version: String,
}

/// What PyPI answers to the query for a package.
#[derive(Debug)]
pub struct PyPIResponse {
    pub info: PyPIInfo,
    pub urls: Vec<PyPIUrl>,
}

/// What PyPI knows of a package.
#[derive(Debug)]
pub struct PyPIInfo {
    pub name: String,
    pub version: String,
    pub summary: Option<String>,
    pub home_page: Option<String>,
    pub project_urls: Option<Vec<(String, String)>>,
    pub license: Option<String>,
}

/// A file of a release.
#[derive(Debug)]
pub struct PyPIUrl {
    pub upload_time: Option<String>,
}

/// A dependency with all that was fetched for it: what PyPI knows, or why it
/// could not be asked, the repository on GitHub, and the known
/// vulnerabilities.
#[derive(Debug)]
pub struct PypiScan {
    pub name: String,
    pub version: String,
    pub fetched: Result<PyPIResponse, String>,
    pub github: Option<GitHubRepo>,
    pub vulns: Vec<VulnInfo>,
}

// ── Helpers ──────────────────────────────────────────────────────────

/// The repository on GitHub that the first of the addresses names that names
/// one, from position `i` on.
pub open spec fn first_repository(urls: Seq<(Text, Text)>, i: int) -> Option<(Text, Text)>
    decreases urls.len() - i,
{
    if 0 <= i < urls.len() {
        if github_repo(urls[i].1) is Some {
            github_repo(urls[i].1)
        } else {
            first_repository(urls, i + 1)
        }
    } else {
        None
    }
}

/// The repository on GitHub that a package names: in the addresses of the
/// project, else as its home page.
pub open spec fn pypi_repository(info: PyPIInfo) -> Option<(Text, Text)> {
    let listed = match info.project_urls {
        Some(urls) => first_repository(urls.deep_view(), 0),
        None => None,
    };
    if listed is Some {
        listed
    } else {
        match info.home_page {
            Some(url) => github_repo(url@),
            None => None,
        }
    }
}

/// The repository on GitHub that the first of the addresses names that names
/// one.
fn repository_among(urls: &Vec<(String, String)>) -> (r: Option<(String, String)>)
    ensures
        r.deep_view() == first_repository(urls.deep_view(), 0),
{
    let mut i: usize = 0;
    while i < urls.len()
        invariant
            i <= urls.len(),
            first_repository(urls.deep_view(), 0) == first_repository(urls.deep_view(), i as int),
        decreases urls.len() - i,
    {
        assert(urls.deep_view()[i as int] == urls[i as int].deep_view());
        let found = parse_github_repo(urls[i].1.as_str());
        if found.is_some() {
            return found;
        }
        i = i + 1;
    }
    None
}

/// The repository on GitHub that a package names: in the addresses of the
/// project, else as its home page.
pub fn extract_github_url(info: &PyPIInfo) -> (r: Option<(String, String)>)
    ensures
        r.deep_view() == pypi_repository(*info),
{
    if let Some(urls) = &info.project_urls {
        let found = repository_among(urls);
        if found.is_some() {
            return found;
        }
    }
    match &info.home_page {
        Some(url) => parse_github_repo(url.as_str()),
        None => None,
    }
}

impl DeepView for PipPkg {
    type V = Text;

    open spec fn deep_view(&self) -> Text {
        self.version@
    }
}

/// The packages in a `poetry.lock`, each with its version, in order.
pub open spec fn poetry_packages(lock: PoetryLock) -> Seq<(Text, Text)> {
    match lock.package {
        Some(all) => all@.map_values(|p: PoetryPkg| (p.name@, p.version@)),
        None => Seq::empty(),
    }
}

/// The packages of a list in a `Pipfile.lock`, each with its version without
/// leading `==`.
pub open spec fn pinned(list: Option<Seq<(Text, Text)>>) -> Seq<(Text, Text)> {
    match list {
        Some(all) => all.map_values(|p: (Text, Text)| (p.0, strip_starts(p.1, "=="@))),
        None => Seq::empty(),
    }
}

/// The text of an error of the given kind.
fn error_text(kind: &str, error: &str) -> (r: String)
    ensures
        r@ == kind@ + error@,
{
    let mut text = kind.to_owned();
    text.append(error);
    text
}

/// The packages in a `poetry.lock`, as pairs of name and version. `file` is
/// what the file holds, or what is wrong with that, or why it could not be
/// read.
pub fn parse_poetry_lock(file: Result<Result<PoetryLock, String>, String>) -> (r: Result<
    Vec<(String, String)>,
    String,
>)
    ensures
        match file {
            Ok(Ok(lock)) => r matches Ok(deps) && deps.deep_view() == poetry_packages(lock),
            Ok(Err(e)) => r matches Err(m) && m@ == "Parse error: "@ + e@,
            Err(e) => r matches Err(m) && m@ == "Read error: "@ + e@,
        },
{
    let lock = match file {
        Ok(Ok(lock)) => lock,
        Ok(Err(e)) => {
            return Err(error_text("Parse error: ", e.as_str()));
        },
        Err(e) => {
            return Err(error_text("Read error: ", e.as_str()));
        },
    };
    let mut deps: Vec<(String, String)> = Vec::new();
    assert(deps.deep_view() =~= Seq::empty());
    if let Some(all) = &lock.package {
        let ghost named = all@.map_values(|p: PoetryPkg| (p.name@, p.version@));
        let mut i: usize = 0;
        while i < all.len()
            invariant
                i <= all.len(),
                named == all@.map_values(|p: PoetryPkg| (p.name@, p.version@)),
                deps.deep_view() == named.take(i as int),
            decreases all.len() - i,
        {
            let ghost before = deps.deep_view();
            deps.push((all[i].name.clone(), all[i].version.clone()));
            proof {
                assert(deps.deep_view() =~= before.push(named[i as int]));
                assert(named.take(i + 1) =~= before.push(named[i as int]));
            }
            i = i + 1;
        }
        assert(named.take(all.len() as int) =~= named);
    }
    Ok(deps)
}

/// Adds the packages of a list in a `Pipfile.lock`.
fn add_pinned(deps: &mut Vec<(String, String)>, list: &Option<Vec<(String, PipPkg)>>)
    ensures
        final(deps).deep_view() == old(deps).deep_view() + pinned(list.deep_view()),
{
    let ghost before = deps.deep_view();
    if let Some(all) = list {
        let ghost shown = pinned(Some(all.deep_view()));
        assert(before + shown.take(0) =~= before);
        let mut i: usize = 0;
        while i < all.len()
            invariant
                i <= all.len(),
                shown == pinned(Some(all.deep_view())),
                deps.deep_view() == before + shown.take(i as int),
            decreases all.len() - i,
        {
            let ghost here = deps.deep_view();
            let version = trim_start_matches(all[i].1.version.as_str(), "==");
            deps.push((all[i].0.clone(), version.to_owned()));
            proof {
                assert(all.deep_view()[i as int] == all[i as int].deep_view());
                assert(deps.deep_view() =~= here.push(shown[i as int]));
                assert(before + shown.take(i + 1) =~= here.push(shown[i as int]));
            }
            i = i + 1;
        }
        assert(shown.take(all.len() as int) =~= shown);
    } else {
        assert(before + Seq::<(Text, Text)>::empty() =~= before);
    }
}

/// The packages in a `Pipfile.lock`, as pairs of name and version: those that
/// are needed always, then those for development. `file` is what the file
/// holds, or what is wrong with that, or why it could not be read.
pub fn parse_pipfile_lock(file: Result<Result<PipfileLock, String>, String>) -> (r: Result<
    Vec<(String, String)>,
    String,
>)
    ensures
        match file {
            Ok(Ok(lock)) => r matches Ok(deps) && deps.deep_view() == pinned(
                lock.default.deep_view(),
            ) + pinned(lock.develop.deep_view()),
            Ok(Err(e)) => r matches Err(m) && m@ == "Parse error: "@ + e@,
            Err(e) => r matches Err(m) && m@ == "Read error: "@ + e@,
        },
{
    let lock = match file {
        Ok(Ok(lock)) => lock,
        Ok(Err(e)) => {
            return Err(error_text("Parse error: ", e.as_str()));
        },
        Err(e) => {
            return Err(error_text("Read error: ", e.as_str()));
        },
    };
    let mut deps: Vec<(String, String)> = Vec::new();
    add_pinned(&mut deps, &lock.default);
    assert(deps.deep_view() =~= pinned(lock.default.deep_view()));
    add_pinned(&mut deps, &lock.develop);
    Ok(deps)
}

// ── Health scoring ───────────────────────────────────────────────────

/// The days from the upload of the first file of a release to `today`.
pub open spec fn pypi_release_age(urls: Seq<PyPIUrl>, today: i32) -> Option<i64> {
    if urls.len() == 0 {
        None
    } else {
        match urls[0].upload_time {
            Some(time) => age(strip_ends(time@, "Z"@), today),
            None => None,
        }
    }
}

/// The health of a package on the given day.
pub open spec fn pypi_health(urls: Seq<PyPIUrl>, gh: Option<GitHubView>, today: i32) -> Health {
    combined(pypi_release_age(urls, today), push_age(gh, today))
}

/// Why a package is not healthy on the given day.
pub open spec fn pypi_reason(
    urls: Seq<PyPIUrl>,
    gh: Option<GitHubView>,
    today: i32,
) -> Option<Text> {
    reason("No release on PyPI"@, pypi_release_age(urls, today), push_age(gh, today))
}

/// The days from the upload of the first file of a release to `today`.
fn days_since_release(urls: &[PyPIUrl], today: i32) -> (r: Option<i64>)
    ensures
        r == pypi_release_age(urls@, today),
{
    if urls.len() == 0 {
        return None;
    }
    match &urls[0].upload_time {
        Some(time) => days_since_on(trim_end_matches(time.as_str(), "Z"), today),
        None => None,
    }
}

/// The health of a package on the given day.
pub fn pypi_health_on(urls: &[PyPIUrl], gh: Option<&GitHubRepo>, today: i32) -> (r: Health)
    ensures
        r == pypi_health(urls@, gh.deep_view(), today),
{
    combine(days_since_release(urls, today), days_since_push(gh, today))
}

/// Why a package is not healthy on the given day.
pub fn pypi_stale_reason_on(
    urls: &[PyPIUrl],
    gh: Option<&GitHubRepo>,
    today: i32,
) -> (r: Option<String>)
    ensures
        r.deep_view() == pypi_reason(urls@, gh.deep_view(), today),
{
    why_stale("No release on PyPI", days_since_release(urls, today), days_since_push(gh, today))
}

/// The health of a PyPI package, as of today: by the upload of the first file
/// of its release, and where that is fresh by the last push to its
/// repository, if that is known.
pub fn get_pypi_health(
    _info: &PyPIInfo,
    urls: &[PyPIUrl],
    gh: Option<&GitHubRepo>,
) -> (r: &'static str)
    ensures
        exists|at: Moment|
            #[trigger] at.wf() && r@ == pypi_health(
                urls@,
                gh.deep_view(),
                at.day() as i32,
            ).emoji(),
{
    let at = now();
    pypi_health_on(urls, gh, at.today()).sign()
}

/// Stale reason for PyPI packages, as of today.
///
/// `None` when the package is fully healthy (both PyPI and GitHub are
/// active). The absence of a repository is not a health problem.
pub fn get_pypi_stale_reason(
    _info: &PyPIInfo,
    urls: &[PyPIUrl],
    gh: Option<&GitHubRepo>,
) -> (r: Option<String>)
    ensures
        exists|at: Moment|
            #[trigger] at.wf() && r.deep_view() == pypi_reason(
                urls@,
                gh.deep_view(),
                at.day() as i32,
            ),
{
    let at = now();
    pypi_stale_reason_on(urls, gh, at.today())
}

// ── PyPI API ─────────────────────────────────────────────────────────

/// Where PyPI is asked about a package.
pub fn pypi_url(name: &str) -> (r: String)
    ensures
        r@ == "https://pypi.org/pypi/"@ + name@ + "/json"@,
{
    let mut url = "https://pypi.org/pypi/".to_owned();
    url.append(name);
    url.append("/json");
    url
}

// ── One package ──────────────────────────────────────────────────────

/// The record of a dependency on the given day.
pub open spec fn pypi_record(s: PypiScan, today: i32) -> PackageView {
    match s.fetched {
        Ok(resp) => PackageView {
            name: s.name@,
            version: s.version@,
            health: pypi_health(resp.urls@, s.github.deep_view(), today).word(),
            description: resp.info.summary.deep_view(),
            latest_version: Some(resp.info.version@),
            stale_reason: pypi_reason(resp.urls@, s.github.deep_view(), today),
            vulns: s.vulns.deep_view(),
            provenance: None,
        },
        Err(e) => unknown_package(s.name@, s.version@, e@),
    }
}

/// The line of a dependency on the given day.
pub open spec fn pypi_line(opts: Options, s: PypiScan, resp: PyPIResponse, today: i32) -> Text {
    heading(pypi_health(resp.urls@, s.github.deep_view(), today), s.name@, s.version@) + " — "@
        + or_none_given(
        match resp.info.summary {
            Some(summary) => summary@,
            None => ""@,
        },
    ) + " (latest: "@ + resp.info.version@ + ")"@ + reason_note(
        opts,
        pypi_reason(resp.urls@, s.github.deep_view(), today),
    ) + alarm(s.vulns.deep_view())
}

/// What a dependency contributes to a scan on the given day.
pub open spec fn pypi_outcome(opts: Options, s: PypiScan, today: i32) -> OutcomeView {
    match s.fetched {
        Ok(resp) => found(
            opts,
            pypi_health(resp.urls@, s.github.deep_view(), today),
            counted_license(opts, resp.info.license.deep_view()),
            pypi_record(s, today),
            pypi_line(opts, s, resp, today),
        ),
        Err(e) => failed(opts, s.name@, s.version@, e@),
    }
}

/// The record of a dependency on the given day.
pub fn scan_single_on(s: &PypiScan, today: i32) -> (r: PackageResult)
    ensures
        r.deep_view() == pypi_record(*s, today),
{
    match &s.fetched {
        Ok(resp) => {
            let urls = resp.urls.as_slice();
            let health = pypi_health_on(urls, s.github.as_ref(), today);
            PackageResult {
                name: s.name.clone(),
                version: s.version.clone(),
                health: health.name().to_owned(),
                description: copy_text(&resp.info.summary),
                latest_version: Some(resp.info.version.clone()),
                stale_reason: pypi_stale_reason_on(urls, s.github.as_ref(), today),
                vulns: copy_vulns(&s.vulns),
                provenance: None,
            }
        },
        Err(e) => unknown_record(s.name.as_str(), s.version.as_str(), e.as_str()),
    }
}

/// The record of a single PyPI dependency, as of today.
pub fn scan_single(s: &PypiScan) -> (r: PackageResult)
    ensures
        exists|at: Moment| #[trigger] at.wf() && r.deep_view() == pypi_record(*s, at.day() as i32),
{
    let at = now();
    scan_single_on(s, at.today())
}

/// The line of a dependency on the given day.
fn line_on(opts: Options, s: &PypiScan, resp: &PyPIResponse, today: i32) -> (r: String)
    ensures
        r@ == pypi_line(opts, *s, *resp, today),
{
    let urls = resp.urls.as_slice();
    let health = pypi_health_on(urls, s.github.as_ref(), today);
    let mut line = heading_text(health, s.name.as_str(), s.version.as_str());
    line.append(" — ");
    let summary = match &resp.info.summary {
        Some(summary) => summary.clone(),
        None => "".to_owned(),
    };
    line.append(or_hint(summary).as_str());
    line.append(" (latest: ");
    line.append(resp.info.version.as_str());
    line.append(")");
    let reason = pypi_stale_reason_on(urls, s.github.as_ref(), today);
    line.append(reason_text(opts, &reason).as_str());
    line.append(alarm_text(&s.vulns).as_str());
    line
}

/// What a dependency contributes to a scan on the given day.
pub fn scan_package_on(opts: Options, s: &PypiScan, today: i32) -> (r: Outcome)
    ensures
        r.deep_view() == pypi_outcome(opts, *s, today),
{
    match &s.fetched {
        Ok(resp) => package_found(
            opts,
            pypi_health_on(resp.urls.as_slice(), s.github.as_ref(), today),
            track_license(opts, &resp.info.license),
            scan_single_on(s, today),
            line_on(opts, s, resp, today),
        ),
        Err(e) => fetch_failed(opts, s.name.as_str(), s.version.as_str(), e.as_str()),
    }
}

// ── Public entry point ───────────────────────────────────────────────

/// What the dependencies contribute to a scan on the given day, in order.
pub open spec fn pypi_outcomes(
    opts: Options,
    deps: Seq<PypiScan>,
    today: i32,
) -> Seq<OutcomeView> {
    deps.map_values(|s: PypiScan| pypi_outcome(opts, s, today))
}

/// What a scan of the given dependencies puts out on the given day.
pub fn scan_pypi_deps_on(opts: Options, deps: &Vec<PypiScan>, today: i32) -> (r: Report)
    ensures
        r.deep_view() == report_of(Ecosystem::Pypi, opts, pypi_outcomes(opts, deps@, today)),
{
    let mut all: Vec<Outcome> = Vec::new();
    let mut i: usize = 0;
    while i < deps.len()
        invariant
            i <= deps.len(),
            all.deep_view() == pypi_outcomes(opts, deps@.take(i as int), today),
        decreases deps.len() - i,
    {
        let ghost before = all.deep_view();
        all.push(scan_package_on(opts, &deps[i], today));
        assert(all.deep_view() =~= before.push(pypi_outcome(opts, deps[i as int], today)));
        assert(all.deep_view() =~= pypi_outcomes(opts, deps@.take(i + 1), today));
        i = i + 1;
    }
    assert(deps@.take(deps.len() as int) =~= deps@);
    report(Ecosystem::Pypi, opts, &all)
}

/// What a scan of the given dependencies puts out, as of today.
pub fn scan_pypi_deps(opts: Options, deps: &Vec<PypiScan>) -> (r: Report)
    ensures
        exists|at: Moment|
            #[trigger] at.wf() && r.deep_view() == report_of(
                Ecosystem::Pypi,
                opts,
                pypi_outcomes(opts, deps@, at.day() as i32),
            ),
{
    let at = now();
    scan_pypi_deps_on(opts, deps, at.today())
}

// ── Laws ─────────────────────────────────────────────────────────────

/// Of two scans for records of the same packages, as they were fetched, on the
/// same day, one of all and one of those worth a look: both report the same
/// summary, and the packages of the second are exactly those of the first
/// that are stale, inactive, dead or unknown or have vulnerabilities.
pub proof fn law_stale_narrows_the_packages(opts: Options, deps: Seq<PypiScan>, today: i32)
    requires
        opts.records(),
    ensures
        ({
            let all = pypi_outcomes(with_stale(opts, false), deps, today);
            let few = pypi_outcomes(with_stale(opts, true), deps, today);
            &&& tally(few) == tally(all)
            &&& records(all).len() == deps.len()
            &&& records(few) == only_worth_a_look(records(all))
        }),
{
    let all = pypi_outcomes(with_stale(opts, false), deps, today);
    let few = pypi_outcomes(with_stale(opts, true), deps, today);
    assert forall|i: int| 0 <= i < all.len() implies narrows(#[trigger] few[i], all[i]) by {
        let s = deps[i];
        match s.fetched {
            Ok(resp) => {
                law_found_narrows(
                    opts,
                    pypi_health(resp.urls@, s.github.deep_view(), today),
                    counted_license(opts, resp.info.license.deep_view()),
                    pypi_record(s, today),
                    pypi_line(with_stale(opts, true), s, resp, today),
                    pypi_line(with_stale(opts, false), s, resp, today),
                );
            },
            Err(e) => {},
        }
    }
    law_two_scans(Ecosystem::Pypi, opts, few, all);
}

/// Neither list of a `Pipfile.lock` names a package twice.
pub proof fn law_pinned_packages_are_distinct(lock: PipfileLock)
    requires
        lock.wf(),
    ensures
        unique(pinned(lock.default.deep_view())),
        unique(pinned(lock.develop.deep_view())),
{
    lemma_pinned_unique(lock.default.deep_view());
    lemma_pinned_unique(lock.develop.deep_view());
}

proof fn lemma_pinned_unique(list: Option<Seq<(Text, Text)>>)
    requires
        list matches Some(all) ==> unique(all),
    ensures
        unique(pinned(list)),
{
    if list is Some {
        let all = list->0;
        let out = pinned(list);
        assert forall|i: int, j: int| 0 <= i < j < out.len() implies out[i].0 != out[j].0 by {
            assert(all[i].0 != all[j].0);
        }
    }
}

} // verus!
