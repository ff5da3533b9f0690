//! Crates of crates.io, and the `Cargo.lock` that names them.

use crate::api::{github_repo, parse_github_repo, GitHubRepo, GitHubView};
use crate::clock::{age, days_since_on, now, Moment};
use crate::display::{downloads_text, fmt_downloads};
use crate::health::{
    combine, combined, days_since_push, first_reason, push_age, release_or_commit, silence,
    too_quiet,
};
use crate::render::{signed, signed_number};
use crate::report::{
    how_many, law_summary_adds_up, law_two_scans, lemma_small_counter, only_worth_a_look, records,
    report, report_of, tally, vulns_in_records, Ecosystem, OutputView, Report,
};
use crate::scan::{
    age_note, age_text, alarm, alarm_text, counted_license, failed, fetch_failed, first_sentence,
    found, heading, heading_text, law_found_narrows, narrows, opening, package_found, reason_note,
    reason_text, track_license, unknown_package, unknown_record, with_stale, Options, Outcome,
    OutcomeView,
};
use crate::text::{begins, starts_with, Text};
use crate::types::{copy_text, copy_vulns, Health, PackageResult, PackageView, ScanView, VulnInfo};
use vstd::prelude::*;

verus! {

// ── Structs ──────────────────────────────────────────────────────────

/// A `Cargo.lock`.
#[derive(Debug)]
pub struct CargoLock {
    pub version: u32,
    pub package: Vec<LockPackage>,
}

/// A package in a `Cargo.lock`.
#[derive(Debug)]
pub struct LockPackage {
    pub name: String,
    pub version: String,
    pub source: Option<String>,
}

/// What a `LockPackage` holds.
pub struct LockPackageView {
    pub name: Text,
    pub version: Text,
    pub source: Option<Text>,
}

impl DeepView for LockPackage {
    type V = LockPackageView;

    open spec fn deep_view(&self) -> LockPackageView {
        LockPackageView {
            name: self.name@,
            version: self.version@,
            source: self.source.deep_view(),
        }
    }
}

/// What crates.io answers to the query for a crate.
#[derive(Debug)]
pub struct CrateResponse {
    pub crate_data: CrateData,
}

/// What crates.io knows of a crate.
#[derive(Debug)]
pub struct CrateData {
    pub name: String,
    pub max_stable_version: String,
    pub updated_at: String,
    pub downloads: u64,
    pub recent_downloads: Option<u64>,
    pub repository: Option<String>,
    pub description: Option<String>,
    pub license: Option<String>,
}

/// A dependency with all that was fetched for it: what crates.io knows, or
/// why it could not be asked, the repository on GitHub, and the known
/// vulnerabilities.
#[derive(Debug)]
pub struct CrateScan {
    pub name: String,
    pub version: String,
    pub fetched: Result<CrateResponse, String>,
    pub github: Option<GitHubRepo>,
    pub vulns: Vec<VulnInfo>,
}

// ── Health scoring ───────────────────────────────────────────────────

/// The health of a crate on the given day.
pub open spec fn crate_health(data: CrateData, gh: Option<GitHubView>, today: i32) -> Health {
    combined(age(data.updated_at@, today), push_age(gh, today))
}

/// What is said of a crate that was last released `days` days ago: nothing up
/// to 180 of them, and up to 365 only how many they are.
pub open spec fn release_silence(days: int) -> Option<Text> {
    if 180 < days <= 365 {
        Some("No release on crates.io"@ + " in "@ + signed(days) + " days"@)
    } else {
        silence("No release on crates.io"@, days)
    }
}

/// Why a crate is not healthy on the given day.
pub open spec fn crate_reason(
    data: CrateData,
    gh: Option<GitHubView>,
    today: i32,
) -> Option<Text> {
    release_or_commit(
        match age(data.updated_at@, today) {
            Some(d) => release_silence(d as int),
            None => None,
        },
        push_age(gh, today),
    )
}

/// The health of a crate on the given day.
pub fn crate_health_on(data: &CrateData, gh: Option<&GitHubRepo>, today: i32) -> (r: Health)
    ensures
        r == crate_health(*data, gh.deep_view(), today),
{
    combine(days_since_on(data.updated_at.as_str(), today), days_since_push(gh, today))
}

/// What is said of a crate that was last released `days` days ago.
fn release_quiet(days: i64) -> (r: Option<String>)
    ensures
        r.deep_view() == release_silence(days as int),
{
    if 180 < days && days <= 365 {
        let mut text = "No release on crates.io".to_owned();
        text.append(" in ");
        text.append(signed_number(days).as_str());
        text.append(" days");
        Some(text)
    } else {
        too_quiet("No release on crates.io", days)
    }
}

/// Why a crate is not healthy on the given day.
pub fn crate_stale_reason_on(
    data: &CrateData,
    gh: Option<&GitHubRepo>,
    today: i32,
) -> (r: Option<String>)
    ensures
        r.deep_view() == crate_reason(*data, gh.deep_view(), today),
{
    let of_release = match days_since_on(data.updated_at.as_str(), today) {
        Some(d) => release_quiet(d),
        None => None,
    };
    first_reason(of_release, days_since_push(gh, today))
}

/// Health scoring for crates.io packages, as of today.
///
/// Strategy:
/// 1. Check crates.io `updated_at`: if stale (⚠️/🔴/🪦), that is the health.
/// 2. If crates.io says ✅ (fresh), also check GitHub `pushed_at` for a finer-
///    grained score. A crate may have a recent release but an abandoned repo.
/// 3. `gh` is what is known of the repository; with `None` crates.io decides
///    alone.
pub fn get_crate_health(data: &CrateData, gh: Option<&GitHubRepo>) -> (r: &'static str)
    ensures
        exists|at: Moment|
            #[trigger] at.wf() && r@ == crate_health(
                *data,
                gh.deep_view(),
                at.day() as i32,
            ).emoji(),
{
    let at = now();
    crate_health_on(data, gh, at.today()).sign()
}

/// Stale reason for crates.io packages, as of today.
///
/// `None` when the package is fully healthy (both registry and GitHub are
/// active). The absence of a repository is not a health problem.
pub fn get_crate_stale_reason(data: &CrateData, gh: Option<&GitHubRepo>) -> (r: Option<String>)
    ensures
        exists|at: Moment|
            #[trigger] at.wf() && r.deep_view() == crate_reason(
                *data,
                gh.deep_view(),
                at.day() as i32,
            ),
{
    let at = now();
    crate_stale_reason_on(data, gh, at.today())
}

// ── Crates.io API ────────────────────────────────────────────────────

/// Where crates.io is asked about a crate.
pub fn crate_url(name: &str) -> (r: String)
    ensures
        r@ == "https://crates.io/api/v1/crates/"@ + name@,
{
    let mut url = "https://crates.io/api/v1/crates/".to_owned();
    url.append(name);
    url
}

/// The repository on GitHub that a crate names.
pub open spec fn crate_repository(data: CrateData) -> Option<(Text, Text)> {
    match data.repository {
        Some(url) => github_repo(url@),
        None => None,
    }
}

/// The repository on GitHub that a crate names.
pub fn repository_of(data: &CrateData) -> (r: Option<(String, String)>)
    ensures
        r.deep_view() == crate_repository(*data),
{
    match &data.repository {
        Some(url) => parse_github_repo(url.as_str()),
        None => None,
    }
}

// ── Public parser ────────────────────────────────────────────────────

/// A package that comes from a registry.
pub open spec fn from_registry(p: LockPackageView) -> bool {
    p.source matches Some(s) && begins(s, "registry+"@)
}

/// The packages that come from a registry, each with its version, in order.
pub open spec fn registry_packages(all: Seq<LockPackageView>) -> Seq<(Text, Text)>
    decreases all.len(),
{
    if all.len() == 0 {
        Seq::empty()
    } else {
        let rest = registry_packages(all.drop_last());
        if from_registry(all.last()) {
            rest.push((all.last().name, all.last().version))
        } else {
            rest
        }
    }
}

/// The registry dependencies in a `Cargo.lock`, as pairs of name and
/// version, in order; packages from other sources (git, path) are skipped.
/// `lock` is what the file holds, or what is wrong with it.
pub fn parse_cargo_lock(lock: Result<CargoLock, String>) -> (r: Result<
    Vec<(String, String)>,
    String,
>)
    ensures
        match lock {
            Ok(l) => r matches Ok(deps) && deps.deep_view() == registry_packages(
                l.package.deep_view(),
            ),
            Err(e) => r matches Err(m) && m@ == "Failed to parse Cargo.lock: "@ + e@,
        },
{
    let lock = match lock {
        Ok(l) => l,
        Err(e) => {
            let mut text = "Failed to parse Cargo.lock: ".to_owned();
            text.append(e.as_str());
            return Err(text);
        },
    };
    let mut deps: Vec<(String, String)> = Vec::new();
    let mut i: usize = 0;
    let ghost all = lock.package.deep_view();
    assert(all.take(0) =~= Seq::empty());
    assert(deps.deep_view() =~= Seq::empty());
    while i < lock.package.len()
        invariant
            i <= lock.package.len(),
            all == lock.package.deep_view(),
            deps.deep_view() == registry_packages(all.take(i as int)),
        decreases lock.package.len() - i,
    {
        let p = &lock.package[i];
        proof {
            assert(all.take(i + 1).drop_last() =~= all.take(i as int));
            assert(all.take(i + 1).last() == p.deep_view());
        }
        if let Some(source) = &p.source {
            if starts_with(source.as_str(), "registry+") {
                let ghost before = deps.deep_view();
                deps.push((p.name.clone(), p.version.clone()));
                assert(deps.deep_view() =~= before.push((p.name@, p.version@)));
            }
        }
        i = i + 1;
    }
    assert(all.take(lock.package.len() as int) =~= all);
    Ok(deps)
}

// ── One crate ────────────────────────────────────────────────────────

/// The record of a dependency on the given day.
pub open spec fn crate_record(s: CrateScan, today: i32) -> PackageView {
    match s.fetched {
        Ok(resp) => PackageView {
            name: s.name@,
            version: s.version@,
            health: crate_health(resp.crate_data, s.github.deep_view(), today).word(),
            description: resp.crate_data.description.deep_view(),
            latest_version: Some(resp.crate_data.max_stable_version@),
            stale_reason: crate_reason(resp.crate_data, s.github.deep_view(), today),
            vulns: s.vulns.deep_view(),
            provenance: None,
        },
        Err(e) => unknown_package(s.name@, s.version@, e@),
    }
}

/// Whether the reason alone says how long ago the last release was: it is
/// shown, and it speaks of a release of 181 to 365 days ago.
pub open spec fn reason_says_when(opts: Options, release: Option<i64>) -> bool {
    opts.stale_only && (release matches Some(d) && 180 < d <= 365)
}

/// The line of a dependency on the given day.
pub open spec fn crate_line(opts: Options, s: CrateScan, data: CrateData, today: i32) -> Text {
    let release = age(data.updated_at@, today);
    let commit = push_age(s.github.deep_view(), today);
    let health = combined(release, commit);
    heading(health, s.name@, s.version@) + " — "@ + first_sentence(
        data.description.deep_view(),
        "no description"@,
    ) + ", downloads: "@ + downloads_text(data.downloads as nat) + reason_note(
        opts,
        crate_reason(data, s.github.deep_view(), today),
    ) + alarm(s.vulns.deep_view()) + (if reason_says_when(opts, release) {
        ""@
    } else {
        age_note(health, release, commit)
    })
}

/// What a dependency contributes to a scan on the given day.
pub open spec fn crate_outcome(opts: Options, s: CrateScan, today: i32) -> OutcomeView {
    match s.fetched {
        Ok(resp) => found(
            opts,
            crate_health(resp.crate_data, s.github.deep_view(), today),
            counted_license(opts, resp.crate_data.license.deep_view()),
            crate_record(s, today),
            crate_line(opts, s, resp.crate_data, today),
        ),
        Err(e) => failed(opts, s.name@, s.version@, e@),
    }
}

/// The record of a dependency on the given day.
pub fn scan_single_on(s: &CrateScan, today: i32) -> (r: PackageResult)
    ensures
        r.deep_view() == crate_record(*s, today),
{
    match &s.fetched {
        Ok(resp) => {
            let data = &resp.crate_data;
            let health = crate_health_on(data, s.github.as_ref(), today);
            PackageResult {
                name: s.name.clone(),
                version: s.version.clone(),
                health: health.name().to_owned(),
                description: copy_text(&data.description),
                latest_version: Some(data.max_stable_version.clone()),
                stale_reason: crate_stale_reason_on(data, s.github.as_ref(), today),
                vulns: copy_vulns(&s.vulns),
                provenance: None,
            }
        },
        Err(e) => unknown_record(s.name.as_str(), s.version.as_str(), e.as_str()),
    }
}

/// The record of a single crate dependency, as of today.
pub fn scan_single(s: &CrateScan) -> (r: PackageResult)
    ensures
        exists|at: Moment|
            #[trigger] at.wf() && r.deep_view() == crate_record(*s, at.day() as i32),
{
    let at = now();
    scan_single_on(s, at.today())
}

/// The line of a dependency on the given day.
fn line_on(opts: Options, s: &CrateScan, data: &CrateData, today: i32) -> (r: String)
    ensures
        r@ == crate_line(opts, *s, *data, today),
{
    let release = days_since_on(data.updated_at.as_str(), today);
    let commit = days_since_push(s.github.as_ref(), today);
    let health = combine(release, commit);
    let mut line = heading_text(health, s.name.as_str(), s.version.as_str());
    line.append(" — ");
    line.append(opening(&data.description, "no description").as_str());
    line.append(", downloads: ");
    line.append(fmt_downloads(data.downloads).as_str());
    let reason = crate_stale_reason_on(data, s.github.as_ref(), today);
    line.append(reason_text(opts, &reason).as_str());
    line.append(alarm_text(&s.vulns).as_str());
    let said = match release {
        Some(d) => opts.stale_only && 180 < d && d <= 365,
        None => false,
    };
    if !said {
        line.append(age_text(health, release, commit).as_str());
    } else {
        proof {
            reveal_strlit("");
            assert(line@ + ""@ =~= line@);
        }
    }
    line
}

/// What a dependency contributes to a scan on the given day.
pub fn scan_crate_on(opts: Options, s: &CrateScan, today: i32) -> (r: Outcome)
    ensures
        r.deep_view() == crate_outcome(opts, *s, today),
{
    match &s.fetched {
        Ok(resp) => {
            let data = &resp.crate_data;
            package_found(
                opts,
                crate_health_on(data, s.github.as_ref(), today),
                track_license(opts, &data.license),
                scan_single_on(s, today),
                line_on(opts, s, data, today),
            )
        },
        Err(e) => fetch_failed(opts, s.name.as_str(), s.version.as_str(), e.as_str()),
    }
}

// ── Public entry point ───────────────────────────────────────────────

/// What the dependencies contribute to a scan on the given day, in order.
pub open spec fn crate_outcomes(
    opts: Options,
    deps: Seq<CrateScan>,
    today: i32,
) -> Seq<OutcomeView> {
    deps.map_values(|s: CrateScan| crate_outcome(opts, s, today))
}

/// What a scan of the given dependencies puts out on the given day.
pub fn scan_cargo_deps_on(opts: Options, deps: &Vec<CrateScan>, today: i32) -> (r: Report)
    ensures
        r.deep_view() == report_of(Ecosystem::Cargo, opts, crate_outcomes(opts, deps@, today)),
{
    let mut all: Vec<Outcome> = Vec::new();
    let mut i: usize = 0;
    while i < deps.len()
        invariant
            i <= deps.len(),
            all.deep_view() == crate_outcomes(opts, deps@.take(i as int), today),
        decreases deps.len() - i,
    {
        let ghost before = all.deep_view();
        all.push(scan_crate_on(opts, &deps[i], today));
        assert(all.deep_view() =~= before.push(crate_outcome(opts, deps[i as int], today)));
        assert(all.deep_view() =~= crate_outcomes(opts, deps@.take(i + 1), today));
        i = i + 1;
    }
    assert(deps@.take(deps.len() as int) =~= deps@);
    report(Ecosystem::Cargo, opts, &all)
}

/// What a scan of the given dependencies puts out, as of today.
pub fn scan_cargo_deps(opts: Options, deps: &Vec<CrateScan>) -> (r: Report)
    ensures
        exists|at: Moment|
            #[trigger] at.wf() && r.deep_view() == report_of(
                Ecosystem::Cargo,
                opts,
                crate_outcomes(opts, deps@, at.day() as i32),
            ),
{
    let at = now();
    scan_cargo_deps_on(opts, deps, at.today())
}

// ── Laws ─────────────────────────────────────────────────────────────

/// A dependency is exactly what some package from a registry names.
pub proof fn law_only_registry_packages(all: Seq<LockPackageView>, dep: (Text, Text))
    ensures
        registry_packages(all).contains(dep) <==> exists|i: int|
            0 <= i < all.len() && from_registry(#[trigger] all[i]) && (all[i].name, all[i].version)
                == dep,
    decreases all.len(),
{
    if all.len() > 0 {
        let init = all.drop_last();
        let n = all.len() - 1;
        law_only_registry_packages(init, dep);
        let here = registry_packages(all);
        let rest = registry_packages(init);
        assert(all[n] == all.last());
        if here.contains(dep) {
            let k = choose|k: int| 0 <= k < here.len() && here[k] == dep;
            if k < rest.len() {
                assert(rest[k] == dep);
                let i = choose|i: int|
                    0 <= i < init.len() && from_registry(#[trigger] init[i]) && (
                        init[i].name,
                        init[i].version,
                    ) == dep;
                assert(all[i] == init[i]);
            }
        }
        if exists|i: int|
            0 <= i < all.len() && from_registry(#[trigger] all[i]) && (all[i].name, all[i].version)
                == dep {
            let i = choose|i: int|
                0 <= i < all.len() && from_registry(#[trigger] all[i]) && (
                    all[i].name,
                    all[i].version,
                ) == dep;
            if i < n {
                assert(init[i] == all[i]);
                let k = choose|k: int| 0 <= k < rest.len() && rest[k] == dep;
                assert(here[k] == dep);
            } else {
                assert(here[here.len() - 1] == dep);
            }
        }
    }
}

/// Where the date of the release is known, a reason is given exactly for a
/// crate that is not healthy.
pub proof fn law_crate_reason_iff_not_healthy(
    data: CrateData,
    gh: Option<GitHubView>,
    today: i32,
)
    requires
        age(data.updated_at@, today) is Some,
    ensures
        crate_reason(data, gh, today) is Some <==> crate_health(data, gh, today)
            != Health::Healthy,
{
}

proof fn lemma_no_crate_is_hijacked(opts: Options, deps: Seq<CrateScan>, today: i32)
    ensures
        how_many(crate_outcomes(opts, deps, today), Health::Hijack) == 0,
    decreases deps.len(),
{
    if deps.len() > 0 {
        lemma_no_crate_is_hijacked(opts, deps.drop_last(), today);
        assert(crate_outcomes(opts, deps, today).drop_last() =~= crate_outcomes(
            opts,
            deps.drop_last(),
            today,
        ));
    }
}

/// Of two scans for records of the same crates, as they were fetched, on the
/// same day, one of all and one of those worth a look: both report the same
/// summary, without hijacks, and the packages of the second are exactly those
/// of the first that are stale, inactive, dead or unknown or have
/// vulnerabilities. The first reports every crate. The counts add up to the
/// number of crates, and the vulnerabilities to those of the packages, as long
/// as the counters, of 32 bits, do not start again from 0.
pub proof fn law_stale_narrows_the_packages(opts: Options, deps: Seq<CrateScan>, today: i32)
    requires
        opts.records(),
    ensures
        ({
            let all = crate_outcomes(with_stale(opts, false), deps, today);
            let few = crate_outcomes(with_stale(opts, true), deps, today);
            let a = report_of(Ecosystem::Cargo, with_stale(opts, false), all);
            let b = report_of(Ecosystem::Cargo, with_stale(opts, true), few);
            let s = tally(all);
            &&& tally(few) == s
            &&& records(all).len() == deps.len()
            &&& records(few) == only_worth_a_look(records(all))
            &&& s.hijack == 0
            &&& deps.len() < 0x1_0000_0000 ==> s.healthy + s.warning + s.inactive + s.dead
                + s.unknown == deps.len()
            &&& vulns_in_records(records(all)) < 0x1_0000_0000 ==> s.cves == vulns_in_records(
                records(all),
            )
            &&& a.exit_code == b.exit_code
            &&& opts.output_json && !opts.sbom ==> a.output == OutputView::Json(
                ScanView { ecosystem: "cargo"@, packages: records(all), summary: s },
            ) && b.output == OutputView::Json(
                ScanView {
                    ecosystem: "cargo"@,
                    packages: only_worth_a_look(records(all)),
                    summary: s,
                },
            )
        }),
{
    let all = crate_outcomes(with_stale(opts, false), deps, today);
    let few = crate_outcomes(with_stale(opts, true), deps, today);
    assert forall|i: int| 0 <= i < all.len() implies narrows(#[trigger] few[i], all[i]) by {
        let s = deps[i];
        match s.fetched {
            Ok(resp) => {
                law_found_narrows(
                    opts,
                    crate_health(resp.crate_data, s.github.deep_view(), today),
                    counted_license(opts, resp.crate_data.license.deep_view()),
                    crate_record(s, today),
                    crate_line(with_stale(opts, true), s, resp.crate_data, today),
                    crate_line(with_stale(opts, false), s, resp.crate_data, today),
                );
            },
            Err(e) => {},
        }
    }
    law_two_scans(Ecosystem::Cargo, opts, few, all);
    lemma_no_crate_is_hijacked(with_stale(opts, false), deps, today);
    lemma_small_counter(0);
    if deps.len() < 0x1_0000_0000 {
        law_summary_adds_up(all);
    }
    if vulns_in_records(records(all)) < 0x1_0000_0000 {
        lemma_small_counter(vulns_in_records(records(all)));
    }
}

} // verus!
