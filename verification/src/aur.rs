//! Packages of the AUR.

use crate::api::{
    answer, answer_by_ref, github_repo, parse_github_repo, repository_had, AurPackage, AurResponse,
    GitHubRepo, GitHubView,
};
use crate::clock::{
    age, date_and_minute, days_since_on, days_since_unix_at, now, utc_text, whole_days, Moment,
    LAST_SECOND,
};
use crate::display::{color_of, health_color, BOLD, GRAY, GREEN, RED, RESET, YELLOW};
use crate::health::{days_since_push, push_age, silence, too_quiet};
use crate::render::{add_line, add_lines, decimal, number, signed, signed_number};
use crate::report::{
    law_two_scans, only_worth_a_look, records, report, report_of, tally, Ecosystem, Report,
};
use crate::scan::{
    found, law_found_narrows, law_missing_narrows, missing, narrows, package_found,
    package_missing, reason_note, reason_text, unknown_package, unknown_record, with_stale,
    Options, Outcome, OutcomeView,
};
use crate::text::{byte_prefix, get_prefix, pieces, split, split_whitespace, words, Text};
use crate::types::{
    copy_text, grade, lemma_signs, score, Health, PackageResult, PackageView, ScanOutput, ScanView,
    Summary, VulnInfo,
};
use vstd::prelude::*;

verus! {

// ── Health ───────────────────────────────────────────────────────────

/// The repository on GitHub that a package names as its upstream.
pub open spec fn upstream(pkg: AurPackage) -> Option<(Text, Text)> {
    match pkg.url {
        Some(url) => github_repo(url@),
        None => None,
    }
}

/// A package that nobody maintains.
pub open spec fn orphaned(pkg: AurPackage) -> bool {
    pkg.maintainer.deep_view() == None::<Text> || pkg.maintainer.deep_view() == Some(""@)
}

/// The risk that a package was taken over: it was changed in the last 90 days
/// though nobody maintains it and few use it.
pub open spec fn takeover(pkg: AurPackage, at: Moment) -> bool {
    whole_days(at, pkg.lastmodified) < 90 && orphaned(pkg) && pkg.popularity.low
}

/// The health of a package at the given moment: a warning if it is marked as
/// out of date, the risk of a hijack, else by the last push to its
/// repository, else by its own last change.
pub open spec fn aur_health(pkg: AurPackage, gh: Option<GitHubView>, at: Moment) -> Health {
    if pkg.outofdate is Some {
        Health::Warning
    } else if takeover(pkg, at) {
        Health::Hijack
    } else {
        match push_age(gh, at.day() as i32) {
            Some(days) => score(days as int),
            None => score(whole_days(at, pkg.lastmodified)),
        }
    }
}

/// What is said of the time since the last change of a package itself.
pub open spec fn own_silence(pkg: AurPackage, at: Moment) -> Option<Text> {
    silence("PKGBUILD not updated"@, whole_days(at, pkg.lastmodified))
}

/// Two reasons, one below the other.
pub open spec fn both(first: Text, second: Option<Text>) -> Text {
    match second {
        Some(s) => first + "\n      "@ + s,
        None => first,
    }
}

/// Why a package is in its health at the given moment. Where the repository
/// says nothing, the reason for that comes first, and the time since the last
/// change of the package itself second.
pub open spec fn aur_reason(
    pkg: AurPackage,
    gh: Option<Result<GitHubView, Text>>,
    at: Moment,
) -> Option<Text> {
    if pkg.outofdate is Some {
        Some("Marked out-of-date on AUR"@)
    } else if takeover(pkg, at) {
        Some("Hijack risk — recently updated but orphaned with low popularity"@)
    } else {
        match gh {
            Some(Ok(repo)) => match age(repo.pushed_at, at.day() as i32) {
                Some(days) => silence("No GitHub activity"@, days as int),
                None => own_silence(pkg, at),
            },
            Some(Err(e)) => Some(both("GitHub fetch failed: "@ + e, own_silence(pkg, at))),
            None => if pkg.url is Some {
                Some(both("Not a GitHub repository"@, own_silence(pkg, at)))
            } else {
                Some(both("No upstream URL"@, own_silence(pkg, at)))
            },
        }
    }
}

/// The repository on GitHub that a package names as its upstream.
pub fn upstream_of(pkg: &AurPackage) -> (r: Option<(String, String)>)
    ensures
        r.deep_view() == upstream(*pkg),
{
    match &pkg.url {
        Some(url) => parse_github_repo(url.as_str()),
        None => None,
    }
}

/// Whether nobody maintains a package.
pub fn is_orphaned(pkg: &AurPackage) -> (r: bool)
    ensures
        r == orphaned(*pkg),
{
    match &pkg.maintainer {
        Some(m) => {
            let empty = m.as_str().is_empty();
            proof {
                reveal_strlit("");
                assert(empty == (m@ =~= ""@));
            }
            empty
        },
        None => true,
    }
}

/// The risk that a package was taken over.
fn may_be_taken_over(pkg: &AurPackage, at: Moment) -> (r: bool)
    requires
        at.wf(),
    ensures
        r == takeover(*pkg, at),
{
    days_since_unix_at(at, pkg.lastmodified) < 90 && is_orphaned(pkg) && pkg.popularity.low
}

/// The health of a package at the given moment.
pub fn health_at(pkg: &AurPackage, gh: Option<&GitHubRepo>, at: Moment) -> (r: Health)
    requires
        at.wf(),
    ensures
        r == aur_health(*pkg, gh.deep_view(), at),
{
    if pkg.outofdate.is_some() {
        return Health::Warning;
    }
    if may_be_taken_over(pkg, at) {
        return Health::Hijack;
    }
    match days_since_push(gh, at.today()) {
        Some(days) => grade(days),
        None => grade(days_since_unix_at(at, pkg.lastmodified)),
    }
}

/// Two reasons, one below the other.
fn one_below_other(first: String, second: Option<String>) -> (r: String)
    ensures
        r@ == both(first@, second.deep_view()),
{
    match second {
        Some(s) => {
            let mut text = first;
            text.append("\n      ");
            text.append(s.as_str());
            text
        },
        None => first,
    }
}

/// Why a package is in its health at the given moment. `gh` is the
/// repository, or why it could not be had, for a package that names one.
pub fn stale_reason_at(
    pkg: &AurPackage,
    gh: Option<Result<&GitHubRepo, &str>>,
    at: Moment,
) -> (r: Option<String>)
    requires
        at.wf(),
    ensures
        r.deep_view() == aur_reason(*pkg, answer_by_ref(gh), at),
{
    if pkg.outofdate.is_some() {
        return Some("Marked out-of-date on AUR".to_owned());
    }
    if may_be_taken_over(pkg, at) {
        return Some("Hijack risk — recently updated but orphaned with low popularity".to_owned());
    }
    let own = too_quiet("PKGBUILD not updated", days_since_unix_at(at, pkg.lastmodified));
    match gh {
        Some(Ok(repo)) => match days_since_on(repo.pushed_at.as_str(), at.today()) {
            Some(days) => too_quiet("No GitHub activity", days),
            None => own,
        },
        Some(Err(e)) => {
            let mut first = "GitHub fetch failed: ".to_owned();
            first.append(e);
            Some(one_below_other(first, own))
        },
        None => if pkg.url.is_some() {
            Some(one_below_other("Not a GitHub repository".to_owned(), own))
        } else {
            Some(one_below_other("No upstream URL".to_owned(), own))
        },
    }
}

/// The health of a package now. `gh` is its repository on GitHub, where it
/// names one that could be had.
pub fn get_health(pkg: &AurPackage, gh: Option<&GitHubRepo>) -> (r: &'static str)
    ensures
        exists|at: Moment| #[trigger]
            at.wf() && r@ == aur_health(*pkg, gh.deep_view(), at).emoji(),
{
    let at = now();
    health_at(pkg, gh, at).sign()
}

/// Why a package is in its health now. `gh` is the repository, or why it
/// could not be had, for a package that names one.
pub fn get_stale_reason(
    pkg: &AurPackage,
    gh: Option<Result<&GitHubRepo, &str>>,
) -> (r: Option<String>)
    ensures
        exists|at: Moment| #[trigger]
            at.wf() && r.deep_view() == aur_reason(*pkg, answer_by_ref(gh), at),
{
    let at = now();
    stale_reason_at(pkg, gh, at)
}

// ── Scan installed AUR packages ──────────────────────────────────────

/// The names in what `pacman -Qm` prints: the first word of each line.
pub open spec fn first_words(lines: Seq<Text>) -> Seq<Text>
    decreases lines.len(),
{
    if lines.len() == 0 {
        Seq::empty()
    } else {
        let rest = first_words(lines.drop_last());
        let here = words(lines.last());
        if here.len() > 0 {
            rest.push(here[0])
        } else {
            rest
        }
    }
}

/// The names in what `pacman -Qm` prints: the first word of each line.
pub fn installed_packages(stdout: &str) -> (r: Vec<String>)
    ensures
        r.deep_view() == first_words(pieces(stdout@, "\n"@)),
{
    proof {
        reveal_strlit("\n");
    }
    let lines = split(stdout, "\n");
    let mut out: Vec<String> = Vec::new();
    let mut i: usize = 0;
    let ghost all = lines.deep_view();
    assert(all.take(0) =~= Seq::empty());
    assert(out.deep_view() =~= Seq::empty());
    while i < lines.len()
        invariant
            i <= lines.len(),
            all == lines.deep_view(),
            out.deep_view() == first_words(all.take(i as int)),
        decreases lines.len() - i,
    {
        proof {
            assert(all.take(i + 1).drop_last() =~= all.take(i as int));
            assert(all.take(i + 1).last() == lines[i as int]@);
        }
        let here = split_whitespace(lines[i].as_str());
        if here.len() > 0 {
            assert(here.deep_view()[0] == here[0]@);
            add_line(&mut out, here[0].clone());
        }
        i = i + 1;
    }
    assert(all.take(lines.len() as int) =~= all);
    out
}

/// An installed package with all that was fetched for it: what the AUR
/// answered, nothing where it could not be asked, and the repository, or why
/// it could not be had, for a package that names one.
#[derive(Debug)]
pub struct AurScan {
    pub name: String,
    pub fetched: Option<AurResponse>,
    pub github: Option<Result<GitHubRepo, String>>,
}

impl AurResponse {
    /// An answer that counts packages holds one.
    pub open spec fn wf(self) -> bool {
        self.resultcount > 0 ==> self.results@.len() > 0
    }
}

impl AurScan {
    /// The answer is as it should be.
    pub open spec fn wf(self) -> bool {
        self.fetched matches Some(resp) ==> resp.wf()
    }

    /// The package that the AUR knows under the name, where there is one.
    pub open spec fn package(self) -> Option<AurPackage> {
        match self.fetched {
            Some(resp) => if resp.resultcount > 0 {
                Some(resp.results@[0])
            } else {
                None
            },
            None => None,
        }
    }
}

/// The maintainer of a package, as shown.
pub open spec fn maintainer_text(pkg: AurPackage) -> Text {
    if orphaned(pkg) {
        RED@ + BOLD@ + "[ORPHANED]"@ + RESET@
    } else {
        pkg.maintainer->0@
    }
}

/// The record of a package of the AUR.
pub open spec fn aur_record(pkg: AurPackage, health: Health, reason: Option<Text>) -> PackageView {
    PackageView {
        name: pkg.name@,
        version: pkg.version@,
        health: health.word(),
        description: pkg.description.deep_view(),
        latest_version: None,
        stale_reason: reason,
        vulns: Seq::empty(),
        provenance: None,
    }
}

/// The line of an installed package.
pub open spec fn aur_line(
    opts: Options,
    pkg: AurPackage,
    health: Health,
    reason: Option<Text>,
) -> Text {
    color_of(health) + health.emoji() + RESET@ + " "@ + pkg.name@ + " — maintainer: "@
        + maintainer_text(pkg) + ", popularity: "@ + pkg.popularity.tenths@ + reason_note(
        opts,
        reason,
    )
}

/// What an installed package contributes to a scan at the given moment.
pub open spec fn aur_outcome(opts: Options, s: AurScan, at: Moment) -> OutcomeView {
    match s.package() {
        Some(pkg) => {
            let health = aur_health(pkg, repository_had(answer(s.github)), at);
            let reason = aur_reason(pkg, answer(s.github), at);
            found(
                opts,
                health,
                None,
                aur_record(pkg, health, reason),
                aur_line(opts, pkg, health, reason),
            )
        },
        None => missing(
            opts,
            unknown_package(s.name@, "?"@, "AUR API fetch failed"@),
            GRAY@ + "❓ "@ + s.name@ + " — "@ + GRAY@ + "fetch failed"@ + RESET@,
        ),
    }
}

/// The maintainer of a package, as shown.
fn maintainer_of(pkg: &AurPackage) -> (r: String)
    ensures
        r@ == maintainer_text(*pkg),
{
    if !is_orphaned(pkg) {
        if let Some(m) = &pkg.maintainer {
            return m.clone();
        }
    }
    let mut text = RED.to_owned();
    text.append(BOLD);
    text.append("[ORPHANED]");
    text.append(RESET);
    text
}

/// The record of a package of the AUR.
fn record_of(pkg: &AurPackage, health: Health, reason: &Option<String>) -> (r: PackageResult)
    ensures
        r.deep_view() == aur_record(*pkg, health, reason.deep_view()),
{
    let vulns: Vec<VulnInfo> = Vec::new();
    assert(vulns.deep_view() =~= Seq::empty());
    PackageResult {
        name: pkg.name.clone(),
        version: pkg.version.clone(),
        health: health.name().to_owned(),
        description: copy_text(&pkg.description),
        latest_version: None,
        stale_reason: copy_text(reason),
        vulns,
        provenance: None,
    }
}

/// The line of an installed package.
fn line_of(opts: Options, pkg: &AurPackage, health: Health, reason: &Option<String>) -> (r: String)
    ensures
        r@ == aur_line(opts, *pkg, health, reason.deep_view()),
{
    proof {
        lemma_signs(health);
    }
    let mut line = health_color(health.sign()).to_owned();
    line.append(health.sign());
    line.append(RESET);
    line.append(" ");
    line.append(pkg.name.as_str());
    line.append(" — maintainer: ");
    line.append(maintainer_of(pkg).as_str());
    line.append(", popularity: ");
    line.append(pkg.popularity.tenths.as_str());
    line.append(reason_text(opts, reason).as_str());
    line
}

/// The repository, where it could be had.
fn had(gh: &Option<Result<GitHubRepo, String>>) -> (r: Option<&GitHubRepo>)
    ensures
        r.deep_view() == repository_had(answer(*gh)),
{
    match gh {
        Some(Ok(repo)) => Some(repo),
        _ => None,
    }
}

/// What came of asking for a repository, by reference.
fn by_ref(gh: &Option<Result<GitHubRepo, String>>) -> (r: Option<Result<&GitHubRepo, &str>>)
    ensures
        answer_by_ref(r) == answer(*gh),
{
    match gh {
        Some(Ok(repo)) => Some(Ok(repo)),
        Some(Err(e)) => Some(Err(e.as_str())),
        None => None,
    }
}

/// What an installed package contributes to a scan at the given moment.
pub fn scan_package_at(opts: Options, s: &AurScan, at: Moment) -> (r: Outcome)
    requires
        s.wf(),
        at.wf(),
    ensures
        r.deep_view() == aur_outcome(opts, *s, at),
{
    if let Some(resp) = &s.fetched {
        if resp.resultcount > 0 {
            let pkg = &resp.results[0];
            let health = health_at(pkg, had(&s.github), at);
            let reason = stale_reason_at(pkg, by_ref(&s.github), at);
            return package_found(
                opts,
                health,
                None,
                record_of(pkg, health, &reason),
                line_of(opts, pkg, health, &reason),
            );
        }
    }
    let mut line = GRAY.to_owned();
    line.append("❓ ");
    line.append(s.name.as_str());
    line.append(" — ");
    line.append(GRAY);
    line.append("fetch failed");
    line.append(RESET);
    package_missing(opts, unknown_record(s.name.as_str(), "?", "AUR API fetch failed"), line)
}

/// What the packages contribute to a scan at the given moment, in order.
pub open spec fn aur_outcomes(opts: Options, all: Seq<AurScan>, at: Moment) -> Seq<OutcomeView> {
    all.map_values(|s: AurScan| aur_outcome(opts, s, at))
}

/// What a scan of the given packages puts out at the given moment.
pub fn scan_installed_at(opts: Options, packages: &Vec<AurScan>, at: Moment) -> (r: Report)
    requires
        forall|i: int| 0 <= i < packages.len() ==> (#[trigger] packages[i]).wf(),
        at.wf(),
    ensures
        r.deep_view() == report_of(Ecosystem::Aur, opts, aur_outcomes(opts, packages@, at)),
{
    let mut all: Vec<Outcome> = Vec::new();
    let mut i: usize = 0;
    while i < packages.len()
        invariant
            i <= packages.len(),
            at.wf(),
            forall|k: int| 0 <= k < packages.len() ==> (#[trigger] packages[k]).wf(),
            all.deep_view() == aur_outcomes(opts, packages@.take(i as int), at),
        decreases packages.len() - i,
    {
        let ghost before = all.deep_view();
        all.push(scan_package_at(opts, &packages[i], at));
        assert(all.deep_view() =~= before.push(aur_outcome(opts, packages[i as int], at)));
        assert(all.deep_view() =~= aur_outcomes(opts, packages@.take(i + 1), at));
        i = i + 1;
    }
    assert(packages@.take(packages.len() as int) =~= packages@);
    report(Ecosystem::Aur, opts, &all)
}

/// What a scan of the given packages puts out now.
pub fn scan_installed(opts: Options, packages: &Vec<AurScan>) -> (r: Report)
    requires
        forall|i: int| 0 <= i < packages.len() ==> (#[trigger] packages[i]).wf(),
    ensures
        exists|at: Moment| #[trigger]
            at.wf() && r.deep_view() == report_of(
                Ecosystem::Aur,
                opts,
                aur_outcomes(opts, packages@, at),
            ),
{
    let at = now();
    scan_installed_at(opts, packages, at)
}

// ── Search AUR ───────────────────────────────────────────────────────

/// What is put out where a package was asked for, or a search.
#[derive(Debug)]
pub enum Answer {
    /// Lines of text.
    Text(Vec<String>),
    /// Lines of text, and a complaint after them.
    Partial(Vec<String>, String),
    /// A record of the packages found.
    Json(ScanOutput),
    /// A record of the one package.
    Package(SinglePackageOutput),
    /// A record of what went wrong: where, and what.
    JsonError(String, String),
    /// A complaint.
    Failure(String),
}

/// What an `Answer` holds.
pub enum AnswerView {
    Text(Seq<Text>),
    Partial(Seq<Text>, Text),
    Json(ScanView),
    Package(SinglePackageView),
    JsonError(Text, Text),
    Failure(Text),
}

impl DeepView for Answer {
    type V = AnswerView;

    open spec fn deep_view(&self) -> AnswerView {
        match self {
            Answer::Text(l) => AnswerView::Text(l.deep_view()),
            Answer::Partial(l, e) => AnswerView::Partial(l.deep_view(), e@),
            Answer::Json(o) => AnswerView::Json(o.deep_view()),
            Answer::Package(p) => AnswerView::Package(p.deep_view()),
            Answer::JsonError(w, e) => AnswerView::JsonError(w@, e@),
            Answer::Failure(e) => AnswerView::Failure(e@),
        }
    }
}

/// What is put out for one package. The popularity is put out as it came.
#[derive(Debug)]
pub struct SinglePackageOutput {
    pub ecosystem: String,
    pub name: String,
    pub version: String,
    pub description: Option<String>,
    pub url: Option<String>,
    pub maintainer: Option<String>,
    pub numvotes: u32,
    pub outofdate: Option<u32>,
    pub lastmodified: u64,
    pub health: String,
    pub github: Option<SingleGitHubOutput>,
}

/// What a `SinglePackageOutput` holds.
pub struct SinglePackageView {
    pub ecosystem: Text,
    pub name: Text,
    pub version: Text,
    pub description: Option<Text>,
    pub url: Option<Text>,
    pub maintainer: Option<Text>,
    pub numvotes: u32,
    pub outofdate: Option<u32>,
    pub lastmodified: u64,
    pub health: Text,
    pub github: Option<SingleGitHubView>,
}

/// What is put out for the repository of a package.
#[derive(Debug)]
pub struct SingleGitHubOutput {
    pub owner: String,
    pub repo: String,
    pub stars: u32,
    pub forks: u32,
    pub open_issues: u32,
    pub watchers: u32,
    pub pushed_at: String,
    pub archived: bool,
}

/// What a `SingleGitHubOutput` holds.
pub struct SingleGitHubView {
    pub owner: Text,
    pub repo: Text,
    pub known: GitHubView,
}

impl DeepView for SingleGitHubOutput {
    type V = SingleGitHubView;

    open spec fn deep_view(&self) -> SingleGitHubView {
        SingleGitHubView {
            owner: self.owner@,
            repo: self.repo@,
            known: GitHubView {
                stars: self.stars,
                forks: self.forks,
                open_issues: self.open_issues,
                pushed_at: self.pushed_at@,
                archived: self.archived,
                watchers: self.watchers,
            },
        }
    }
}

impl DeepView for SinglePackageOutput {
    type V = SinglePackageView;

    open spec fn deep_view(&self) -> SinglePackageView {
        SinglePackageView {
            ecosystem: self.ecosystem@,
            name: self.name@,
            version: self.version@,
            description: self.description.deep_view(),
            url: self.url.deep_view(),
            maintainer: self.maintainer.deep_view(),
            numvotes: self.numvotes,
            outofdate: self.outofdate,
            lastmodified: self.lastmodified,
            health: self.health@,
            github: self.github.deep_view(),
        }
    }
}

/// No package and no vulnerability.
pub open spec fn nothing_counted() -> Summary {
    Summary { healthy: 0, warning: 0, hijack: 0, inactive: 0, dead: 0, unknown: 0, cves: 0 }
}

/// A package that a search found, and its repository, where it names one that
/// could be had.
#[derive(Debug)]
pub struct AurHit {
    pub package: AurPackage,
    pub github: Option<GitHubRepo>,
}

/// The record of a package that a search found.
pub open spec fn hit_record(hit: AurHit, at: Moment) -> PackageView {
    aur_record(hit.package, aur_health(hit.package, hit.github.deep_view(), at), None)
}

/// The line of a package that a search found.
pub open spec fn hit_line(hit: AurHit, at: Moment) -> Text {
    let health = aur_health(hit.package, hit.github.deep_view(), at);
    color_of(health) + health.emoji() + RESET@ + " "@ + hit.package.name@ + " "@ + (
    match hit.github {
        Some(repo) => "(⭐ "@ + decimal(repo.stars as nat) + ") "@,
        None => ""@,
    }) + (match hit.package.description {
        Some(d) => d@,
        None => ""@,
    })
}

/// What a search puts out at the given moment: `Err` for one that failed,
/// else how many packages there are, and those that came back.
pub open spec fn search_answer(
    query: Text,
    output_json: bool,
    result: Result<(u32, Vec<AurHit>), String>,
    at: Moment,
) -> AnswerView {
    match result {
        Err(e) => if output_json {
            AnswerView::JsonError("aur-search"@, e@)
        } else {
            AnswerView::Failure("❌ Failed to search AUR: "@ + e@)
        },
        Ok((n, hits)) => if output_json {
            AnswerView::Json(
                ScanView {
                    ecosystem: "aur-search"@,
                    packages: if n == 0 {
                        Seq::empty()
                    } else {
                        hits@.map_values(|h: AurHit| hit_record(h, at))
                    },
                    summary: nothing_counted(),
                },
            )
        } else if n == 0 {
            AnswerView::Text(seq!["🔍 No results for '"@ + query + "'"@])
        } else {
            AnswerView::Text(
                seq![
                    "🔍 Search results: "@ + query + " ("@ + decimal(n as nat) + " found)"@,
                    ""@,
                ] + hits@.map_values(|h: AurHit| hit_line(h, at)),
            )
        },
    }
}

/// The line of a package that a search found.
fn hit_text(hit: &AurHit, at: Moment) -> (r: String)
    requires
        at.wf(),
    ensures
        r@ == hit_line(*hit, at),
{
    let health = health_at(&hit.package, hit.github.as_ref(), at);
    proof {
        lemma_signs(health);
    }
    let mut stars = "".to_owned();
    if let Some(repo) = &hit.github {
        stars = "(⭐ ".to_owned();
        stars.append(number(repo.stars as u64).as_str());
        stars.append(") ");
    }
    let mut line = health_color(health.sign()).to_owned();
    line.append(health.sign());
    line.append(RESET);
    line.append(" ");
    line.append(hit.package.name.as_str());
    line.append(" ");
    line.append(stars.as_str());
    line.append(
        match &hit.package.description {
            Some(d) => d.as_str(),
            None => "",
        },
    );
    line
}

/// The records of the packages that a search found.
fn hit_records(hits: &Vec<AurHit>, at: Moment) -> (r: Vec<PackageResult>)
    requires
        at.wf(),
    ensures
        r.deep_view() == hits@.map_values(|h: AurHit| hit_record(h, at)),
{
    let mut out: Vec<PackageResult> = Vec::new();
    let mut i: usize = 0;
    let ghost record = |h: AurHit| hit_record(h, at);
    while i < hits.len()
        invariant
            i <= hits.len(),
            at.wf(),
            record == (|h: AurHit| hit_record(h, at)),
            out.deep_view() == hits@.take(i as int).map_values(record),
        decreases hits.len() - i,
    {
        let hit = &hits[i];
        let health = health_at(&hit.package, hit.github.as_ref(), at);
        let ghost before = out.deep_view();
        out.push(record_of(&hit.package, health, &None));
        assert(out.deep_view() =~= before.push(hit_record(*hit, at)));
        assert(out.deep_view() =~= hits@.take(i + 1).map_values(record));
        i = i + 1;
    }
    assert(hits@.take(hits.len() as int) =~= hits@);
    out
}

/// The lines of the packages that a search found.
fn hit_lines(hits: &Vec<AurHit>, at: Moment) -> (r: Vec<String>)
    requires
        at.wf(),
    ensures
        r.deep_view() == hits@.map_values(|h: AurHit| hit_line(h, at)),
{
    let mut out: Vec<String> = Vec::new();
    let mut i: usize = 0;
    let ghost line = |h: AurHit| hit_line(h, at);
    while i < hits.len()
        invariant
            i <= hits.len(),
            at.wf(),
            line == (|h: AurHit| hit_line(h, at)),
            out.deep_view() == hits@.take(i as int).map_values(line),
        decreases hits.len() - i,
    {
        let ghost before = out.deep_view();
        add_line(&mut out, hit_text(&hits[i], at));
        assert(out.deep_view() =~= hits@.take(i + 1).map_values(line));
        i = i + 1;
    }
    assert(hits@.take(hits.len() as int) =~= hits@);
    out
}

/// What a search puts out at the given moment.
pub fn search_at(
    query: &str,
    output_json: bool,
    result: &Result<(u32, Vec<AurHit>), String>,
    at: Moment,
) -> (r: Answer)
    requires
        at.wf(),
    ensures
        r.deep_view() == search_answer(query@, output_json, *result, at),
{
    match result {
        Err(e) => {
            if output_json {
                return Answer::JsonError("aur-search".to_owned(), e.clone());
            }
            let mut text = "❌ Failed to search AUR: ".to_owned();
            text.append(e.as_str());
            Answer::Failure(text)
        },
        Ok(both) => {
            let n: u32 = both.0;
            let hits = &both.1;
            if output_json {
                let packages: Vec<PackageResult> = if n == 0 {
                    Vec::new()
                } else {
                    hit_records(hits, at)
                };
                proof {
                    if n == 0 {
                        assert(packages.deep_view() =~= Seq::empty());
                    }
                }
                return Answer::Json(
                    ScanOutput {
                        ecosystem: "aur-search".to_owned(),
                        packages,
                        summary: Summary::new(),
                    },
                );
            }
            let mut out: Vec<String> = Vec::new();
            if n == 0 {
                let mut text = "🔍 No results for '".to_owned();
                text.append(query);
                text.append("'");
                add_line(&mut out, text);
                assert(out.deep_view() =~= seq![text@]);
                return Answer::Text(out);
            }
            let mut text = "🔍 Search results: ".to_owned();
            text.append(query);
            text.append(" (");
            text.append(number(n as u64).as_str());
            text.append(" found)");
            let ghost head = text@;
            add_line(&mut out, text);
            add_line(&mut out, "".to_owned());
            assert(out.deep_view() =~= seq![head, ""@]);
            add_lines(&mut out, hit_lines(hits, at));
            Answer::Text(out)
        },
    }
}

/// What a search puts out now. `result` says why it failed, or how many
/// packages there are, and holds those that came back.
pub fn search_and_display(
    query: &str,
    output_json: bool,
    result: &Result<(u32, Vec<AurHit>), String>,
) -> (r: Answer)
    ensures
        exists|at: Moment| #[trigger]
            at.wf() && r.deep_view() == search_answer(query@, output_json, *result, at),
{
    let at = now();
    search_at(query, output_json, result, at)
}

// ── Text display helpers ─────────────────────────────────────────────

/// `text`, or a dash where there is none.
pub open spec fn or_dash(text: Option<Text>) -> Text {
    match text {
        Some(t) => t,
        None => "-"@,
    }
}

/// What is shown of a package.
pub open spec fn package_lines(pkg: AurPackage) -> Seq<Text> {
    seq![
        ""@,
        "📦 Package: "@ + pkg.name@,
        "   Version: "@ + pkg.version@,
        "   Description: "@ + or_dash(pkg.description.deep_view()),
        "   Upstream URL: "@ + or_dash(pkg.url.deep_view()),
        "   Maintainer: "@ + maintainer_text(pkg),
        "   Votes: "@ + decimal(pkg.numvotes as nat),
        "   Popularity: "@ + pkg.popularity.hundredths@,
        "   Out of date: "@ + if pkg.outofdate is Some {
            "⚠️ Yes"@
        } else {
            "✅ No"@
        },
        "   Last updated: "@ + utc_text(pkg.lastmodified, "%Y-%m-%d %H:%M UTC"@),
    ]
}

/// What is said of a repository that was last pushed to so many days ago.
pub open spec fn push_line(days: int) -> Text {
    if days > 730 {
        "   "@ + BOLD@ + RED@ + "🪦 Last push > 2 years — DEAD"@ + RESET@
    } else if days > 365 {
        "   "@ + RED@ + "🔴 Last push > 1 year — INACTIVE"@ + RESET@
    } else if days > 180 {
        "   "@ + YELLOW@ + "⚠️ Last push > 6 months — check needed"@ + RESET@
    } else {
        "   "@ + GREEN@ + "✅ Active ("@ + signed(days) + " days ago)"@ + RESET@
    }
}

/// What is shown of a repository on the given day.
pub open spec fn github_lines(repo: GitHubView, today: i32) -> Seq<Text> {
    seq![
        "   ⭐ Stars: "@ + decimal(repo.stars as nat),
        "   🍴 Forks: "@ + decimal(repo.forks as nat),
        "   🔥 Open issues: "@ + decimal(repo.open_issues as nat),
        "   👀 Watchers: "@ + decimal(repo.watchers as nat),
        "   📅 Pushed at: "@ + byte_prefix(repo.pushed_at, 10)->0,
    ] + (match age(repo.pushed_at, today) {
        Some(days) => seq![push_line(days as int)],
        None => Seq::empty(),
    }) + (if repo.archived {
        seq!["   🗄️ ARCHIVED — no longer maintained"@]
    } else {
        Seq::empty()
    })
}

/// A repository whose time of the last push begins with a date of ten bytes.
pub open spec fn dated(repo: GitHubView) -> bool {
    byte_prefix(repo.pushed_at, 10) is Some
}

/// A label and what it labels.
fn labelled(label: &str, text: &str) -> (r: String)
    ensures
        r@ == label@ + text@,
{
    let mut line = label.to_owned();
    line.append(text);
    line
}

/// `text`, or a dash where there is none.
fn text_or_dash(text: &Option<String>) -> (r: &str)
    ensures
        r@ == or_dash(text.deep_view()),
{
    match text {
        Some(t) => t.as_str(),
        None => "-",
    }
}

/// What is shown of a package.
pub fn print_package_info(pkg: &AurPackage) -> (r: Vec<String>)
    requires
        pkg.lastmodified <= LAST_SECOND,
    ensures
        r.deep_view() == package_lines(*pkg),
{
    let mut out: Vec<String> = Vec::new();
    add_line(&mut out, "".to_owned());
    add_line(&mut out, labelled("📦 Package: ", pkg.name.as_str()));
    add_line(&mut out, labelled("   Version: ", pkg.version.as_str()));
    add_line(&mut out, labelled("   Description: ", text_or_dash(&pkg.description)));
    add_line(&mut out, labelled("   Upstream URL: ", text_or_dash(&pkg.url)));
    add_line(&mut out, labelled("   Maintainer: ", maintainer_of(pkg).as_str()));
    add_line(&mut out, labelled("   Votes: ", number(pkg.numvotes as u64).as_str()));
    add_line(&mut out, labelled("   Popularity: ", pkg.popularity.hundredths.as_str()));
    let flag = if pkg.outofdate.is_some() {
        "⚠️ Yes"
    } else {
        "✅ No"
    };
    add_line(&mut out, labelled("   Out of date: ", flag));
    add_line(&mut out, labelled("   Last updated: ", date_and_minute(pkg.lastmodified).as_str()));
    assert(out.deep_view() =~= package_lines(*pkg));
    out
}

/// What is said of a repository that was last pushed to so many days ago.
fn push_text(days: i64) -> (r: String)
    ensures
        r@ == push_line(days as int),
{
    let mut line = "   ".to_owned();
    if days > 730 {
        line.append(BOLD);
        line.append(RED);
        line.append("🪦 Last push > 2 years — DEAD");
    } else if days > 365 {
        line.append(RED);
        line.append("🔴 Last push > 1 year — INACTIVE");
    } else if days > 180 {
        line.append(YELLOW);
        line.append("⚠️ Last push > 6 months — check needed");
    } else {
        line.append(GREEN);
        line.append("✅ Active (");
        line.append(signed_number(days).as_str());
        line.append(" days ago)");
    }
    line.append(RESET);
    line
}

/// What is shown of a repository on the given day.
pub fn github_info_on(repo: &GitHubRepo, today: i32) -> (r: Vec<String>)
    requires
        dated(repo.deep_view()),
    ensures
        r.deep_view() == github_lines(repo.deep_view(), today),
{
    let mut out: Vec<String> = Vec::new();
    add_line(&mut out, labelled("   ⭐ Stars: ", number(repo.stars as u64).as_str()));
    add_line(&mut out, labelled("   🍴 Forks: ", number(repo.forks as u64).as_str()));
    add_line(&mut out, labelled("   🔥 Open issues: ", number(repo.open_issues as u64).as_str()));
    add_line(&mut out, labelled("   👀 Watchers: ", number(repo.watchers as u64).as_str()));
    let date = get_prefix(repo.pushed_at.as_str(), 10).unwrap();
    add_line(&mut out, labelled("   📅 Pushed at: ", date));
    let ghost head = out.deep_view();
    let ghost view = repo.deep_view();
    assert(head =~= seq![
        "   ⭐ Stars: "@ + decimal(view.stars as nat),
        "   🍴 Forks: "@ + decimal(view.forks as nat),
        "   🔥 Open issues: "@ + decimal(view.open_issues as nat),
        "   👀 Watchers: "@ + decimal(view.watchers as nat),
        "   📅 Pushed at: "@ + byte_prefix(view.pushed_at, 10)->0,
    ]);
    if let Some(days) = days_since_on(repo.pushed_at.as_str(), today) {
        add_line(&mut out, push_text(days));
    }
    if repo.archived {
        add_line(&mut out, "   🗄️ ARCHIVED — no longer maintained".to_owned());
    }
    assert(out.deep_view() =~= github_lines(view, today));
    out
}

/// What is shown of a repository, as of today.
pub fn print_github_info(repo: &GitHubRepo) -> (r: Vec<String>)
    requires
        dated(repo.deep_view()),
    ensures
        exists|at: Moment| #[trigger]
            at.wf() && r.deep_view() == github_lines(repo.deep_view(), at.day() as i32),
{
    let at = now();
    github_info_on(repo, at.today())
}

// ── Single AUR package ───────────────────────────────────────────────

/// What the AUR answered to the query for one package, or why it could not be
/// asked, and the repository, or why it could not be had, for a package that
/// names one.
#[derive(Debug)]
pub struct AurLookup {
    pub fetched: Result<AurResponse, String>,
    pub github: Option<Result<GitHubRepo, String>>,
}

impl AurLookup {
    /// An answer that counts packages holds one. Where it is shown as text,
    /// the time of its last change has a date; and the repository, where that
    /// is shown as text or its age decides, tells when it was last pushed to.
    pub open spec fn wf(self, output_json: bool) -> bool {
        self.fetched matches Ok(resp) ==> resp.wf() && (resp.resultcount > 0 ==> {
            let pkg = resp.results@[0];
            &&& !output_json ==> pkg.lastmodified <= LAST_SECOND
            &&& !output_json || pkg.outofdate is None ==> (repository_had(
                answer(self.github),
            ) matches Some(repo) ==> dated(repo))
        })
    }
}

/// The record of one package.
pub open spec fn single_record(
    pkg: AurPackage,
    gh: Option<GitHubView>,
    at: Moment,
) -> SinglePackageView {
    SinglePackageView {
        ecosystem: "aur"@,
        name: pkg.name@,
        version: pkg.version@,
        description: pkg.description.deep_view(),
        url: pkg.url.deep_view(),
        maintainer: pkg.maintainer.deep_view(),
        numvotes: pkg.numvotes,
        outofdate: pkg.outofdate,
        lastmodified: pkg.lastmodified,
        health: aur_health(pkg, gh, at).word(),
        github: match (upstream(pkg), gh) {
            (Some(names), Some(repo)) => Some(
                SingleGitHubView { owner: names.0, repo: names.1, known: repo },
            ),
            _ => None,
        },
    }
}

/// The text of one package, with a complaint at its end where its repository
/// could not be had.
pub open spec fn single_text(
    pkg: AurPackage,
    gh: Option<Result<GitHubView, Text>>,
    at: Moment,
) -> AnswerView {
    let head = package_lines(pkg);
    match upstream(pkg) {
        Some(names) => {
            let more = head + seq![""@, "🐙 GitHub: "@ + names.0 + "/"@ + names.1];
            match gh {
                Some(Ok(repo)) => AnswerView::Text(more + github_lines(repo, at.day() as i32)),
                Some(Err(e)) => AnswerView::Partial(more, "   ❌ Fetch failed: "@ + e),
                None => AnswerView::Text(more),
            }
        },
        None => if pkg.url is Some {
            AnswerView::Text(head + seq![""@, "🐙 GitHub: not a GitHub repository"@])
        } else {
            AnswerView::Text(head)
        },
    }
}

/// What is put out for one package at the given moment, and the code that the
/// program ends with.
pub open spec fn single_answer(
    name: Text,
    output_json: bool,
    found: AurLookup,
    at: Moment,
) -> (AnswerView, i32) {
    match found.fetched {
        Err(e) => if output_json {
            (AnswerView::JsonError("aur"@, "Failed to fetch AUR: "@ + e@), 0)
        } else {
            (AnswerView::Failure("❌ Failed to fetch AUR: "@ + e@), 1)
        },
        Ok(resp) => if resp.resultcount == 0 {
            if output_json {
                (AnswerView::JsonError("aur"@, "Package '"@ + name + "' not found in AUR"@), 0)
            } else {
                (AnswerView::Failure("❌ Package '"@ + name + "' not found in AUR"@), 1)
            }
        } else {
            let pkg = resp.results@[0];
            let gh = answer(found.github);
            if output_json {
                (AnswerView::Package(single_record(pkg, repository_had(gh), at)), 0)
            } else {
                (single_text(pkg, gh, at), 0)
            }
        },
    }
}

/// The record of one package.
fn single_record_of(pkg: &AurPackage, gh: Option<&GitHubRepo>, at: Moment) -> (r:
    SinglePackageOutput)
    requires
        at.wf(),
    ensures
        r.deep_view() == single_record(*pkg, gh.deep_view(), at),
{
    let github = match (upstream_of(pkg), gh) {
        (Some(names), Some(repo)) => Some(
            SingleGitHubOutput {
                owner: names.0,
                repo: names.1,
                stars: repo.stars,
                forks: repo.forks,
                open_issues: repo.open_issues,
                watchers: repo.watchers,
                pushed_at: repo.pushed_at.clone(),
                archived: repo.archived,
            },
        ),
        _ => None,
    };
    SinglePackageOutput {
        ecosystem: "aur".to_owned(),
        name: pkg.name.clone(),
        version: pkg.version.clone(),
        description: copy_text(&pkg.description),
        url: copy_text(&pkg.url),
        maintainer: copy_text(&pkg.maintainer),
        numvotes: pkg.numvotes,
        outofdate: pkg.outofdate,
        lastmodified: pkg.lastmodified,
        health: health_at(pkg, gh, at).name().to_owned(),
        github,
    }
}

/// The text of one package.
fn single_text_of(
    pkg: &AurPackage,
    gh: &Option<Result<GitHubRepo, String>>,
    at: Moment,
) -> (r: Answer)
    requires
        at.wf(),
        pkg.lastmodified <= LAST_SECOND,
        repository_had(answer(*gh)) matches Some(repo) ==> dated(repo),
    ensures
        r.deep_view() == single_text(*pkg, answer(*gh), at),
{
    let mut out = print_package_info(pkg);
    let ghost head = out.deep_view();
    match upstream_of(pkg) {
        Some(names) => {
            let mut title = "🐙 GitHub: ".to_owned();
            title.append(names.0.as_str());
            title.append("/");
            title.append(names.1.as_str());
            let ghost shown = title@;
            add_line(&mut out, "".to_owned());
            add_line(&mut out, title);
            assert(out.deep_view() =~= head + seq![""@, shown]);
            match gh {
                Some(Ok(repo)) => {
                    add_lines(&mut out, github_info_on(repo, at.today()));
                    Answer::Text(out)
                },
                Some(Err(e)) => Answer::Partial(out, labelled("   ❌ Fetch failed: ", e.as_str())),
                None => Answer::Text(out),
            }
        },
        None => {
            if pkg.url.is_some() {
                add_line(&mut out, "".to_owned());
                add_line(&mut out, "🐙 GitHub: not a GitHub repository".to_owned());
                assert(out.deep_view() =~= head + seq![
                    ""@,
                    "🐙 GitHub: not a GitHub repository"@,
                ]);
            }
            Answer::Text(out)
        },
    }
}

/// What is put out for one package at the given moment, and the code that the
/// program ends with.
pub fn single_package_at(
    pkg_name: &str,
    output_json: bool,
    found: &AurLookup,
    at: Moment,
) -> (r: (Answer, i32))
    requires
        found.wf(output_json),
        at.wf(),
    ensures
        (r.0.deep_view(), r.1) == single_answer(pkg_name@, output_json, *found, at),
{
    match &found.fetched {
        Err(e) => {
            if output_json {
                (
                    Answer::JsonError(
                        "aur".to_owned(),
                        labelled("Failed to fetch AUR: ", e.as_str()),
                    ),
                    0,
                )
            } else {
                (Answer::Failure(labelled("❌ Failed to fetch AUR: ", e.as_str())), 1)
            }
        },
        Ok(resp) => {
            if resp.resultcount == 0 {
                let mut text = if output_json {
                    "Package '".to_owned()
                } else {
                    "❌ Package '".to_owned()
                };
                text.append(pkg_name);
                text.append("' not found in AUR");
                if output_json {
                    (Answer::JsonError("aur".to_owned(), text), 0)
                } else {
                    (Answer::Failure(text), 1)
                }
            } else {
                let pkg = &resp.results[0];
                if output_json {
                    (Answer::Package(single_record_of(pkg, had(&found.github), at)), 0)
                } else {
                    (single_text_of(pkg, &found.github, at), 0)
                }
            }
        },
    }
}

/// What is put out for one package now, and the code that the program ends
/// with.
pub fn single_package_json(pkg_name: &str, output_json: bool, found: &AurLookup) -> (r: (
    Answer,
    i32,
))
    requires
        found.wf(output_json),
    ensures
        exists|at: Moment| #[trigger]
            at.wf() && (r.0.deep_view(), r.1) == single_answer(pkg_name@, output_json, *found, at),
{
    let at = now();
    single_package_at(pkg_name, output_json, found, at)
}

// ── Laws ─────────────────────────────────────────────────────────────

/// The mark as out of date decides at once, whatever else is known.
pub proof fn law_out_of_date_decides(pkg: AurPackage, gh: Option<GitHubView>, at: Moment)
    requires
        pkg.outofdate is Some,
    ensures
        aur_health(pkg, gh, at) == Health::Warning,
{
}

/// No package is left without a score: where nothing is known of a
/// repository, its own last change decides.
pub proof fn law_every_package_is_scored(pkg: AurPackage, gh: Option<GitHubView>, at: Moment)
    ensures
        aur_health(pkg, gh, at) != Health::Unknown,
        pkg.outofdate is None && !takeover(pkg, at) ==> aur_health(pkg, None, at) == score(
            whole_days(at, pkg.lastmodified),
        ),
{
}

/// A package is at risk of a hijack exactly where it was changed within 90
/// days, is orphaned and has low popularity, and is not marked as out of
/// date.
pub proof fn law_hijack_signal(pkg: AurPackage, gh: Option<GitHubView>, at: Moment)
    ensures
        aur_health(pkg, gh, at) == Health::Hijack <==> pkg.outofdate is None && whole_days(
            at,
            pkg.lastmodified,
        ) < 90 && orphaned(pkg) && pkg.popularity.low,
{
}

/// Every package that is not healthy has a reason.
pub proof fn law_every_bad_health_has_a_reason(
    pkg: AurPackage,
    gh: Option<Result<GitHubView, Text>>,
    at: Moment,
)
    requires
        aur_health(pkg, repository_had(gh), at) != Health::Healthy,
    ensures
        aur_reason(pkg, gh, at) is Some,
{
}

/// Where JSON is asked for, nothing but records comes out, of a search and of
/// a package, whatever went wrong.
pub proof fn law_json_only(
    query: Text,
    result: Result<(u32, Vec<AurHit>), String>,
    looked_up: AurLookup,
    at: Moment,
)
    ensures
        ({
            let a = search_answer(query, true, result, at);
            a is Json || a is JsonError
        }),
        ({
            let a = single_answer(query, true, looked_up, at);
            (a.0 is Package || a.0 is JsonError) && a.1 == 0
        }),
{
}

/// Of two scans for records of the same packages, as they were fetched, at the
/// same moment, one of all and one of those worth a look: both report the same
/// summary, and the packages of the second are exactly those of the first
/// that are stale, inactive, dead or unknown.
pub proof fn law_stale_narrows_the_packages(opts: Options, packages: Seq<AurScan>, at: Moment)
    requires
        opts.records(),
    ensures
        ({
            let all = aur_outcomes(with_stale(opts, false), packages, at);
            let few = aur_outcomes(with_stale(opts, true), packages, at);
            &&& tally(few) == tally(all)
            &&& records(all).len() == packages.len()
            &&& records(few) == only_worth_a_look(records(all))
        }),
{
    let all = aur_outcomes(with_stale(opts, false), packages, at);
    let few = aur_outcomes(with_stale(opts, true), packages, at);
    assert forall|i: int| 0 <= i < all.len() implies narrows(#[trigger] few[i], all[i]) by {
        let s = packages[i];
        match s.package() {
            Some(pkg) => {
                let health = aur_health(pkg, repository_had(answer(s.github)), at);
                let reason = aur_reason(pkg, answer(s.github), at);
                law_found_narrows(
                    opts,
                    health,
                    None,
                    aur_record(pkg, health, reason),
                    aur_line(with_stale(opts, true), pkg, health, reason),
                    aur_line(with_stale(opts, false), pkg, health, reason),
                );
            },
            None => {
                let line = GRAY@ + "❓ "@ + s.name@ + " — "@ + GRAY@ + "fetch failed"@ + RESET@;
                law_missing_narrows(
                    opts,
                    unknown_package(s.name@, "?"@, "AUR API fetch failed"@),
                    line,
                    line,
                );
            },
        }
    }
    law_two_scans(Ecosystem::Aur, opts, few, all);
}

} // verus!
