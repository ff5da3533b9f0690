//! Go modules, and the `go.mod` that names them.

use crate::api::{answer, answer_by_ref, repository_had, GitHubRepo, GitHubView};
use crate::clock::{age, days_since_on, now, Moment};
use crate::display::{RESET, YELLOW};
use crate::health::{combine, combined, days_since_push, push_age, reason, why_stale};
use crate::report::{
    law_two_scans, only_worth_a_look, records, report, report_of, tally, Ecosystem, Report,
};
use crate::scan::{
    alarm, alarm_text, failed, fetch_failed, found, heading, heading_text, law_found_narrows,
    narrows, package_found, reason_note, reason_text, unknown_package, unknown_record, with_stale,
    Options, Outcome, OutcomeView,
};
use crate::text::{
    back_space, begins, contains, holds, is_space, pieces, replace, replaced, same, skip_space,
    skip_word, split, split_whitespace, starts_with, strip_starts, trim, trim_start_matches,
    trimmed, words, words_from, Text,
};
use crate::types::{copy_vulns, Health, PackageResult, PackageView, VulnInfo};
use vstd::prelude::*;

verus! {

// ── Structs ──────────────────────────────────────────────────────────

/// What the Go proxy knows of the latest version of a module.
#[derive(Debug)]
pub struct GoProxyResponse {
    pub version: String,
    pub time: String,
}

/// A dependency with all that was fetched for it: what the proxy knows, or
/// why it could not be asked, the repository, or why it could not be had, for
/// a module on GitHub, and the known vulnerabilities.
#[derive(Debug)]
pub struct GoScan {
    pub name: String,
    pub version: String,
    pub fetched: Result<GoProxyResponse, String>,
    pub github: Option<Result<GitHubRepo, String>>,
    pub vulns: Vec<VulnInfo>,
}

// ── go.mod ───────────────────────────────────────────────────────────

/// A line without a dependency: an empty one, a comment, the name of the
/// module, the version of the language.
pub open spec fn idle(line: Text) -> bool {
    line.len() == 0 || begins(line, "//"@) || begins(line, "module "@) || begins(line, "go "@)
}

/// The words of a line that are neither `require` nor the start of a comment.
pub open spec fn meaningful(all: Seq<Text>) -> Seq<Text>
    decreases all.len(),
{
    if all.len() == 0 {
        Seq::empty()
    } else {
        let rest = meaningful(all.drop_last());
        if all.last() == "require"@ || begins(all.last(), "//"@) {
            rest
        } else {
            rest.push(all.last())
        }
    }
}

/// The dependency in a line of requirements: its path, and its version
/// without a leading `v`.
pub open spec fn requirement(line: Text) -> Option<(Text, Text)> {
    let parts = meaningful(words(line));
    if parts.len() >= 2 {
        Some((parts[0], strip_starts(parts[1], "v"@)))
    } else {
        None
    }
}

/// Whether the line after `line` stands in a block of requirements, where
/// `line` does or does not.
pub open spec fn block_after(line: Text, in_block: bool) -> bool {
    if idle(line) {
        in_block
    } else if line == "require ("@ {
        true
    } else if line == ")"@ {
        false
    } else {
        in_block
    }
}

/// The dependency in a line that stands in a block of requirements, or not.
pub open spec fn dep_in(line: Text, in_block: bool) -> Option<(Text, Text)> {
    if idle(line) || line == "require ("@ || line == ")"@ {
        None
    } else if in_block || begins(line, "require "@) {
        requirement(line)
    } else {
        None
    }
}

/// Whether what follows the given lines stands in a block of requirements.
pub open spec fn in_block_after(lines: Seq<Text>) -> bool
    decreases lines.len(),
{
    lines.len() > 0 && block_after(trimmed(lines.last()), in_block_after(lines.drop_last()))
}

/// The dependencies in the given lines, in order.
pub open spec fn go_deps(lines: Seq<Text>) -> Seq<(Text, Text)>
    decreases lines.len(),
{
    if lines.len() == 0 {
        Seq::empty()
    } else {
        let rest = go_deps(lines.drop_last());
        match dep_in(trimmed(lines.last()), in_block_after(lines.drop_last())) {
            Some(dep) => rest.push(dep),
            None => rest,
        }
    }
}

/// The dependency in a line of requirements.
fn parse_requirement(line: &str) -> (r: Option<(String, String)>)
    ensures
        r.deep_view() == requirement(line@),
{
    let all = split_whitespace(line);
    let mut parts: Vec<&String> = Vec::new();
    let mut i: usize = 0;
    let ghost seen = all.deep_view();
    assert(seen.take(0) =~= Seq::empty());
    assert(parts.deep_view() =~= Seq::empty());
    while i < all.len()
        invariant
            i <= all.len(),
            seen == all.deep_view(),
            parts.deep_view() == meaningful(seen.take(i as int)),
        decreases all.len() - i,
    {
        proof {
            assert(seen.take(i + 1).drop_last() =~= seen.take(i as int));
            assert(seen.take(i + 1).last() == all[i as int]@);
        }
        if !same(all[i].as_str(), "require") && !starts_with(all[i].as_str(), "//") {
            let ghost before = parts.deep_view();
            parts.push(&all[i]);
            assert(parts.deep_view() =~= before.push(all[i as int]@));
        }
        i = i + 1;
    }
    assert(seen.take(all.len() as int) =~= seen);
    if parts.len() >= 2 {
        assert(parts.deep_view()[0] == parts[0]@);
        assert(parts.deep_view()[1] == parts[1]@);
        Some((parts[0].clone(), trim_start_matches(parts[1].as_str(), "v").to_owned()))
    } else {
        None
    }
}

/// Whether a line holds no dependency by its start.
fn is_idle(line: &str) -> (r: bool)
    ensures
        r == idle(line@),
{
    line.is_empty() || starts_with(line, "//") || starts_with(line, "module ") || starts_with(
        line,
        "go ",
    )
}

/// The dependencies in a `go.mod`, as pairs of path and version, in order.
pub fn parse_go_mod_lines(content: &str) -> (r: Result<Vec<(String, String)>, String>)
    ensures
        r matches Ok(deps) && deps.deep_view() == go_deps(pieces(content@, "\n"@)),
{
    proof {
        reveal_strlit("\n");
    }
    let lines = split(content, "\n");
    let mut deps: Vec<(String, String)> = Vec::new();
    let mut in_block = false;
    let mut i: usize = 0;
    let ghost all = lines.deep_view();
    assert(all.take(0) =~= Seq::empty());
    assert(deps.deep_view() =~= Seq::empty());
    while i < lines.len()
        invariant
            i <= lines.len(),
            all == lines.deep_view(),
            deps.deep_view() == go_deps(all.take(i as int)),
            in_block == in_block_after(all.take(i as int)),
        decreases lines.len() - i,
    {
        let line = trim(lines[i].as_str());
        proof {
            assert(all.take(i + 1).drop_last() =~= all.take(i as int));
            assert(all.take(i + 1).last() == lines[i as int]@);
        }
        if is_idle(line) {
        } else if same(line, "require (") {
            in_block = true;
        } else if same(line, ")") {
            in_block = false;
        } else if in_block || starts_with(line, "require ") {
            if let Some(dep) = parse_requirement(line) {
                let ghost before = deps.deep_view();
                deps.push(dep);
                assert(deps.deep_view() =~= before.push(dep.deep_view()));
            }
        }
        i = i + 1;
    }
    assert(all.take(lines.len() as int) =~= all);
    Ok(deps)
}

/// The dependencies in a `go.mod`. `file` is what the file holds, or why it
/// could not be read.
pub fn parse_go_mod(file: Result<String, String>) -> (r: Result<Vec<(String, String)>, String>)
    ensures
        match file {
            Ok(content) => r matches Ok(deps) && deps.deep_view() == go_deps(
                pieces(content@, "\n"@),
            ),
            Err(e) => r matches Err(m) && m@ == "Read error: "@ + e@,
        },
{
    match file {
        Ok(content) => parse_go_mod_lines(content.as_str()),
        Err(e) => {
            let mut text = "Read error: ".to_owned();
            text.append(e.as_str());
            Err(text)
        },
    }
}

// ── GitHub ───────────────────────────────────────────────────────────

/// The repository on GitHub that a module lives in.
pub open spec fn module_repository(mod_path: Text) -> Option<(Text, Text)> {
    let parts = pieces(mod_path, "/"@);
    if begins(mod_path, "github.com/"@) && parts.len() >= 3 {
        Some((parts[1], parts[2]))
    } else {
        None
    }
}

/// The repository on GitHub that a module lives in.
pub fn go_mod_to_github(mod_path: &str) -> (r: Option<(String, String)>)
    ensures
        r.deep_view() == module_repository(mod_path@),
{
    if !starts_with(mod_path, "github.com/") {
        return None;
    }
    proof {
        reveal_strlit("/");
    }
    let parts = split(mod_path, "/");
    if parts.len() < 3 {
        return None;
    }
    assert(parts.deep_view()[1] == parts[1]@);
    assert(parts.deep_view()[2] == parts[2]@);
    Some((parts[1].clone(), parts[2].clone()))
}

// ── Health scoring ───────────────────────────────────────────────────

/// The risk that someone else has taken a module on GitHub over: its
/// repository is archived, or there is none.
pub open spec fn hijack(mod_path: Text, gh: Option<Result<GitHubView, Text>>) -> Option<Text> {
    if module_repository(mod_path) is None {
        None
    } else {
        match gh {
            Some(Ok(repo)) => if repo.archived {
                Some("Repo is archived — may be hijacked"@)
            } else {
                None
            },
            Some(Err(e)) => if holds(e, "404"@) {
                Some("GitHub repo not found (404) — module path may be hijacked"@)
            } else {
                None
            },
            None => None,
        }
    }
}

/// The health of a module on the given day, where nothing speaks for a
/// hijack.
pub open spec fn go_health(
    proxy: GoProxyResponse,
    gh: Option<GitHubView>,
    today: i32,
) -> Health {
    combined(age(proxy.time@, today), push_age(gh, today))
}

/// Why a module is not healthy on the given day, where nothing speaks for a
/// hijack.
pub open spec fn go_reason(
    proxy: GoProxyResponse,
    gh: Option<GitHubView>,
    today: i32,
) -> Option<Text> {
    reason("No release"@, age(proxy.time@, today), push_age(gh, today))
}

/// The health of a module by its latest version alone, as of today.
pub fn get_go_health(proxy: &GoProxyResponse) -> (r: &'static str)
    ensures
        exists|at: Moment|
            #[trigger] at.wf() && r@ == go_health(*proxy, None, at.day() as i32).emoji(),
{
    let at = now();
    go_health_on(proxy, None, at.today()).sign()
}

/// Check if a Go module has been hijacked on GitHub. `gh_result` is the
/// repository or why it could not be had, and `None` where it was not asked
/// for.
pub fn get_go_hijack(
    mod_path: &str,
    gh_result: Option<Result<&GitHubRepo, &str>>,
) -> (r: Option<String>)
    ensures
        r.deep_view() == hijack(mod_path@, answer_by_ref(gh_result)),
{
    if go_mod_to_github(mod_path).is_none() {
        return None;
    }
    match gh_result {
        Some(Ok(gh)) => if gh.archived {
            Some("Repo is archived — may be hijacked".to_owned())
        } else {
            None
        },
        Some(Err(e)) => if contains(e, "404") {
            Some("GitHub repo not found (404) — module path may be hijacked".to_owned())
        } else {
            None
        },
        None => None,
    }
}

/// The health of a module on the given day, where nothing speaks for a
/// hijack.
pub fn go_health_on(proxy: &GoProxyResponse, gh: Option<&GitHubRepo>, today: i32) -> (r: Health)
    ensures
        r == go_health(*proxy, gh.deep_view(), today),
{
    combine(days_since_on(proxy.time.as_str(), today), days_since_push(gh, today))
}

/// Why a module is not healthy on the given day.
pub fn go_stale_reason_on(
    proxy: &GoProxyResponse,
    gh: Option<&GitHubRepo>,
    today: i32,
) -> (r: Option<String>)
    ensures
        r.deep_view() == go_reason(*proxy, gh.deep_view(), today),
{
    why_stale("No release", days_since_on(proxy.time.as_str(), today), days_since_push(gh, today))
}

/// Stale reason for Go modules, as of today: `None` for one with a recent
/// version whose repository is active or unknown.
pub fn get_go_stale_reason(proxy: &GoProxyResponse, gh: Option<&GitHubRepo>) -> (r: Option<String>)
    ensures
        exists|at: Moment|
            #[trigger] at.wf() && r.deep_view() == go_reason(
                *proxy,
                gh.deep_view(),
                at.day() as i32,
            ),
{
    let at = now();
    go_stale_reason_on(proxy, gh, at.today())
}

// ── Go proxy API ─────────────────────────────────────────────────────

/// Where the Go proxy is asked about a module.
pub fn go_url(mod_path: &str) -> (r: String)
    ensures
        r@ == "https://proxy.golang.org/"@ + replaced(mod_path@, '/', "%2F"@) + "/@latest"@,
{
    let mut url = "https://proxy.golang.org/".to_owned();
    url.append(replace(mod_path, '/', "%2F").as_str());
    url.append("/@latest");
    url
}

// ── One module ───────────────────────────────────────────────────────

/// The health of a dependency on the given day.
pub open spec fn module_health(s: GoScan, proxy: GoProxyResponse, today: i32) -> Health {
    if hijack(s.name@, answer(s.github)) is Some {
        Health::Hijack
    } else {
        go_health(proxy, repository_had(answer(s.github)), today)
    }
}

/// The record of a dependency on the given day.
pub open spec fn go_record(s: GoScan, today: i32) -> PackageView {
    match s.fetched {
        Ok(proxy) => PackageView {
            name: s.name@,
            version: s.version@,
            health: module_health(s, proxy, today).word(),
            description: None,
            latest_version: Some(strip_starts(proxy.version@, "v"@)),
            stale_reason: match hijack(s.name@, answer(s.github)) {
                Some(risk) => Some(risk),
                None => go_reason(proxy, repository_had(answer(s.github)), today),
            },
            vulns: s.vulns.deep_view(),
            provenance: None,
        },
        Err(e) => unknown_package(s.name@, s.version@, e@),
    }
}

/// The risk of a hijack, on a line of its own.
pub open spec fn hijack_note(risk: Option<Text>) -> Text {
    match risk {
        Some(r) => "\n   "@ + YELLOW@ + "└─ 🚩 "@ + r + RESET@,
        None => ""@,
    }
}

/// The line of a dependency on the given day.
pub open spec fn go_line(opts: Options, s: GoScan, proxy: GoProxyResponse, today: i32) -> Text {
    heading(module_health(s, proxy, today), s.name@, s.version@) + " (latest: "@ + strip_starts(
        proxy.version@,
        "v"@,
    ) + ")"@ + hijack_note(hijack(s.name@, answer(s.github))) + reason_note(
        opts,
        go_reason(proxy, repository_had(answer(s.github)), today),
    ) + alarm(s.vulns.deep_view())
}

/// What a dependency contributes to a scan on the given day.
pub open spec fn go_outcome(opts: Options, s: GoScan, today: i32) -> OutcomeView {
    match s.fetched {
        Ok(proxy) => found(
            opts,
            module_health(s, proxy, today),
            None,
            go_record(s, today),
            go_line(opts, s, proxy, today),
        ),
        Err(e) => failed(opts, s.name@, s.version@, e@),
    }
}

/// The repository of a dependency, where it could be had.
fn repository_of(s: &GoScan) -> (r: Option<&GitHubRepo>)
    ensures
        r.deep_view() == repository_had(answer(s.github)),
{
    match &s.github {
        Some(Ok(repo)) => Some(repo),
        _ => None,
    }
}

/// The risk that someone else has taken the module of a dependency over.
fn hijack_risk(s: &GoScan) -> (r: Option<String>)
    ensures
        r.deep_view() == hijack(s.name@, answer(s.github)),
{
    let gh_result = match &s.github {
        Some(Ok(repo)) => Some(Ok(repo)),
        Some(Err(e)) => Some(Err(e.as_str())),
        None => None,
    };
    get_go_hijack(s.name.as_str(), gh_result)
}

/// The health of a dependency on the given day.
fn module_health_on(s: &GoScan, proxy: &GoProxyResponse, today: i32) -> (r: Health)
    ensures
        r == module_health(*s, *proxy, today),
{
    if hijack_risk(s).is_some() {
        Health::Hijack
    } else {
        go_health_on(proxy, repository_of(s), today)
    }
}

/// The record of a dependency on the given day.
pub fn scan_single_on(s: &GoScan, today: i32) -> (r: PackageResult)
    ensures
        r.deep_view() == go_record(*s, today),
{
    match &s.fetched {
        Ok(proxy) => {
            let stale_reason = match hijack_risk(s) {
                Some(risk) => Some(risk),
                None => go_stale_reason_on(proxy, repository_of(s), today),
            };
            PackageResult {
                name: s.name.clone(),
                version: s.version.clone(),
                health: module_health_on(s, proxy, today).name().to_owned(),
                description: None,
                latest_version: Some(
                    trim_start_matches(proxy.version.as_str(), "v").to_owned(),
                ),
                stale_reason,
                vulns: copy_vulns(&s.vulns),
                provenance: None,
            }
        },
        Err(e) => unknown_record(s.name.as_str(), s.version.as_str(), e.as_str()),
    }
}

/// The record of a single Go dependency, as of today.
pub fn scan_single(s: &GoScan) -> (r: PackageResult)
    ensures
        exists|at: Moment| #[trigger] at.wf() && r.deep_view() == go_record(*s, at.day() as i32),
{
    let at = now();
    scan_single_on(s, at.today())
}

/// The line of a dependency on the given day.
fn line_on(opts: Options, s: &GoScan, proxy: &GoProxyResponse, today: i32) -> (r: String)
    ensures
        r@ == go_line(opts, *s, *proxy, today),
{
    let health = module_health_on(s, proxy, today);
    let mut line = heading_text(health, s.name.as_str(), s.version.as_str());
    line.append(" (latest: ");
    line.append(trim_start_matches(proxy.version.as_str(), "v"));
    line.append(")");
    let mut note = "".to_owned();
    if let Some(risk) = hijack_risk(s) {
        note = "\n   ".to_owned();
        note.append(YELLOW);
        note.append("└─ 🚩 ");
        note.append(risk.as_str());
        note.append(RESET);
    }
    line.append(note.as_str());
    let reason = go_stale_reason_on(proxy, repository_of(s), today);
    line.append(reason_text(opts, &reason).as_str());
    line.append(alarm_text(&s.vulns).as_str());
    line
}

/// What a dependency contributes to a scan on the given day.
pub fn scan_module_on(opts: Options, s: &GoScan, today: i32) -> (r: Outcome)
    ensures
        r.deep_view() == go_outcome(opts, *s, today),
{
    match &s.fetched {
        Ok(proxy) => package_found(
            opts,
            module_health_on(s, proxy, today),
            None,
            scan_single_on(s, today),
            line_on(opts, s, proxy, today),
        ),
        Err(e) => fetch_failed(opts, s.name.as_str(), s.version.as_str(), e.as_str()),
    }
}

// ── Public entry point ───────────────────────────────────────────────

/// What the dependencies contribute to a scan on the given day, in order.
pub open spec fn go_outcomes(opts: Options, deps: Seq<GoScan>, today: i32) -> Seq<OutcomeView> {
    deps.map_values(|s: GoScan| go_outcome(opts, s, today))
}

/// What a scan of the given dependencies puts out on the given day.
pub fn scan_go_deps_on(opts: Options, deps: &Vec<GoScan>, today: i32) -> (r: Report)
    ensures
        r.deep_view() == report_of(Ecosystem::Go, opts, go_outcomes(opts, deps@, today)),
{
    let mut all: Vec<Outcome> = Vec::new();
    let mut i: usize = 0;
    while i < deps.len()
        invariant
            i <= deps.len(),
            all.deep_view() == go_outcomes(opts, deps@.take(i as int), today),
        decreases deps.len() - i,
    {
        let ghost before = all.deep_view();
        all.push(scan_module_on(opts, &deps[i], today));
        assert(all.deep_view() =~= before.push(go_outcome(opts, deps[i as int], today)));
        assert(all.deep_view() =~= go_outcomes(opts, deps@.take(i + 1), today));
        i = i + 1;
    }
    assert(deps@.take(deps.len() as int) =~= deps@);
    report(Ecosystem::Go, opts, &all)
}

/// What a scan of the given dependencies puts out, as of today.
pub fn scan_go_deps(opts: Options, deps: &Vec<GoScan>) -> (r: Report)
    ensures
        exists|at: Moment|
            #[trigger] at.wf() && r.deep_view() == report_of(
                Ecosystem::Go,
                opts,
                go_outcomes(opts, deps@, at.day() as i32),
            ),
{
    let at = now();
    scan_go_deps_on(opts, deps, at.today())
}

// ── Laws ─────────────────────────────────────────────────────────────

/// A module that does not live on GitHub is never at risk of a hijack,
/// whatever was fetched.
pub proof fn law_only_github_modules_are_hijacked(
    mod_path: Text,
    gh: Option<Result<GitHubView, Text>>,
)
    requires
        !begins(mod_path, "github.com/"@),
    ensures
        hijack(mod_path, gh) is None,
{
}

/// The lines of a `go.mod` that stand outside of a block count only with
/// `require` in front of them: without such a line and without a block there
/// is no dependency.
pub proof fn law_no_require_no_dependency(lines: Seq<Text>)
    requires
        forall|i: int| 0 <= i < lines.len() ==> !begins(trimmed(#[trigger] lines[i]), "require "@),
    ensures
        go_deps(lines).len() == 0,
        !in_block_after(lines),
    decreases lines.len(),
{
    if lines.len() > 0 {
        let init = lines.drop_last();
        assert forall|i: int| 0 <= i < init.len() implies !begins(
            trimmed(#[trigger] init[i]),
            "require "@,
        ) by {
            assert(init[i] == lines[i]);
        }
        law_no_require_no_dependency(init);
        let line = trimmed(lines.last());
        assert(lines[lines.len() - 1] == lines.last());
        reveal_strlit("require ");
        reveal_strlit("require (");
        if line == "require ("@ {
            assert(line.subrange(0, 8) =~= "require "@);
        }
    }
}

/// The risk of a hijack decides: a module is in that health exactly where
/// there is such a risk, and its record says which.
pub proof fn law_hijack_decides(s: GoScan, proxy: GoProxyResponse, today: i32)
    requires
        s.fetched == Ok::<GoProxyResponse, String>(proxy),
    ensures
        module_health(s, proxy, today) == Health::Hijack <==> hijack(
            s.name@,
            answer(s.github),
        ) is Some,
        hijack(s.name@, answer(s.github)) is Some ==> go_record(s, today).stale_reason == hijack(
            s.name@,
            answer(s.github),
        ),
{
}

/// `s` holds no white space.
pub open spec fn spaceless(s: Text) -> bool {
    forall|k: int| 0 <= k < s.len() ==> !is_space(#[trigger] s[k])
}

proof fn lemma_skip_word_to(s: Text, i: int, j: int)
    requires
        0 <= i <= j <= s.len(),
        forall|k: int| i <= k < j ==> !is_space(#[trigger] s[k]),
        j < s.len() ==> is_space(s[j]),
    ensures
        skip_word(s, i) == j,
    decreases j - i,
{
    if i < j {
        lemma_skip_word_to(s, i + 1, j);
    }
}

proof fn lemma_meaningful_split(a: Seq<Text>, b: Seq<Text>)
    ensures
        meaningful(a + b) == meaningful(a) + meaningful(b),
    decreases b.len(),
{
    if b.len() == 0 {
        assert(a + b =~= a);
        assert(meaningful(a) + meaningful(b) =~= meaningful(a));
    } else {
        assert((a + b).drop_last() =~= a + b.drop_last());
        lemma_meaningful_split(a, b.drop_last());
        if !(b.last() == "require"@ || begins(b.last(), "//"@)) {
            assert(meaningful(a) + meaningful(b.drop_last()).push(b.last()) =~= (meaningful(a)
                + meaningful(b.drop_last())).push(b.last()));
        }
    }
}

/// A path and a version that can stand in a `go.mod`.
pub open spec fn writable(name: Text, version: Text) -> bool {
    &&& name.len() > 0
    &&& spaceless(name)
    &&& spaceless(version)
    &&& name != "require"@
    &&& name != "module"@
    &&& name != "go"@
    &&& !begins(name, "//"@)
    &&& !begins(version, "v"@)
}

/// A requirement as it is written, with something after it.
pub open spec fn written(name: Text, version: Text, rest: Text) -> Text {
    name + " v"@ + version + rest
}

proof fn lemma_words_of_requirement(name: Text, version: Text, rest: Text)
    requires
        writable(name, version),
        rest.len() > 0 ==> is_space(rest[0]),
    ensures
        words(written(name, version, rest)) == seq![name, "v"@ + version] + words_from(
            written(name, version, rest),
            (name.len() + 2 + version.len()) as int,
        ),
{
    reveal_strlit(" v");
    reveal_strlit("v");
    let line = written(name, version, rest);
    let n = name.len() as int;
    let m = n + 2 + version.len();
    let second = "v"@ + version;
    assert forall|k: int| 0 <= k < n implies !is_space(#[trigger] line[k]) by {
        assert(line[k] == name[k]);
    }
    assert(line[n] == ' ');
    assert(line[n + 1] == 'v');
    assert forall|k: int| n + 1 <= k < m implies !is_space(#[trigger] line[k]) by {
        if k > n + 1 {
            assert(line[k] == version[k - n - 2]);
        }
    }
    if rest.len() > 0 {
        assert(line[m] == rest[0]);
    }
    lemma_skip_word_to(line, 0, n);
    assert(skip_space(line, 0) == 0);
    assert(skip_space(line, n + 1) == n + 1);
    assert(skip_space(line, n) == n + 1);
    lemma_skip_word_to(line, n + 1, m);
    assert(line.subrange(0, n) =~= name);
    assert(line.subrange(n + 1, m) =~= second);
    let later = words_from(line, m);
    assert(words_from(line, n) == seq![second] + later);
    assert(words(line) == seq![name] + (seq![second] + later));
    assert(words(line) =~= seq![name, second] + later);
}

proof fn lemma_meaningful_two(name: Text, version: Text)
    requires
        writable(name, version),
    ensures
        meaningful(seq![name, "v"@ + version]) == seq![name, "v"@ + version],
        strip_starts("v"@ + version, "v"@) == version,
{
    reveal_strlit("v");
    reveal_strlit("require");
    reveal_strlit("//");
    let second = "v"@ + version;
    assert(second[0] == 'v');
    assert(second != "require"@) by {
        assert("require"@[0] == 'r');
    }
    assert(!begins(second, "//"@)) by {
        if begins(second, "//"@) {
            assert(second.subrange(0, 2)[0] == '/');
        }
    }
    let two = seq![name, second];
    let one = seq![name];
    assert(two.drop_last() =~= one);
    assert(one.drop_last() =~= Seq::<Text>::empty());
    assert(meaningful(Seq::<Text>::empty()) =~= Seq::<Text>::empty());
    assert(one.last() == name);
    assert(meaningful(one) =~= one);
    assert(two.last() == second);
    assert(meaningful(two) =~= two);
    assert(second.subrange(0, 1) =~= "v"@);
    assert(second.skip(1) =~= version);
    assert(strip_starts(second, "v"@) == strip_starts(version, "v"@));
}

/// A requirement that is written is read as it was, whatever follows it after
/// a space.
pub proof fn law_requirement_is_read(name: Text, version: Text, rest: Text)
    requires
        writable(name, version),
        rest.len() > 0 ==> is_space(rest[0]),
    ensures
        requirement(written(name, version, rest)) == Some((name, version)),
{
    let line = written(name, version, rest);
    let two = seq![name, "v"@ + version];
    let later = words_from(line, (name.len() + 2 + version.len()) as int);
    lemma_words_of_requirement(name, version, rest);
    lemma_meaningful_split(two, later);
    lemma_meaningful_two(name, version);
    let parts = meaningful(words(line));
    assert(parts[0] == two[0] && parts[1] == two[1]);
}

/// The line of a requirement in a block.
pub open spec fn block_line(dep: (Text, Text)) -> Text {
    "\t"@ + written(dep.0, dep.1, ""@)
}

/// The lines of a block of requirements.
pub open spec fn block_lines(deps: Seq<(Text, Text)>) -> Seq<Text> {
    seq!["require ("@] + deps.map_values(|d: (Text, Text)| block_line(d))
}

proof fn lemma_trimmed_line(dep: (Text, Text))
    requires
        writable(dep.0, dep.1),
    ensures
        trimmed(block_line(dep)) == written(dep.0, dep.1, ""@),
{
    reveal_strlit("\t");
    reveal_strlit("");
    reveal_strlit(" v");
    let line = block_line(dep);
    let inner = written(dep.0, dep.1, ""@);
    let n = line.len() as int;
    assert(line[0] == '\u{9}');
    assert(line[1] == dep.0[0]);
    assert(skip_space(line, 1) == 1);
    assert(skip_space(line, 0) == 1);
    if dep.1.len() > 0 {
        assert(line[n - 1] == dep.1[dep.1.len() - 1]);
    } else {
        assert(line[n - 1] == 'v');
    }
    assert(back_space(line, n) == n);
    assert(line.subrange(1, n) =~= inner);
}

proof fn lemma_line_in_block(dep: (Text, Text))
    requires
        writable(dep.0, dep.1),
    ensures
        dep_in(written(dep.0, dep.1, ""@), true) == Some(dep),
        block_after(written(dep.0, dep.1, ""@), true),
{
    reveal_strlit("");
    reveal_strlit(" v");
    reveal_strlit("module ");
    reveal_strlit("module");
    reveal_strlit("go ");
    reveal_strlit("go");
    reveal_strlit("//");
    reveal_strlit(")");
    reveal_strlit("require (");
    let line = written(dep.0, dep.1, ""@);
    let name = dep.0;
    let n = name.len() as int;
    assert(line[n] == ' ');
    assert forall|k: int| 0 <= k < n implies line[k] != ' ' by {
        assert(!is_space(name[k]));
        assert(line[k] == name[k]);
    }
    if begins(line, "//"@) {
        let part = line.subrange(0, 2);
        assert(part[0] == '/' && part[1] == '/');
        if n == 1 {
            assert(line[1] == ' ');
        } else {
            assert(name.subrange(0, 2) =~= "//"@);
        }
    }
    if begins(line, "module "@) {
        let part = line.subrange(0, 7);
        assert(part[6] == ' ');
        assert(forall|k: int| 0 <= k < 6 ==> part[k] == "module "@[k]);
        if n < 6 {
            assert(part[n] == ' ');
            assert("module "@[n] == "module"@[n]);
        } else if n > 6 {
            assert(line[6] == ' ');
        } else {
            assert forall|k: int| 0 <= k < 6 implies name[k] == "module"@[k] by {
                assert(name[k] == line[k] && line[k] == part[k]);
                assert("module "@[k] == "module"@[k]);
            }
            assert(name =~= "module"@);
        }
    }
    if begins(line, "go "@) {
        let part = line.subrange(0, 3);
        assert(part[2] == ' ');
        assert(part[0] == 'g' && part[1] == 'o');
        if n < 2 {
            assert(line[1] == ' ');
        } else if n > 2 {
            assert(line[2] == ' ');
        } else {
            assert(name =~= "go"@);
        }
    }
    if line == "require ("@ {
        assert(line[8] == '(');
        assert(line[7] == ' ');
        if n == 7 {
            assert(line[8] == 'v');
        } else if n < 7 {
            assert("require ("@[n] == ' ');
        } else {
            assert(line[7] != ' ');
        }
    }
    if line == ")"@ {
        assert(line.len() == 1);
    }
    law_requirement_is_read(dep.0, dep.1, ""@);
}

/// A block of requirements that is written is read back: exactly its
/// dependencies, in order.
pub proof fn law_block_reads_back(deps: Seq<(Text, Text)>)
    requires
        forall|i: int| 0 <= i < deps.len() ==> writable((#[trigger] deps[i]).0, deps[i].1),
    ensures
        go_deps(block_lines(deps)) == deps,
        in_block_after(block_lines(deps)),
        go_deps(block_lines(deps).push(")"@)) == deps,
        !in_block_after(block_lines(deps).push(")"@)),
    decreases deps.len(),
{
    reveal_strlit("require (");
    reveal_strlit(")");
    reveal_strlit("//");
    reveal_strlit("module ");
    reveal_strlit("go ");
    let all = block_lines(deps);
    if deps.len() == 0 {
        let open = "require ("@;
        assert(all =~= seq![open]);
        assert(all.drop_last() =~= Seq::<Text>::empty());
        assert(skip_space(open, 0) == 0);
        assert(open[8] == '(');
        assert(back_space(open, 9) == 9);
        assert(open.subrange(0, 9) =~= open);
        assert(trimmed(open) == open);
        lemma_bracket_is_not_idle();
        assert(all.last() == open);
        assert(go_deps(all.drop_last()) =~= Seq::<(Text, Text)>::empty());
        assert(dep_in(open, false) is None);
        assert(go_deps(all) == go_deps(all.drop_last()));
        assert(go_deps(all) =~= deps);
    } else {
        let init = deps.drop_last();
        assert forall|i: int| 0 <= i < init.len() implies writable(
            (#[trigger] init[i]).0,
            init[i].1,
        ) by {
            assert(init[i] == deps[i]);
        }
        law_block_reads_back(init);
        assert(all.drop_last() =~= block_lines(init));
        assert(deps[deps.len() - 1] == deps.last());
        assert(all.last() == block_line(deps.last()));
        lemma_trimmed_line(deps.last());
        lemma_line_in_block(deps.last());
        assert(go_deps(all) =~= deps);
    }
    let close = ")"@;
    let whole = all.push(close);
    assert(whole.drop_last() =~= all);
    assert(skip_space(close, 0) == 0);
    assert(back_space(close, 1) == 1);
    assert(close.subrange(0, 1) =~= close);
    assert(trimmed(close) == close);
    lemma_bracket_is_not_idle();
}

proof fn lemma_bracket_is_not_idle()
    ensures
        !idle("require ("@),
        !idle(")"@),
        "require ("@ != ")"@,
{
    reveal_strlit("require (");
    reveal_strlit(")");
    reveal_strlit("//");
    reveal_strlit("module ");
    reveal_strlit("go ");
    let open = "require ("@;
    if begins(open, "//"@) {
        assert(open.subrange(0, 2)[0] == 'r');
    }
    if begins(open, "module "@) {
        assert(open.subrange(0, 7)[0] == 'r');
    }
    if begins(open, "go "@) {
        assert(open.subrange(0, 3)[0] == 'r');
    }
    assert(open.len() != ")"@.len());
}

/// Of two scans for records of the same modules, as they were fetched, on the
/// same day, one of all and one of those worth a look: both report the same
/// summary, and the packages of the second are exactly those of the first
/// that are stale, inactive, dead or unknown or have vulnerabilities.
pub proof fn law_stale_narrows_the_packages(opts: Options, deps: Seq<GoScan>, today: i32)
    requires
        opts.records(),
    ensures
        ({
            let all = go_outcomes(with_stale(opts, false), deps, today);
            let few = go_outcomes(with_stale(opts, true), deps, today);
            &&& tally(few) == tally(all)
            &&& records(all).len() == deps.len()
            &&& records(few) == only_worth_a_look(records(all))
        }),
{
    let all = go_outcomes(with_stale(opts, false), deps, today);
    let few = go_outcomes(with_stale(opts, true), deps, today);
    assert forall|i: int| 0 <= i < all.len() implies narrows(#[trigger] few[i], all[i]) by {
        let s = deps[i];
        match s.fetched {
            Ok(proxy) => {
                law_found_narrows(
                    opts,
                    module_health(s, proxy, today),
                    None,
                    go_record(s, today),
                    go_line(with_stale(opts, true), s, proxy, today),
                    go_line(with_stale(opts, false), s, proxy, today),
                );
            },
            Err(e) => {},
        }
    }
    law_two_scans(Ecosystem::Go, opts, few, all);
}

/// A line that is empty, a comment, the name of the module or the version of
/// the language changes nothing, wherever it stands.
pub proof fn law_idle_line_changes_nothing(before: Seq<Text>, line: Text, after: Seq<Text>)
    requires
        idle(trimmed(line)),
    ensures
        go_deps(before.push(line) + after) == go_deps(before + after),
        in_block_after(before.push(line) + after) == in_block_after(before + after),
    decreases after.len(),
{
    let with = before.push(line) + after;
    let without = before + after;
    if after.len() == 0 {
        assert(with =~= before.push(line));
        assert(without =~= before);
        assert(before.push(line).drop_last() =~= before);
    } else {
        law_idle_line_changes_nothing(before, line, after.drop_last());
        assert(with.drop_last() =~= before.push(line) + after.drop_last());
        assert(without.drop_last() =~= before + after.drop_last());
    }
}

} // verus!
