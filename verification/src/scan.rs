//! A scan: what each package contributes to it, and what comes out of it.

use crate::display::{
    color_of, health_color, is_stale, law_stale_signs, stale_sign, GRAY, RED, RESET, YELLOW,
};
use crate::render::{add_line, decimal, join, joined, number, signed, signed_number};
use crate::text::{
    head_before, in_order, lemma_order_total, lemma_order_transitive, not_after, pieces, same, Text,
};
use crate::types::{lemma_signs, lemma_words, Health, PackageResult, PackageView, VulnInfo, VulnView};
use vstd::prelude::*;

verus! {

// ── Options ──────────────────────────────────────────────────────────

/// What was asked for.
#[derive(Clone, Copy, Debug, PartialEq, Eq, Structural)]
pub struct Options {
    /// Only packages that are worth a look.
    pub stale_only: bool,
    /// JSON in place of text.
    pub output_json: bool,
    /// Fail if anything is dead or has vulnerabilities.
    pub ci: bool,
    /// A breakdown of the licenses.
    pub licenses: bool,
    /// Packages whose data could not be had, one by one.
    pub verbose: bool,
    /// A bill of materials in place of text.
    pub sbom: bool,
}

impl Options {
    /// Whether records of packages are put out, and no text.
    pub open spec fn records(self) -> bool {
        self.output_json || self.sbom
    }

    /// Whether records of packages are put out, and no text.
    pub fn wants_records(self) -> (r: bool)
        ensures
            r == self.records(),
    {
        self.output_json || self.sbom
    }
}

// ── Vulnerabilities ──────────────────────────────────────────────────

/// The name under which a vulnerability is shown: its first alias, else its
/// own.
pub open spec fn shown_id(v: VulnView) -> Text {
    if v.aliases.len() > 0 {
        v.aliases[0]
    } else {
        v.id
    }
}

/// The names of the first three vulnerabilities.
pub open spec fn shown_ids(vulns: Seq<VulnView>) -> Seq<Text> {
    let n = if vulns.len() < 3 {
        vulns.len() as int
    } else {
        3
    };
    Seq::new(n as nat, |i: int| shown_id(vulns[i]))
}

/// The severity that comes last in the order of texts, of those that are
/// known.
pub open spec fn last_severity(vulns: Seq<VulnView>) -> Option<Text>
    decreases vulns.len(),
{
    if vulns.len() == 0 {
        None
    } else {
        match (last_severity(vulns.drop_last()), vulns.last().severity) {
            (Some(a), Some(b)) => if not_after(a, b) {
                Some(b)
            } else {
                Some(a)
            },
            (None, b) => b,
            (a, None) => a,
        }
    }
}

/// The color in which a severity is shown.
pub open spec fn alarm_color(severity: Option<Text>) -> Text {
    match severity {
        Some(s) => if s == "CRITICAL"@ || s == "HIGH"@ {
            RED@
        } else if s == "MODERATE"@ || s == "MEDIUM"@ {
            YELLOW@
        } else {
            GRAY@
        },
        None => GRAY@,
    }
}

/// What is said of the vulnerabilities of a package, on a line of its own.
pub open spec fn alarm(vulns: Seq<VulnView>) -> Text {
    if vulns.len() == 0 {
        ""@
    } else {
        "\n   "@ + alarm_color(last_severity(vulns)) + "🚨 "@ + decimal(vulns.len()) + " CVE"@ + (
        if vulns.len() == 1 {
            ""@
        } else {
            "s"@
        }) + ": "@ + joined(shown_ids(vulns), ", "@) + (if vulns.len() > 3 {
            ", ..."@
        } else {
            ""@
        }) + RESET@
    }
}

/// The name under which a vulnerability is shown.
fn id_to_show(v: &VulnInfo) -> (r: String)
    ensures
        r@ == shown_id(v.deep_view()),
{
    if v.aliases.len() > 0 {
        assert(v.deep_view().aliases[0] == v.aliases[0]@);
        v.aliases[0].clone()
    } else {
        v.id.clone()
    }
}

/// The names of the first three vulnerabilities.
pub fn ids_to_show(vulns: &Vec<VulnInfo>) -> (r: Vec<String>)
    ensures
        r.deep_view() == shown_ids(vulns.deep_view()),
{
    let mut out: Vec<String> = Vec::new();
    let mut i: usize = 0;
    while i < vulns.len() && i < 3
        invariant
            i <= vulns.len(),
            i <= 3,
            out.deep_view() == Seq::new(i as nat, |k: int| shown_id(vulns.deep_view()[k])),
        decreases vulns.len() - i,
    {
        let ghost before = out.deep_view();
        add_line(&mut out, id_to_show(&vulns[i]));
        assert(vulns.deep_view()[i as int] == vulns[i as int].deep_view());
        assert(out.deep_view() =~= Seq::new(
            (i + 1) as nat,
            |k: int| shown_id(vulns.deep_view()[k]),
        ));
        i = i + 1;
    }
    out
}

/// The severity that comes last in the order of texts, of those that are
/// known.
fn severity_to_show(vulns: &Vec<VulnInfo>) -> (r: Option<&String>)
    ensures
        r.deep_view() == last_severity(vulns.deep_view()),
{
    let mut worst: Option<&String> = None;
    let mut i: usize = 0;
    assert(vulns.deep_view().take(0) =~= Seq::empty());
    while i < vulns.len()
        invariant
            i <= vulns.len(),
            worst.deep_view() == last_severity(vulns.deep_view().take(i as int)),
        decreases vulns.len() - i,
    {
        proof {
            let next = vulns.deep_view().take(i + 1);
            assert(next.drop_last() =~= vulns.deep_view().take(i as int));
            assert(next.last() == vulns[i as int].deep_view());
        }
        if let Some(s) = &vulns[i].severity {
            worst = match worst {
                Some(w) => if in_order(w.as_str(), s.as_str()) {
                    Some(s)
                } else {
                    Some(w)
                },
                None => Some(s),
            };
        }
        i = i + 1;
    }
    assert(vulns.deep_view().take(vulns.len() as int) =~= vulns.deep_view());
    worst
}

/// What is said of the vulnerabilities of a package, on a line of its own.
pub fn alarm_text(vulns: &Vec<VulnInfo>) -> (r: String)
    ensures
        r@ == alarm(vulns.deep_view()),
{
    if vulns.len() == 0 {
        return "".to_owned();
    }
    let ids = ids_to_show(vulns);
    let color = match severity_to_show(vulns) {
        Some(s) => if same(s.as_str(), "CRITICAL") || same(s.as_str(), "HIGH") {
            RED
        } else if same(s.as_str(), "MODERATE") || same(s.as_str(), "MEDIUM") {
            YELLOW
        } else {
            GRAY
        },
        None => GRAY,
    };
    let mut text = "\n   ".to_owned();
    text.append(color);
    text.append("🚨 ");
    text.append(number(vulns.len() as u64).as_str());
    text.append(" CVE");
    text.append(if vulns.len() == 1 {
        ""
    } else {
        "s"
    });
    text.append(": ");
    text.append(join(&ids, ", ").as_str());
    text.append(if vulns.len() > 3 {
        ", ..."
    } else {
        ""
    });
    text.append(RESET);
    text
}

// ── Parts of a line ──────────────────────────────────────────────────

/// The sign of a package's health, its name and its version.
pub open spec fn heading(health: Health, name: Text, version: Text) -> Text {
    color_of(health) + health.emoji() + RESET@ + " "@ + name + " v"@ + version
}

/// The reason for a package's health, on a line of its own, where only
/// packages worth a look are asked for.
pub open spec fn reason_note(opts: Options, reason: Option<Text>) -> Text {
    match reason {
        Some(r) => if opts.stale_only {
            "\n   "@ + GRAY@ + "└─ "@ + r + RESET@
        } else {
            ""@
        },
        None => ""@,
    }
}

/// How long ago something was.
pub open spec fn ago(days: i64) -> Text {
    " "@ + GRAY@ + "— "@ + signed(days as int) + " days ago"@ + RESET@
}

/// How long ago the last release was, else the last commit, for a package
/// that has been quiet for too long.
pub open spec fn age_note(health: Health, release: Option<i64>, commit: Option<i64>) -> Text {
    if health == Health::Warning || health == Health::Inactive || health == Health::Dead {
        match (release, commit) {
            (Some(d), _) => ago(d),
            (None, Some(c)) => ago(c),
            (None, None) => ""@,
        }
    } else {
        ""@
    }
}

/// What stands in a description before the first period; `default` stands
/// for a description that is missing.
pub open spec fn first_sentence(description: Option<Text>, default: Text) -> Text {
    match description {
        Some(d) => pieces(d, "."@)[0],
        None => default,
    }
}

/// `text`, or a hint that there is none.
pub open spec fn or_none_given(text: Text) -> Text {
    if text.len() == 0 {
        "no description"@
    } else {
        text
    }
}

/// The sign of a package's health, its name and its version.
pub fn heading_text(health: Health, name: &str, version: &str) -> (r: String)
    ensures
        r@ == heading(health, name@, version@),
{
    proof {
        lemma_signs(health);
    }
    let mut text = health_color(health.sign()).to_owned();
    text.append(health.sign());
    text.append(RESET);
    text.append(" ");
    text.append(name);
    text.append(" v");
    text.append(version);
    text
}

/// The reason for a package's health, on a line of its own.
pub fn reason_text(opts: Options, reason: &Option<String>) -> (r: String)
    ensures
        r@ == reason_note(opts, reason.deep_view()),
{
    match reason {
        Some(why) => {
            if opts.stale_only {
                let mut text = "\n   ".to_owned();
                text.append(GRAY);
                text.append("└─ ");
                text.append(why.as_str());
                text.append(RESET);
                text
            } else {
                "".to_owned()
            }
        },
        None => "".to_owned(),
    }
}

/// How long ago something was.
fn ago_text(days: i64) -> (r: String)
    ensures
        r@ == ago(days),
{
    let mut text = " ".to_owned();
    text.append(GRAY);
    text.append("— ");
    text.append(signed_number(days).as_str());
    text.append(" days ago");
    text.append(RESET);
    text
}

/// How long ago the last release was, else the last commit, for a package
/// that has been quiet for too long.
pub fn age_text(health: Health, release: Option<i64>, commit: Option<i64>) -> (r: String)
    ensures
        r@ == age_note(health, release, commit),
{
    if health == Health::Warning || health == Health::Inactive || health == Health::Dead {
        match release {
            Some(d) => ago_text(d),
            None => match commit {
                Some(c) => ago_text(c),
                None => "".to_owned(),
            },
        }
    } else {
        "".to_owned()
    }
}

/// What stands in a description before the first period; `default` stands
/// for a description that is missing.
pub fn opening(description: &Option<String>, default: &str) -> (r: String)
    ensures
        r@ == first_sentence(description.deep_view(), default@),
{
    match description {
        Some(d) => {
            proof {
                reveal_strlit(".");
            }
            head_before(d.as_str(), ".")
        },
        None => default.to_owned(),
    }
}

/// `text`, or a hint that there is none.
pub fn or_hint(text: String) -> (r: String)
    ensures
        r@ == or_none_given(text@),
{
    if text.as_str().is_empty() {
        "no description".to_owned()
    } else {
        text
    }
}

// ── What one package contributes ─────────────────────────────────────

/// What one package contributes to a scan.
#[derive(Debug)]
pub struct Outcome {
    /// The health under which it is counted.
    pub health: Health,
    /// How many vulnerabilities it has.
    pub cves: usize,
    /// The license under which it is counted.
    pub license: Option<String>,
    /// Its record.
    pub result: Option<PackageResult>,
    /// Its line of text.
    pub line: Option<String>,
}

/// What an `Outcome` holds.
pub struct OutcomeView {
    pub health: Health,
    pub cves: nat,
    pub license: Option<Text>,
    pub result: Option<PackageView>,
    pub line: Option<Text>,
}

impl DeepView for Outcome {
    type V = OutcomeView;

    open spec fn deep_view(&self) -> OutcomeView {
        OutcomeView {
            health: self.health,
            cves: self.cves as nat,
            license: self.license.deep_view(),
            result: self.result.deep_view(),
            line: self.line.deep_view(),
        }
    }
}

/// Whether a package is shown: every one, or those worth a look and those
/// with vulnerabilities.
pub open spec fn shown(opts: Options, health: Health, cves: nat) -> bool {
    !opts.stale_only || stale_sign(health.emoji()) || cves > 0
}

/// The license under which a package is counted, where licenses are.
pub open spec fn counted_license(opts: Options, license: Option<Text>) -> Option<Text> {
    if !opts.licenses {
        None
    } else {
        match license {
            Some(l) => Some(l),
            None => Some("Unknown"@),
        }
    }
}

/// What a package whose data could be had contributes.
pub open spec fn found(
    opts: Options,
    health: Health,
    license: Option<Text>,
    package: PackageView,
    line: Text,
) -> OutcomeView {
    let show = shown(opts, health, package.vulns.len());
    OutcomeView {
        health,
        cves: package.vulns.len(),
        license,
        result: if show && opts.records() {
            Some(package)
        } else {
            None
        },
        line: if show && !opts.records() {
            Some(line)
        } else {
            None
        },
    }
}

/// The record of a package whose data could not be had.
pub open spec fn unknown_package(name: Text, version: Text, error: Text) -> PackageView {
    PackageView {
        name,
        version,
        health: "unknown"@,
        description: None,
        latest_version: None,
        stale_reason: Some(error),
        vulns: Seq::empty(),
        provenance: None,
    }
}

/// What a package whose data could not be had contributes: its record, or a
/// line, unless only packages worth a look are asked for.
pub open spec fn missing(opts: Options, package: PackageView, line: Text) -> OutcomeView {
    OutcomeView {
        health: Health::Unknown,
        cves: 0,
        license: None,
        result: if opts.records() {
            Some(package)
        } else {
            None
        },
        line: if !opts.records() && !opts.stale_only {
            Some(line)
        } else {
            None
        },
    }
}

/// What a package of a registry contributes whose data could not be had.
pub open spec fn failed(opts: Options, name: Text, version: Text, error: Text) -> OutcomeView {
    missing(
        opts,
        unknown_package(name, version, error),
        GRAY@ + "❓ "@ + name + " v"@ + version + " — fetch failed: "@ + error + RESET@,
    )
}

/// Whether a package is shown.
pub fn is_shown(opts: Options, health: Health, cves: usize) -> (r: bool)
    ensures
        r == shown(opts, health, cves as nat),
{
    !opts.stale_only || is_stale(health.sign()) || cves > 0
}

/// The license under which a package is counted, where licenses are.
pub fn track_license(opts: Options, license: &Option<String>) -> (r: Option<String>)
    ensures
        r.deep_view() == counted_license(opts, license.deep_view()),
{
    if !opts.licenses {
        return None;
    }
    match license {
        Some(l) => Some(l.clone()),
        None => Some("Unknown".to_owned()),
    }
}

/// What a package whose data could be had contributes.
pub fn package_found(
    opts: Options,
    health: Health,
    license: Option<String>,
    package: PackageResult,
    line: String,
) -> (r: Outcome)
    ensures
        r.deep_view() == found(
            opts,
            health,
            license.deep_view(),
            package.deep_view(),
            line@,
        ),
{
    let cves = package.vulns.len();
    let show = is_shown(opts, health, cves);
    if !show {
        Outcome { health, cves, license, result: None, line: None }
    } else if opts.wants_records() {
        Outcome { health, cves, license, result: Some(package), line: None }
    } else {
        Outcome { health, cves, license, result: None, line: Some(line) }
    }
}

/// The record of a package whose data could not be had.
pub fn unknown_record(name: &str, version: &str, error: &str) -> (r: PackageResult)
    ensures
        r.deep_view() == unknown_package(name@, version@, error@),
{
    let vulns: Vec<VulnInfo> = Vec::new();
    assert(vulns.deep_view() =~= Seq::empty());
    PackageResult {
        name: name.to_owned(),
        version: version.to_owned(),
        health: "unknown".to_owned(),
        description: None,
        latest_version: None,
        stale_reason: Some(error.to_owned()),
        vulns,
        provenance: None,
    }
}

/// What a package whose data could not be had contributes.
pub fn package_missing(opts: Options, package: PackageResult, line: String) -> (r: Outcome)
    ensures
        r.deep_view() == missing(opts, package.deep_view(), line@),
{
    let health = Health::Unknown;
    if opts.wants_records() {
        Outcome { health, cves: 0, license: None, result: Some(package), line: None }
    } else if !opts.stale_only {
        Outcome { health, cves: 0, license: None, result: None, line: Some(line) }
    } else {
        Outcome { health, cves: 0, license: None, result: None, line: None }
    }
}

/// What a package of a registry contributes whose data could not be had.
pub fn fetch_failed(opts: Options, name: &str, version: &str, error: &str) -> (r: Outcome)
    ensures
        r.deep_view() == failed(opts, name@, version@, error@),
{
    let mut line = GRAY.to_owned();
    line.append("❓ ");
    line.append(name);
    line.append(" v");
    line.append(version);
    line.append(" — fetch failed: ");
    line.append(error);
    line.append(RESET);
    package_missing(opts, unknown_record(name, version, error), line)
}

// ── Laws ─────────────────────────────────────────────────────────────

/// Where only packages worth a look are asked for, exactly those are left out
/// that are sound, or only at risk of a hijack, and have no vulnerabilities;
/// otherwise none is.
pub proof fn law_only_sound_packages_are_left_out(
    opts: Options,
    health: Health,
    license: Option<Text>,
    package: PackageView,
    line: Text,
)
    ensures
        ({
            let o = found(opts, health, license, package, line);
            o.result is None && o.line is None <==> opts.stale_only && package.vulns.len() == 0 && (
            health == Health::Healthy || health == Health::Hijack)
        }),
{
    law_stale_signs(health);
}

/// A package puts out a record or a line, never both, and it is counted
/// whether or not it is shown.
pub proof fn law_record_or_line(
    opts: Options,
    health: Health,
    license: Option<Text>,
    package: PackageView,
    line: Text,
)
    ensures
        ({
            let o = found(opts, health, license, package, line);
            &&& o.result is None || o.line is None
            &&& o.health == health
            &&& o.cves == package.vulns.len()
        }),
        ({
            let o = missing(opts, package, line);
            &&& o.result is None || o.line is None
            &&& o.health == Health::Unknown
        }),
{
}

/// The severity that gives the color is one of those of the vulnerabilities,
/// and none of them comes after it; there is none only where no vulnerability
/// has one.
pub proof fn law_last_severity(vulns: Seq<VulnView>)
    ensures
        match last_severity(vulns) {
            Some(m) => {
                &&& exists|i: int| 0 <= i < vulns.len() && (#[trigger] vulns[i]).severity == Some(m)
                &&& forall|i: int|
                    0 <= i < vulns.len() && (#[trigger] vulns[i]).severity is Some ==> not_after(
                        vulns[i].severity->0,
                        m,
                    )
            },
            None => forall|i: int|
                0 <= i < vulns.len() ==> (#[trigger] vulns[i]).severity is None,
        },
    decreases vulns.len(),
{
    if vulns.len() > 0 {
        let init = vulns.drop_last();
        let n = vulns.len() - 1;
        law_last_severity(init);
        assert(vulns[n] == vulns.last());
        assert forall|i: int| 0 <= i < n implies #[trigger] vulns[i] == init[i] by {}
        match last_severity(init) {
            Some(a) => {
                let k = choose|k: int|
                    0 <= k < init.len() && (#[trigger] init[k]).severity == Some(a);
                assert(vulns[k].severity == Some(a));
                if vulns.last().severity is Some {
                    let b = vulns.last().severity->0;
                    lemma_order_total(a, b, 0);
                    lemma_order_total(b, b, 0);
                    let m = last_severity(vulns)->0;
                    assert forall|i: int|
                        0 <= i < vulns.len() && (#[trigger] vulns[i]).severity is Some
                        implies not_after(vulns[i].severity->0, m) by {
                        if i < n && m == b {
                            assert(not_after(init[i].severity->0, a));
                            lemma_order_transitive(vulns[i].severity->0, a, b, 0);
                        }
                    }
                }
            },
            None => {
                if vulns.last().severity is Some {
                    let b = vulns.last().severity->0;
                    lemma_order_total(b, b, 0);
                }
            },
        }
    }
}

/// A record of a package that is worth a look: stale, inactive, dead or
/// unknown, or with vulnerabilities.
pub open spec fn worth_a_look(p: PackageView) -> bool {
    p.health == "warning"@ || p.health == "inactive"@ || p.health == "dead"@ || p.health
        == "unknown"@ || p.vulns.len() > 0
}

/// What a package contributes where only packages worth a look are asked for,
/// `few`, beside what it contributes where all are, `all`: it counts for the
/// same, and its record is left out unless it is worth a look.
pub open spec fn narrows(few: OutcomeView, all: OutcomeView) -> bool {
    &&& few.health == all.health
    &&& few.cves == all.cves
    &&& all.result matches Some(p) && all.cves == p.vulns.len() && few.result == if worth_a_look(
        p,
    ) {
        Some(p)
    } else {
        None
    }
}

/// The options with and without the one for packages worth a look.
pub open spec fn with_stale(opts: Options, stale_only: bool) -> Options {
    Options { stale_only, ..opts }
}

/// Asking only for packages worth a look changes nothing of a package whose
/// data could be had but that its record is left out unless it is one.
pub proof fn law_found_narrows(
    opts: Options,
    health: Health,
    license: Option<Text>,
    package: PackageView,
    line: Text,
    other_line: Text,
)
    requires
        opts.records(),
        package.health == health.word(),
    ensures
        narrows(
            found(with_stale(opts, true), health, license, package, line),
            found(with_stale(opts, false), health, license, package, other_line),
        ),
{
    law_stale_signs(health);
    lemma_words(health);
    lemma_words(Health::Warning);
    lemma_words(Health::Inactive);
    lemma_words(Health::Dead);
    lemma_words(Health::Unknown);
}

/// The same of a package whose data could not be had: it is always worth a
/// look.
pub proof fn law_missing_narrows(opts: Options, package: PackageView, line: Text, other_line: Text)
    requires
        opts.records(),
        package.health == "unknown"@,
        package.vulns.len() == 0,
    ensures
        narrows(
            missing(with_stale(opts, true), package, line),
            missing(with_stale(opts, false), package, other_line),
        ),
{
}

} // verus!
