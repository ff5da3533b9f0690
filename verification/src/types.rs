//! What a scan is made of: the health of a package, its vulnerabilities, its
//! result, and the summary over all packages.

pub use crate::clock::{days_since_date_prefix, days_since_unix};
use crate::text::{same, Text};
use vstd::prelude::*;

verus! {

// ── Health ───────────────────────────────────────────────────────────

/// The health of a package.
#[derive(Clone, Copy, Debug, PartialEq, Eq, Structural)]
pub enum Health {
    Healthy,
    Warning,
    Hijack,
    Inactive,
    Dead,
    Unknown,
}

impl Health {
    /// The sign that stands for this health on the terminal.
    pub open spec fn emoji(self) -> Text {
        match self {
            Health::Healthy => "✅"@,
            Health::Warning => "⚠️"@,
            Health::Hijack => "🚩"@,
            Health::Inactive => "🔴"@,
            Health::Dead => "🪦"@,
            Health::Unknown => "❓"@,
        }
    }

    /// The word that stands for this health in data.
    pub open spec fn word(self) -> Text {
        match self {
            Health::Healthy => "healthy"@,
            Health::Warning => "warning"@,
            Health::Hijack => "hijack"@,
            Health::Inactive => "inactive"@,
            Health::Dead => "dead"@,
            Health::Unknown => "unknown"@,
        }
    }

    /// The sign that stands for this health on the terminal.
    pub fn sign(self) -> (r: &'static str)
        ensures
            r@ == self.emoji(),
    {
        match self {
            Health::Healthy => "✅",
            Health::Warning => "⚠️",
            Health::Hijack => "🚩",
            Health::Inactive => "🔴",
            Health::Dead => "🪦",
            Health::Unknown => "❓",
        }
    }

    /// The word that stands for this health in data.
    pub fn name(self) -> (r: &'static str)
        ensures
            r@ == self.word(),
    {
        match self {
            Health::Healthy => "healthy",
            Health::Warning => "warning",
            Health::Hijack => "hijack",
            Health::Inactive => "inactive",
            Health::Dead => "dead",
            Health::Unknown => "unknown",
        }
    }
}

/// The health that the sign `e` stands for; unknown for any other text.
pub open spec fn of_emoji(e: Text) -> Health {
    if e == "✅"@ {
        Health::Healthy
    } else if e == "⚠️"@ {
        Health::Warning
    } else if e == "🚩"@ {
        Health::Hijack
    } else if e == "🔴"@ {
        Health::Inactive
    } else if e == "🪦"@ {
        Health::Dead
    } else {
        Health::Unknown
    }
}

/// The health that the word `w` stands for; unknown for any other text.
pub open spec fn of_word(w: Text) -> Health {
    if w == "healthy"@ {
        Health::Healthy
    } else if w == "warning"@ {
        Health::Warning
    } else if w == "hijack"@ {
        Health::Hijack
    } else if w == "inactive"@ {
        Health::Inactive
    } else if w == "dead"@ {
        Health::Dead
    } else {
        Health::Unknown
    }
}

/// The health of something that was last touched `days` days ago: dead
/// beyond two years, inactive beyond one, a warning beyond half a year.
pub open spec fn score(days: int) -> Health {
    if days > 730 {
        Health::Dead
    } else if days > 365 {
        Health::Inactive
    } else if days > 180 {
        Health::Warning
    } else {
        Health::Healthy
    }
}

/// How far a score is from healthy.
pub open spec fn severity(h: Health) -> int {
    match h {
        Health::Dead => 3,
        Health::Inactive => 2,
        Health::Warning => 1,
        _ => 0,
    }
}

/// The health that the sign `emoji` stands for; unknown for any other text.
pub fn health_of_sign(emoji: &str) -> (r: Health)
    ensures
        r == of_emoji(emoji@),
{
    if same(emoji, "✅") {
        Health::Healthy
    } else if same(emoji, "⚠️") {
        Health::Warning
    } else if same(emoji, "🚩") {
        Health::Hijack
    } else if same(emoji, "🔴") {
        Health::Inactive
    } else if same(emoji, "🪦") {
        Health::Dead
    } else {
        Health::Unknown
    }
}

/// The health that the word `w` stands for; unknown for any other text.
pub fn health_of_word(w: &str) -> (r: Health)
    ensures
        r == of_word(w@),
{
    if same(w, "healthy") {
        Health::Healthy
    } else if same(w, "warning") {
        Health::Warning
    } else if same(w, "hijack") {
        Health::Hijack
    } else if same(w, "inactive") {
        Health::Inactive
    } else if same(w, "dead") {
        Health::Dead
    } else {
        Health::Unknown
    }
}

/// Normalized health status string (not emoji).
pub fn health_to_string(emoji: &str) -> (r: String)
    ensures
        r@ == of_emoji(emoji@).word(),
{
    health_of_sign(emoji).name().to_owned()
}

/// The health of something that was last touched `days` days ago.
pub fn grade(days: i64) -> (r: Health)
    ensures
        r == score(days as int),
{
    if days > 730 {
        Health::Dead
    } else if days > 365 {
        Health::Inactive
    } else if days > 180 {
        Health::Warning
    } else {
        Health::Healthy
    }
}

/// Map day count to health emoji using shared thresholds.
pub fn score_from_days(days: i64) -> (r: &'static str)
    ensures
        r@ == score(days as int).emoji(),
{
    grade(days).sign()
}

/// The six signs are different texts, and each stands for its own health.
pub proof fn lemma_signs(h: Health)
    ensures
        of_emoji(h.emoji()) == h,
{
    reveal_strlit("✅");
    reveal_strlit("⚠️");
    reveal_strlit("🚩");
    reveal_strlit("🔴");
    reveal_strlit("🪦");
    reveal_strlit("❓");
    assert("✅"@[0] == '✅');
    assert("⚠️"@.len() == 2);
    assert("🚩"@[0] == '🚩');
    assert("🔴"@[0] == '🔴');
    assert("🪦"@[0] == '🪦');
    assert("❓"@[0] == '❓');
}

/// The six words are different texts, and each stands for its own health.
pub proof fn lemma_words(h: Health)
    ensures
        of_word(h.word()) == h,
{
    reveal_strlit("healthy");
    reveal_strlit("warning");
    reveal_strlit("hijack");
    reveal_strlit("inactive");
    reveal_strlit("dead");
    reveal_strlit("unknown");
    assert("healthy"@[0] == 'h');
    assert("warning"@[0] == 'w');
    assert("hijack"@.len() == 6);
    assert("inactive"@.len() == 8);
    assert("dead"@.len() == 4);
    assert("unknown"@[0] == 'u');
}

// ── Results ──────────────────────────────────────────────────────────

/// A known vulnerability.
#[derive(Debug)]
pub struct VulnInfo {
    pub id: String,
    pub summary: Option<String>,
    pub severity: Option<String>,
    pub aliases: Vec<String>,
}

/// What a `VulnInfo` holds.
pub struct VulnView {
    pub id: Text,
    pub summary: Option<Text>,
    pub severity: Option<Text>,
    pub aliases: Seq<Text>,
}

impl DeepView for VulnInfo {
    type V = VulnView;

    open spec fn deep_view(&self) -> VulnView {
        VulnView {
            id: self.id@,
            summary: self.summary.deep_view(),
            severity: self.severity.deep_view(),
            aliases: self.aliases.deep_view(),
        }
    }
}

/// What a scan found out about a package.
#[derive(Debug)]
pub struct PackageResult {
    pub name: String,
    pub version: String,
    pub health: String,
    pub description: Option<String>,
    pub latest_version: Option<String>,
    pub stale_reason: Option<String>,
    pub vulns: Vec<VulnInfo>,
    pub provenance: Option<String>,
}

/// What a `PackageResult` holds.
pub struct PackageView {
    pub name: Text,
    pub version: Text,
    pub health: Text,
    pub description: Option<Text>,
    pub latest_version: Option<Text>,
    pub stale_reason: Option<Text>,
    pub vulns: Seq<VulnView>,
    pub provenance: Option<Text>,
}

impl DeepView for PackageResult {
    type V = PackageView;

    open spec fn deep_view(&self) -> PackageView {
        PackageView {
            name: self.name@,
            version: self.version@,
            health: self.health@,
            description: self.description.deep_view(),
            latest_version: self.latest_version.deep_view(),
            stale_reason: self.stale_reason.deep_view(),
            vulns: self.vulns.deep_view(),
            provenance: self.provenance.deep_view(),
        }
    }
}

/// A copy of an optional text.
pub fn copy_text(s: &Option<String>) -> (r: Option<String>)
    ensures
        r.deep_view() == s.deep_view(),
{
    match s {
        Some(t) => Some(t.clone()),
        None => None,
    }
}

/// A copy of a list of texts.
pub fn copy_texts(v: &Vec<String>) -> (r: Vec<String>)
    ensures
        r.deep_view() == v.deep_view(),
{
    let mut out: Vec<String> = Vec::new();
    let mut i: usize = 0;
    while i < v.len()
        invariant
            i <= v.len(),
            out.deep_view() == v.deep_view().take(i as int),
        decreases v.len() - i,
    {
        let ghost before = out.deep_view();
        out.push(v[i].clone());
        assert(out.deep_view() =~= before.push(v[i as int]@));
        assert(v.deep_view().take(i + 1) =~= v.deep_view().take(i as int).push(v[i as int]@));
        i = i + 1;
    }
    assert(v.deep_view().take(v.len() as int) =~= v.deep_view());
    out
}

impl Clone for VulnInfo {
    fn clone(&self) -> (r: Self)
        ensures
            r.deep_view() == self.deep_view(),
    {
        VulnInfo {
            id: self.id.clone(),
            summary: copy_text(&self.summary),
            severity: copy_text(&self.severity),
            aliases: copy_texts(&self.aliases),
        }
    }
}

/// A copy of a list of vulnerabilities.
pub fn copy_vulns(v: &Vec<VulnInfo>) -> (r: Vec<VulnInfo>)
    ensures
        r.deep_view() == v.deep_view(),
{
    let mut out: Vec<VulnInfo> = Vec::new();
    let mut i: usize = 0;
    while i < v.len()
        invariant
            i <= v.len(),
            out.deep_view() == v.deep_view().take(i as int),
        decreases v.len() - i,
    {
        let ghost before = out.deep_view();
        out.push(v[i].clone());
        assert(out.deep_view() =~= before.push(v[i as int].deep_view()));
        assert(v.deep_view().take(i + 1) =~= v.deep_view().take(i as int).push(
            v[i as int].deep_view(),
        ));
        i = i + 1;
    }
    assert(v.deep_view().take(v.len() as int) =~= v.deep_view());
    out
}

impl Clone for PackageResult {
    fn clone(&self) -> (r: Self)
        ensures
            r.deep_view() == self.deep_view(),
    {
        PackageResult {
            name: self.name.clone(),
            version: self.version.clone(),
            health: self.health.clone(),
            description: copy_text(&self.description),
            latest_version: copy_text(&self.latest_version),
            stale_reason: copy_text(&self.stale_reason),
            vulns: copy_vulns(&self.vulns),
            provenance: copy_text(&self.provenance),
        }
    }
}

/// How many packages a scan found in each state of health, and how many
/// vulnerabilities.
#[derive(Clone, Copy, Debug, PartialEq, Eq, Structural)]
pub struct Summary {
    pub healthy: u32,
    pub warning: u32,
    pub hijack: u32,
    pub inactive: u32,
    pub dead: u32,
    pub unknown: u32,
    pub cves: u32,
}

impl Summary {
    /// No package and no vulnerability yet.
    pub fn new() -> (r: Self)
        ensures
            r == (Summary {
                healthy: 0,
                warning: 0,
                hijack: 0,
                inactive: 0,
                dead: 0,
                unknown: 0,
                cves: 0,
            }),
    {
        Summary { healthy: 0, warning: 0, hijack: 0, inactive: 0, dead: 0, unknown: 0, cves: 0 }
    }
}

/// Everything that a scan puts out.
#[derive(Debug)]
pub struct ScanOutput {
    pub ecosystem: String,
    pub packages: Vec<PackageResult>,
    pub summary: Summary,
}

/// What a `ScanOutput` holds.
pub struct ScanView {
    pub ecosystem: Text,
    pub packages: Seq<PackageView>,
    pub summary: Summary,
}

impl DeepView for ScanOutput {
    type V = ScanView;

    open spec fn deep_view(&self) -> ScanView {
        ScanView {
            ecosystem: self.ecosystem@,
            packages: self.packages.deep_view(),
            summary: self.summary,
        }
    }
}

} // verus!
