//! What comes out of a scan once every package has contributed to it.

use crate::display::{BOLD, GRAY, GREEN, RED, RESET, YELLOW};
use crate::render::{add_line, add_lines, decimal, distinct, number};
use crate::scan::{narrows, with_stale, worth_a_look, Options, Outcome, OutcomeView};
use crate::text::{same, Text};
use crate::types::{Health, PackageResult, PackageView, ScanOutput, ScanView, Summary};
use vstd::prelude::*;

verus! {

/// Where packages come from.
#[derive(Clone, Copy, Debug, PartialEq, Eq, Structural)]
pub enum Ecosystem {
    Aur,
    Cargo,
    Npm,
    Pypi,
    Go,
}

impl Ecosystem {
    /// The name of the ecosystem in records.
    pub open spec fn label(self) -> Text {
        match self {
            Ecosystem::Aur => "aur"@,
            Ecosystem::Cargo => "cargo"@,
            Ecosystem::Npm => "npm"@,
            Ecosystem::Pypi => "pypi"@,
            Ecosystem::Go => "go"@,
        }
    }

    /// Whether the lines of a scan are put in the order of health.
    pub open spec fn ordered(self) -> bool {
        self == Ecosystem::Cargo || self == Ecosystem::Npm
    }

    /// The name of the ecosystem in records.
    pub fn name(self) -> (r: &'static str)
        ensures
            r@ == self.label(),
    {
        match self {
            Ecosystem::Aur => "aur",
            Ecosystem::Cargo => "cargo",
            Ecosystem::Npm => "npm",
            Ecosystem::Pypi => "pypi",
            Ecosystem::Go => "go",
        }
    }
}

// ── Counting ─────────────────────────────────────────────────────────

/// `n` in a counter of 32 bits, which starts again from 0 when it is full.
pub open spec fn counter(n: nat) -> u32 {
    (n % 0x1_0000_0000) as u32
}

/// How many of the packages are in the given health.
pub open spec fn how_many(all: Seq<OutcomeView>, health: Health) -> nat
    decreases all.len(),
{
    if all.len() == 0 {
        0
    } else {
        how_many(all.drop_last(), health) + if all.last().health == health {
            1nat
        } else {
            0
        }
    }
}

/// How many vulnerabilities the packages have.
pub open spec fn all_cves(all: Seq<OutcomeView>) -> nat
    decreases all.len(),
{
    if all.len() == 0 {
        0
    } else {
        all_cves(all.drop_last()) + all.last().cves
    }
}

/// The packages counted by health, and their vulnerabilities.
pub open spec fn tally(all: Seq<OutcomeView>) -> Summary {
    Summary {
        healthy: counter(how_many(all, Health::Healthy)),
        warning: counter(how_many(all, Health::Warning)),
        hijack: counter(how_many(all, Health::Hijack)),
        inactive: counter(how_many(all, Health::Inactive)),
        dead: counter(how_many(all, Health::Dead)),
        unknown: counter(how_many(all, Health::Unknown)),
        cves: counter(all_cves(all)),
    }
}

proof fn lemma_counter(n: nat, m: nat)
    ensures
        counter(n + m) == (counter(n) + counter(m)) % 0x1_0000_0000,
{
}

proof fn lemma_counted(past: Seq<OutcomeView>, next: Seq<OutcomeView>, health: Health)
    requires
        next.len() > 0,
        next.drop_last() == past,
    ensures
        counter(how_many(next, health)) == (counter(how_many(past, health)) + counter(
            if next.last().health == health {
                1
            } else {
                0
            },
        )) % 0x1_0000_0000,
{
    lemma_counter(how_many(past, health), 1);
    lemma_counter(how_many(past, health), 0);
}

/// A counter with `n` added, which starts again from 0 when it is full.
fn added(c: u32, n: usize) -> (r: u32)
    ensures
        r == (c + counter(n as nat)) % 0x1_0000_0000,
{
    let low: u32 = (n as u64 % 0x1_0000_0000) as u32;
    c.wrapping_add(low)
}

/// 1 for a package in the given health, 0 for any other.
fn hit(o: &Outcome, health: Health) -> (r: usize)
    ensures
        r == if o.health == health {
            1int
        } else {
            0
        },
{
    if o.health == health {
        1
    } else {
        0
    }
}

/// The packages counted by health, and their vulnerabilities.
pub fn count(all: &Vec<Outcome>) -> (r: Summary)
    ensures
        r == tally(all.deep_view()),
{
    let mut sum = Summary::new();
    let mut i: usize = 0;
    proof {
        lemma_small_counter(0);
        lemma_small_counter(1);
    }
    assert(all.deep_view().take(0) =~= Seq::empty());
    while i < all.len()
        invariant
            i <= all.len(),
            sum == tally(all.deep_view().take(i as int)),
        decreases all.len() - i,
    {
        let o = &all[i];
        let ghost past = all.deep_view().take(i as int);
        let ghost next = all.deep_view().take(i + 1);
        assert(next.drop_last() =~= past);
        assert(next.last() == o.deep_view());
        proof {
            lemma_counted(past, next, Health::Healthy);
            lemma_counted(past, next, Health::Warning);
            lemma_counted(past, next, Health::Hijack);
            lemma_counted(past, next, Health::Inactive);
            lemma_counted(past, next, Health::Dead);
            lemma_counted(past, next, Health::Unknown);
            lemma_counter(all_cves(past), o.cves as nat);
        }
        sum =
        Summary {
            healthy: added(sum.healthy, hit(o, Health::Healthy)),
            warning: added(sum.warning, hit(o, Health::Warning)),
            hijack: added(sum.hijack, hit(o, Health::Hijack)),
            inactive: added(sum.inactive, hit(o, Health::Inactive)),
            dead: added(sum.dead, hit(o, Health::Dead)),
            unknown: added(sum.unknown, hit(o, Health::Unknown)),
            cves: added(sum.cves, o.cves),
        };
        i = i + 1;
    }
    assert(all.deep_view().take(all.len() as int) =~= all.deep_view());
    sum
}

// ── Records and lines ────────────────────────────────────────────────

/// The records of the packages that have one, in order.
pub open spec fn records(all: Seq<OutcomeView>) -> Seq<PackageView>
    decreases all.len(),
{
    if all.len() == 0 {
        Seq::empty()
    } else {
        match all.last().result {
            Some(p) => records(all.drop_last()).push(p),
            None => records(all.drop_last()),
        }
    }
}

/// The lines of the packages that have one, in order.
pub open spec fn lines(all: Seq<OutcomeView>) -> Seq<Text>
    decreases all.len(),
{
    if all.len() == 0 {
        Seq::empty()
    } else {
        match all.last().line {
            Some(l) => lines(all.drop_last()).push(l),
            None => lines(all.drop_last()),
        }
    }
}

/// The packages in the given health, in order.
pub open spec fn only(all: Seq<OutcomeView>, health: Health) -> Seq<OutcomeView>
    decreases all.len(),
{
    if all.len() == 0 {
        Seq::empty()
    } else if all.last().health == health {
        only(all.drop_last(), health).push(all.last())
    } else {
        only(all.drop_last(), health)
    }
}

/// The lines of the packages whose health is known, from the best to the
/// worst, and in order where they are in the same health.
pub open spec fn known_lines(all: Seq<OutcomeView>) -> Seq<Text> {
    lines(only(all, Health::Healthy)) + lines(only(all, Health::Warning)) + lines(
        only(all, Health::Hijack),
    ) + lines(only(all, Health::Inactive)) + lines(only(all, Health::Dead))
}

/// What is said of the packages whose health is unknown: their lines, or how
/// many they are, the latter only below the lines of others.
pub open spec fn unknown_lines(opts: Options, all: Seq<OutcomeView>) -> Seq<Text> {
    let unknown = tally(all).unknown;
    if unknown == 0 || opts.stale_only {
        Seq::empty()
    } else if opts.verbose {
        lines(only(all, Health::Unknown))
    } else if known_lines(all).len() > 0 {
        seq![
            ""@,
            GRAY@ + "❓ "@ + decimal(unknown as nat)
                + " packages failed to fetch — run with --verbose to see details"@ + RESET@,
        ]
    } else {
        Seq::empty()
    }
}

/// The lines of a scan.
pub open spec fn scan_lines(kind: Ecosystem, opts: Options, all: Seq<OutcomeView>) -> Seq<Text> {
    if kind.ordered() {
        known_lines(all) + unknown_lines(opts, all)
    } else {
        lines(all)
    }
}

/// The line that sums a scan up.
pub open spec fn summary_line(s: Summary) -> Text {
    BOLD@ + "📊 Summary:"@ + RESET@ + " "@ + GREEN@ + "✅ "@ + decimal(s.healthy as nat) + "  "@
        + YELLOW@ + "⚠️ "@ + decimal(s.warning as nat) + "  "@ + YELLOW@ + "🚩 "@ + decimal(
        s.hijack as nat,
    ) + "  "@ + RED@ + "🔴 "@ + decimal(s.inactive as nat) + "  "@ + RED@ + "🪦 "@ + decimal(
        s.dead as nat,
    ) + "  "@ + GRAY@ + "❓ "@ + decimal(s.unknown as nat) + RESET@
}

// ── Licenses ─────────────────────────────────────────────────────────

/// The licenses under which packages are counted, each as often as it is.
pub open spec fn license_uses(all: Seq<OutcomeView>) -> Seq<Text>
    decreases all.len(),
{
    if all.len() == 0 {
        Seq::empty()
    } else {
        match all.last().license {
            Some(l) => license_uses(all.drop_last()).push(l),
            None => license_uses(all.drop_last()),
        }
    }
}

/// How often `x` stands in `s`.
pub open spec fn occurrences(s: Seq<Text>, x: Text) -> nat
    decreases s.len(),
{
    if s.len() == 0 {
        0
    } else {
        occurrences(s.drop_last(), x) + if s.last() == x {
            1nat
        } else {
            0
        }
    }
}

/// A license and how many packages are under it.
pub open spec fn license_line(uses: Seq<Text>, name: Text) -> Text {
    "   "@ + name + ": "@ + decimal(occurrences(uses, name))
}

/// The breakdown of the licenses: nothing where none is counted.
pub open spec fn license_lines(uses: Seq<Text>) -> Seq<Text> {
    if uses.len() == 0 {
        Seq::empty()
    } else {
        seq![""@, "📜 Licenses:"@] + distinct(uses).map_values(|n: Text| license_line(uses, n))
    }
}

// ── The report ───────────────────────────────────────────────────────

/// What a scan puts out.
#[derive(Debug)]
pub enum Output {
    /// Lines of text.
    Text(Vec<String>),
    /// One record of the scan.
    Json(ScanOutput),
    /// The packages for a bill of materials.
    Sbom(Vec<PackageResult>),
}

/// What an `Output` holds.
pub enum OutputView {
    Text(Seq<Text>),
    Json(ScanView),
    Sbom(Seq<PackageView>),
}

impl DeepView for Output {
    type V = OutputView;

    open spec fn deep_view(&self) -> OutputView {
        match self {
            Output::Text(l) => OutputView::Text(l.deep_view()),
            Output::Json(o) => OutputView::Json(o.deep_view()),
            Output::Sbom(p) => OutputView::Sbom(p.deep_view()),
        }
    }
}

/// What a scan puts out, and the code that the program ends with.
#[derive(Debug)]
pub struct Report {
    pub output: Output,
    pub exit_code: i32,
}

/// What a `Report` holds.
pub struct ReportView {
    pub output: OutputView,
    pub exit_code: i32,
}

impl DeepView for Report {
    type V = ReportView;

    open spec fn deep_view(&self) -> ReportView {
        ReportView { output: self.output.deep_view(), exit_code: self.exit_code }
    }
}

/// The code that the program ends with: 1 where that was asked for and
/// anything is dead or has vulnerabilities.
pub open spec fn exit_code_of(opts: Options, s: Summary) -> i32 {
    if opts.ci && (s.dead > 0 || s.cves > 0) {
        1
    } else {
        0
    }
}

/// What a scan of the given packages puts out.
pub open spec fn report_of(kind: Ecosystem, opts: Options, all: Seq<OutcomeView>) -> ReportView {
    ReportView {
        output: if opts.sbom {
            OutputView::Sbom(records(all))
        } else if opts.output_json {
            OutputView::Json(
                ScanView { ecosystem: kind.label(), packages: records(all), summary: tally(all) },
            )
        } else {
            OutputView::Text(
                scan_lines(kind, opts, all) + seq![""@, summary_line(tally(all))] + license_lines(
                    license_uses(all),
                ),
            )
        },
        exit_code: exit_code_of(opts, tally(all)),
    }
}

/// The lines of the packages in the given health, in order.
fn lines_in(all: &Vec<Outcome>, health: Health) -> (r: Vec<String>)
    ensures
        r.deep_view() == lines(only(all.deep_view(), health)),
{
    let mut out: Vec<String> = Vec::new();
    let mut i: usize = 0;
    assert(all.deep_view().take(0) =~= Seq::empty());
    assert(out.deep_view() =~= Seq::empty());
    while i < all.len()
        invariant
            i <= all.len(),
            out.deep_view() == lines(only(all.deep_view().take(i as int), health)),
        decreases all.len() - i,
    {
        proof {
            let next = all.deep_view().take(i + 1);
            assert(next.drop_last() =~= all.deep_view().take(i as int));
            assert(next.last() == all[i as int].deep_view());
            if next.last().health == health {
                assert(only(next, health).drop_last() =~= only(next.drop_last(), health));
            }
        }
        let o = &all[i];
        if o.health == health {
            if let Some(l) = &o.line {
                add_line(&mut out, l.clone());
            }
        }
        i = i + 1;
    }
    assert(all.deep_view().take(all.len() as int) =~= all.deep_view());
    out
}

/// The lines of the packages that have one, in order.
fn lines_in_order(all: &Vec<Outcome>) -> (r: Vec<String>)
    ensures
        r.deep_view() == lines(all.deep_view()),
{
    let mut out: Vec<String> = Vec::new();
    let mut i: usize = 0;
    assert(all.deep_view().take(0) =~= Seq::empty());
    assert(out.deep_view() =~= Seq::empty());
    while i < all.len()
        invariant
            i <= all.len(),
            out.deep_view() == lines(all.deep_view().take(i as int)),
        decreases all.len() - i,
    {
        proof {
            let next = all.deep_view().take(i + 1);
            assert(next.drop_last() =~= all.deep_view().take(i as int));
            assert(next.last() == all[i as int].deep_view());
        }
        if let Some(l) = &all[i].line {
            add_line(&mut out, l.clone());
        }
        i = i + 1;
    }
    assert(all.deep_view().take(all.len() as int) =~= all.deep_view());
    out
}

/// The records of the packages that have one, in order.
pub fn collect_results(all: &Vec<Outcome>) -> (r: Vec<PackageResult>)
    ensures
        r.deep_view() == records(all.deep_view()),
{
    let mut out: Vec<PackageResult> = Vec::new();
    let mut i: usize = 0;
    assert(all.deep_view().take(0) =~= Seq::empty());
    assert(out.deep_view() =~= Seq::empty());
    while i < all.len()
        invariant
            i <= all.len(),
            out.deep_view() == records(all.deep_view().take(i as int)),
        decreases all.len() - i,
    {
        proof {
            let next = all.deep_view().take(i + 1);
            assert(next.drop_last() =~= all.deep_view().take(i as int));
            assert(next.last() == all[i as int].deep_view());
        }
        if let Some(p) = &all[i].result {
            let ghost before = out.deep_view();
            out.push(p.clone());
            assert(out.deep_view() =~= before.push(p.deep_view()));
        }
        i = i + 1;
    }
    assert(all.deep_view().take(all.len() as int) =~= all.deep_view());
    out
}

/// The licenses under which packages are counted, each as often as it is.
fn uses_of_licenses(all: &Vec<Outcome>) -> (r: Vec<String>)
    ensures
        r.deep_view() == license_uses(all.deep_view()),
{
    let mut out: Vec<String> = Vec::new();
    let mut i: usize = 0;
    assert(all.deep_view().take(0) =~= Seq::empty());
    assert(out.deep_view() =~= Seq::empty());
    while i < all.len()
        invariant
            i <= all.len(),
            out.deep_view() == license_uses(all.deep_view().take(i as int)),
        decreases all.len() - i,
    {
        proof {
            let next = all.deep_view().take(i + 1);
            assert(next.drop_last() =~= all.deep_view().take(i as int));
            assert(next.last() == all[i as int].deep_view());
        }
        if let Some(l) = &all[i].license {
            add_line(&mut out, l.clone());
        }
        i = i + 1;
    }
    assert(all.deep_view().take(all.len() as int) =~= all.deep_view());
    out
}

/// How often `x` stands among the first `n` of `s`.
fn times(s: &Vec<String>, n: usize, x: &str) -> (r: usize)
    requires
        n <= s.len(),
    ensures
        r == occurrences(s.deep_view().take(n as int), x@),
        r > 0 <==> s.deep_view().take(n as int).contains(x@),
{
    let mut seen: usize = 0;
    let mut i: usize = 0;
    assert(s.deep_view().take(0) =~= Seq::empty());
    while i < n
        invariant
            i <= n <= s.len(),
            seen <= i,
            seen == occurrences(s.deep_view().take(i as int), x@),
            seen > 0 <==> s.deep_view().take(i as int).contains(x@),
        decreases n - i,
    {
        proof {
            let here = s.deep_view().take(i as int);
            let next = s.deep_view().take(i + 1);
            assert(next.drop_last() =~= here);
            assert(next.last() == s[i as int]@);
            assert(next =~= here.push(s[i as int]@));
            if here.contains(x@) {
                let k = choose|k: int| 0 <= k < here.len() && here[k] == x@;
                assert(next[k] == x@);
            }
            if next.contains(x@) && s[i as int]@ != x@ {
                let k = choose|k: int| 0 <= k < next.len() && next[k] == x@;
                assert(here[k] == x@);
            }
            if s[i as int]@ == x@ {
                assert(next[i as int] == x@);
            }
        }
        if same(s[i].as_str(), x) {
            seen = seen + 1;
        }
        i = i + 1;
    }
    seen
}

/// The breakdown of the licenses.
fn license_breakdown(uses: &Vec<String>) -> (r: Vec<String>)
    ensures
        r.deep_view() == license_lines(uses.deep_view()),
{
    let mut out: Vec<String> = Vec::new();
    assert(out.deep_view() =~= Seq::empty());
    if uses.len() == 0 {
        return out;
    }
    add_line(&mut out, "".to_owned());
    add_line(&mut out, "📜 Licenses:".to_owned());
    let ghost head = seq![""@, "📜 Licenses:"@];
    let ghost all = uses.deep_view();
    let ghost entry = |n: Text| license_line(all, n);
    assert(out.deep_view() =~= head);
    let mut i: usize = 0;
    assert(all.take(0) =~= Seq::empty());
    assert(distinct(all.take(0)).map_values(entry) =~= Seq::empty());
    assert(out.deep_view() =~= head + distinct(all.take(0)).map_values(entry));
    while i < uses.len()
        invariant
            i <= uses.len(),
            all == uses.deep_view(),
            entry == (|n: Text| license_line(all, n)),
            out.deep_view() == head + distinct(all.take(i as int)).map_values(entry),
        decreases uses.len() - i,
    {
        proof {
            assert(all.take(i + 1).drop_last() =~= all.take(i as int));
            assert(all.take(i + 1).last() == uses[i as int]@);
        }
        if times(uses, i, uses[i].as_str()) == 0 {
            let mut text = "   ".to_owned();
            text.append(uses[i].as_str());
            text.append(": ");
            text.append(number(times(uses, uses.len(), uses[i].as_str()) as u64).as_str());
            proof {
                assert(all.take(uses.len() as int) =~= all);
                assert(text@ == license_line(all, uses[i as int]@));
                let before = distinct(all.take(i as int));
                assert(before.push(uses[i as int]@).map_values(entry) =~= before.map_values(
                    entry,
                ).push(text@));
            }
            add_line(&mut out, text);
            assert(out.deep_view() =~= head + distinct(all.take(i + 1)).map_values(entry));
        }
        i = i + 1;
    }
    assert(all.take(uses.len() as int) =~= all);
    out
}

/// The line that sums a scan up.
pub fn summary_text(s: Summary) -> (r: String)
    ensures
        r@ == summary_line(s),
{
    let mut text = BOLD.to_owned();
    text.append("📊 Summary:");
    text.append(RESET);
    text.append(" ");
    text.append(GREEN);
    text.append("✅ ");
    text.append(number(s.healthy as u64).as_str());
    text.append("  ");
    text.append(YELLOW);
    text.append("⚠️ ");
    text.append(number(s.warning as u64).as_str());
    text.append("  ");
    text.append(YELLOW);
    text.append("🚩 ");
    text.append(number(s.hijack as u64).as_str());
    text.append("  ");
    text.append(RED);
    text.append("🔴 ");
    text.append(number(s.inactive as u64).as_str());
    text.append("  ");
    text.append(RED);
    text.append("🪦 ");
    text.append(number(s.dead as u64).as_str());
    text.append("  ");
    text.append(GRAY);
    text.append("❓ ");
    text.append(number(s.unknown as u64).as_str());
    text.append(RESET);
    text
}

/// The lines of a scan, in the order of health.
fn ordered_lines(opts: Options, all: &Vec<Outcome>, sum: Summary) -> (r: Vec<String>)
    requires
        sum == tally(all.deep_view()),
    ensures
        r.deep_view() == known_lines(all.deep_view()) + unknown_lines(opts, all.deep_view()),
{
    let mut out = lines_in(all, Health::Healthy);
    add_lines(&mut out, lines_in(all, Health::Warning));
    add_lines(&mut out, lines_in(all, Health::Hijack));
    add_lines(&mut out, lines_in(all, Health::Inactive));
    add_lines(&mut out, lines_in(all, Health::Dead));
    let known = out.len();
    let ghost before = out.deep_view();
    assert(before == known_lines(all.deep_view()));
    if sum.unknown == 0 || opts.stale_only {
        assert(before + Seq::<Text>::empty() =~= before);
        return out;
    }
    if opts.verbose {
        add_lines(&mut out, lines_in(all, Health::Unknown));
    } else if known > 0 {
        let mut notice = GRAY.to_owned();
        notice.append("❓ ");
        notice.append(number(sum.unknown as u64).as_str());
        notice.append(" packages failed to fetch — run with --verbose to see details");
        notice.append(RESET);
        assert(before.push(""@).push(notice@) =~= before + seq![""@, notice@]);
        add_line(&mut out, "".to_owned());
        add_line(&mut out, notice);
    } else {
        assert(before + Seq::<Text>::empty() =~= before);
    }
    out
}

/// What a scan of the given packages puts out.
pub fn report(kind: Ecosystem, opts: Options, all: &Vec<Outcome>) -> (r: Report)
    ensures
        r.deep_view() == report_of(kind, opts, all.deep_view()),
{
    let sum = count(all);
    let exit_code: i32 = if opts.ci && (sum.dead > 0 || sum.cves > 0) {
        1
    } else {
        0
    };
    if opts.sbom {
        return Report { output: Output::Sbom(collect_results(all)), exit_code };
    }
    if opts.output_json {
        let whole = ScanOutput {
            ecosystem: kind.name().to_owned(),
            packages: collect_results(all),
            summary: sum,
        };
        return Report { output: Output::Json(whole), exit_code };
    }
    let mut out = match kind {
        Ecosystem::Cargo => ordered_lines(opts, all, sum),
        Ecosystem::Npm => ordered_lines(opts, all, sum),
        _ => lines_in_order(all),
    };
    let ghost body = out.deep_view();
    add_line(&mut out, "".to_owned());
    let last = summary_text(sum);
    assert(body.push(""@).push(last@) =~= body + seq![""@, last@]);
    add_line(&mut out, last);
    add_lines(&mut out, license_breakdown(&uses_of_licenses(all)));
    Report { output: Output::Text(out), exit_code }
}

// ── Laws ─────────────────────────────────────────────────────────────

/// Every package is counted under exactly one health.
pub proof fn law_every_package_is_counted_once(all: Seq<OutcomeView>)
    ensures
        how_many(all, Health::Healthy) + how_many(all, Health::Warning) + how_many(
            all,
            Health::Hijack,
        ) + how_many(all, Health::Inactive) + how_many(all, Health::Dead) + how_many(
            all,
            Health::Unknown,
        ) == all.len(),
    decreases all.len(),
{
    if all.len() > 0 {
        law_every_package_is_counted_once(all.drop_last());
    }
}

/// With fewer than 2^32 packages the counts of the summary add up to their
/// number.
pub proof fn law_summary_adds_up(all: Seq<OutcomeView>)
    requires
        all.len() < 0x1_0000_0000,
    ensures
        ({
            let s = tally(all);
            s.healthy + s.warning + s.hijack + s.inactive + s.dead + s.unknown == all.len()
        }),
{
    law_every_package_is_counted_once(all);
    lemma_small_counter(how_many(all, Health::Healthy));
    lemma_small_counter(how_many(all, Health::Warning));
    lemma_small_counter(how_many(all, Health::Hijack));
    lemma_small_counter(how_many(all, Health::Inactive));
    lemma_small_counter(how_many(all, Health::Dead));
    lemma_small_counter(how_many(all, Health::Unknown));
}

/// A counter that never got full holds what was counted.
pub proof fn lemma_small_counter(n: nat)
    requires
        n < 0x1_0000_0000,
    ensures
        counter(n) == n,
{
}

proof fn lemma_counts_split(a: Seq<OutcomeView>, b: Seq<OutcomeView>, h: Health)
    ensures
        how_many(a + b, h) == how_many(a, h) + how_many(b, h),
        all_cves(a + b) == all_cves(a) + all_cves(b),
    decreases b.len(),
{
    if b.len() == 0 {
        assert(a + b =~= a);
    } else {
        assert((a + b).drop_last() =~= a + b.drop_last());
        lemma_counts_split(a, b.drop_last(), h);
    }
}

/// In whatever order two groups of packages come in, the summary is the same.
pub proof fn law_order_does_not_count(a: Seq<OutcomeView>, b: Seq<OutcomeView>)
    ensures
        tally(a + b) == tally(b + a),
{
    lemma_counts_split(a, b, Health::Healthy);
    lemma_counts_split(a, b, Health::Warning);
    lemma_counts_split(a, b, Health::Hijack);
    lemma_counts_split(a, b, Health::Inactive);
    lemma_counts_split(a, b, Health::Dead);
    lemma_counts_split(a, b, Health::Unknown);
    lemma_counts_split(b, a, Health::Healthy);
    lemma_counts_split(b, a, Health::Warning);
    lemma_counts_split(b, a, Health::Hijack);
    lemma_counts_split(b, a, Health::Inactive);
    lemma_counts_split(b, a, Health::Dead);
    lemma_counts_split(b, a, Health::Unknown);
}

/// Without the option for it no scan fails.
pub proof fn law_only_ci_fails(kind: Ecosystem, opts: Options, all: Seq<OutcomeView>)
    ensures
        report_of(kind, opts, all).exit_code != 0 ==> opts.ci,
        report_of(kind, opts, all).exit_code == 0 || report_of(kind, opts, all).exit_code == 1,
{
}

proof fn lemma_some_dead(all: Seq<OutcomeView>, i: int)
    requires
        0 <= i < all.len(),
        all[i].health == Health::Dead,
    ensures
        how_many(all, Health::Dead) >= 1,
    decreases all.len(),
{
    if i < all.len() - 1 {
        lemma_some_dead(all.drop_last(), i);
    }
}

proof fn lemma_some_cve(all: Seq<OutcomeView>, i: int)
    requires
        0 <= i < all.len(),
        all[i].cves > 0,
    ensures
        all_cves(all) >= 1,
    decreases all.len(),
{
    if i < all.len() - 1 {
        lemma_some_cve(all.drop_last(), i);
    }
}

/// With the option for it a scan fails as soon as one package is dead or has
/// a vulnerability, and not otherwise. (The counters must not have started
/// again from 0.)
pub proof fn law_ci_fails_on_dead_or_vulnerable(
    kind: Ecosystem,
    opts: Options,
    all: Seq<OutcomeView>,
)
    requires
        opts.ci,
        all.len() < 0x1_0000_0000,
        all_cves(all) < 0x1_0000_0000,
    ensures
        report_of(kind, opts, all).exit_code == 1 <==> exists|i: int|
            0 <= i < all.len() && ((#[trigger] all[i]).health == Health::Dead || all[i].cves > 0),
{
    law_every_package_is_counted_once(all);
    lemma_small_counter(how_many(all, Health::Dead));
    lemma_small_counter(all_cves(all));
    if exists|i: int|
        0 <= i < all.len() && ((#[trigger] all[i]).health == Health::Dead || all[i].cves > 0) {
        let i = choose|i: int|
            0 <= i < all.len() && ((#[trigger] all[i]).health == Health::Dead || all[i].cves > 0);
        if all[i].health == Health::Dead {
            lemma_some_dead(all, i);
        } else {
            lemma_some_cve(all, i);
        }
    } else {
        lemma_none_dead_none_vulnerable(all);
    }
}

proof fn lemma_none_dead_none_vulnerable(all: Seq<OutcomeView>)
    requires
        forall|i: int|
            0 <= i < all.len() ==> (#[trigger] all[i]).health != Health::Dead && all[i].cves == 0,
    ensures
        how_many(all, Health::Dead) == 0,
        all_cves(all) == 0,
    decreases all.len(),
{
    if all.len() > 0 {
        let rest = all.drop_last();
        assert forall|i: int| 0 <= i < rest.len() implies (#[trigger] rest[i]).health
            != Health::Dead && rest[i].cves == 0 by {
            assert(rest[i] == all[i]);
        }
        lemma_none_dead_none_vulnerable(rest);
    }
}

proof fn lemma_only_lines(all: Seq<OutcomeView>, h: Health)
    ensures
        all.len() > 0 ==> lines(only(all, h)) == if all.last().health == h
            && all.last().line is Some {
            lines(only(all.drop_last(), h)).push(all.last().line->0)
        } else {
            lines(only(all.drop_last(), h))
        },
{
    if all.len() > 0 && all.last().health == h {
        assert(only(all, h).drop_last() =~= only(all.drop_last(), h));
    }
}

proof fn lemma_push_contains(s: Seq<Text>, x: Text, l: Text)
    ensures
        s.push(x).contains(l) <==> s.contains(l) || l == x,
{
    let t = s.push(x);
    if s.contains(l) {
        let k = choose|k: int| 0 <= k < s.len() && s[k] == l;
        assert(t[k] == l);
    }
    if l == x {
        assert(t[s.len() as int] == l);
    }
    if t.contains(l) {
        let k = choose|k: int| 0 <= k < t.len() && t[k] == l;
        if k < s.len() {
            assert(s[k] == l);
        }
    }
}

/// The lines of the packages in the given health.
pub open spec fn has_line(all: Seq<OutcomeView>, h: Health, l: Text) -> bool {
    lines(only(all, h)).contains(l)
}

proof fn lemma_has_line(all: Seq<OutcomeView>, h: Health, l: Text)
    ensures
        all.len() > 0 ==> (has_line(all, h, l) <==> has_line(all.drop_last(), h, l) || (
        all.last().health == h && all.last().line == Some(l))),
{
    lemma_only_lines(all, h);
    if all.len() > 0 && all.last().line is Some {
        lemma_push_contains(lines(only(all.drop_last(), h)), all.last().line->0, l);
    }
}

/// Every line stands in the group of some health, and only such lines stand
/// there.
pub proof fn law_groups_hold_every_line(all: Seq<OutcomeView>, l: Text)
    ensures
        lines(all).contains(l) <==> exists|h: Health| #[trigger] has_line(all, h, l),
    decreases all.len(),
{
    if all.len() > 0 {
        let init = all.drop_last();
        law_groups_hold_every_line(init, l);
        if all.last().line is Some {
            lemma_push_contains(lines(init), all.last().line->0, l);
        }
        assert forall|h: Health| #[trigger]
            has_line(all, h, l) == (has_line(init, h, l) || (all.last().health == h
                && all.last().line == Some(l))) by {
            lemma_has_line(all, h, l);
        }
        if lines(all).contains(l) {
            if lines(init).contains(l) {
                let h = choose|h: Health| #[trigger] has_line(init, h, l);
                assert(has_line(all, h, l));
            } else {
                assert(has_line(all, all.last().health, l));
            }
        }
        if exists|h: Health| #[trigger] has_line(all, h, l) {
            let h = choose|h: Health| #[trigger] has_line(all, h, l);
            if has_line(init, h, l) {
                assert(lines(init).contains(l));
            }
        }
    }
}

/// Putting the lines in the order of health drops none and adds none.
pub proof fn law_ordering_keeps_lines(all: Seq<OutcomeView>)
    ensures
        known_lines(all).len() + lines(only(all, Health::Unknown)).len() == lines(all).len(),
    decreases all.len(),
{
    if all.len() > 0 {
        law_ordering_keeps_lines(all.drop_last());
        lemma_only_lines(all, Health::Healthy);
        lemma_only_lines(all, Health::Warning);
        lemma_only_lines(all, Health::Hijack);
        lemma_only_lines(all, Health::Inactive);
        lemma_only_lines(all, Health::Dead);
        lemma_only_lines(all, Health::Unknown);
    }
}

/// Where records are asked for, a scan puts out nothing else.
pub proof fn law_records_only(kind: Ecosystem, opts: Options, all: Seq<OutcomeView>)
    requires
        opts.records(),
    ensures
        !(report_of(kind, opts, all).output is Text),
        opts.output_json && !opts.sbom ==> report_of(kind, opts, all).output is Json,
        opts.sbom ==> report_of(kind, opts, all).output is Sbom,
{
}

/// How many vulnerabilities the records name.
pub open spec fn vulns_in_records(packages: Seq<PackageView>) -> nat
    decreases packages.len(),
{
    if packages.len() == 0 {
        0
    } else {
        vulns_in_records(packages.drop_last()) + packages.last().vulns.len()
    }
}

/// The records of the packages worth a look.
pub open spec fn only_worth_a_look(packages: Seq<PackageView>) -> Seq<PackageView> {
    packages.filter(|p: PackageView| worth_a_look(p))
}

/// Every package contributes to `few` what it contributes to `all`, but that
/// its record is left out unless it is worth a look.
pub open spec fn all_narrow(few: Seq<OutcomeView>, all: Seq<OutcomeView>) -> bool {
    few.len() == all.len() && forall|i: int|
        0 <= i < all.len() ==> narrows(#[trigger] few[i], all[i])
}

proof fn lemma_narrow_counts(few: Seq<OutcomeView>, all: Seq<OutcomeView>, h: Health)
    requires
        all_narrow(few, all),
    ensures
        how_many(few, h) == how_many(all, h),
        all_cves(few) == all_cves(all),
        all_cves(all) == vulns_in_records(records(all)),
        records(all).len() == all.len(),
        records(few) == only_worth_a_look(records(all)),
    decreases all.len(),
{
    reveal(Seq::filter);
    let f = |p: PackageView| worth_a_look(p);
    if all.len() == 0 {
        assert(records(few) =~= records(all).filter(f));
    } else {
        let few0 = few.drop_last();
        let all0 = all.drop_last();
        assert forall|i: int| 0 <= i < all0.len() implies narrows(#[trigger] few0[i], all0[i]) by {
            assert(few0[i] == few[i] && all0[i] == all[i]);
        }
        lemma_narrow_counts(few0, all0, h);
        let n = all.len() - 1;
        assert(narrows(few[n], all[n]));
        let p = all.last().result->0;
        assert(records(all) == records(all0).push(p));
        assert(records(all).drop_last() =~= records(all0));
        assert(records(all).filter(f) == if f(p) {
            records(all0).filter(f).push(p)
        } else {
            records(all0).filter(f)
        });
    }
}

/// Of a scan of all packages and one of those worth a look, both for records:
/// the summaries and the exit codes are equal, and the packages of the second
/// are exactly those of the first that are worth a look, in the same order.
pub proof fn law_two_scans(
    kind: Ecosystem,
    opts: Options,
    few: Seq<OutcomeView>,
    all: Seq<OutcomeView>,
)
    requires
        opts.records(),
        all_narrow(few, all),
    ensures
        tally(few) == tally(all),
        records(all).len() == all.len(),
        records(few) == only_worth_a_look(records(all)),
        tally(all).cves == counter(vulns_in_records(records(all))),
        ({
            let a = report_of(kind, with_stale(opts, false), all);
            let b = report_of(kind, with_stale(opts, true), few);
            &&& a.exit_code == b.exit_code
            &&& match a.output {
                OutputView::Json(o) => b.output == OutputView::Json(
                    ScanView { packages: only_worth_a_look(o.packages), ..o },
                ),
                OutputView::Sbom(p) => b.output == OutputView::Sbom(only_worth_a_look(p)),
                OutputView::Text(_) => false,
            }
        }),
{
    lemma_narrow_counts(few, all, Health::Healthy);
    lemma_narrow_counts(few, all, Health::Warning);
    lemma_narrow_counts(few, all, Health::Hijack);
    lemma_narrow_counts(few, all, Health::Inactive);
    lemma_narrow_counts(few, all, Health::Dead);
    lemma_narrow_counts(few, all, Health::Unknown);
}

} // verus!
