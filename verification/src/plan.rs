//! What is decided before a scan: whether there is anything to scan, and what
//! is said first.

use crate::render::{add_line, add_lines, decimal, number};
use crate::report::{Ecosystem, Output, OutputView, Report, ReportView};
use crate::scan::Options;
use crate::text::Text;
use crate::types::{PackageResult, ScanOutput, ScanView, Summary};
use vstd::prelude::*;

verus! {

/// What became of a lockfile.
#[derive(Debug)]
pub enum Lockfile {
    /// There is none.
    Missing,
    /// It could not be read, for the given reason.
    Unreadable(String),
    /// The dependencies in it, each with its version, or what is wrong with
    /// it.
    Read(Result<Vec<(String, String)>, String>),
}

/// What a `Lockfile` holds.
pub enum LockfileView {
    Missing,
    Unreadable(Text),
    Read(Result<Seq<(Text, Text)>, Text>),
}

impl DeepView for Lockfile {
    type V = LockfileView;

    open spec fn deep_view(&self) -> LockfileView {
        match self {
            Lockfile::Missing => LockfileView::Missing,
            Lockfile::Unreadable(e) => LockfileView::Unreadable(e@),
            Lockfile::Read(Ok(deps)) => LockfileView::Read(Ok(deps.deep_view())),
            Lockfile::Read(Err(e)) => LockfileView::Read(Err(e@)),
        }
    }
}

/// What is to be done.
#[derive(Debug)]
pub enum Plan {
    /// Nothing, for the given reason.
    Refuse(String),
    /// Nothing is to be scanned: the report is ready.
    Nothing(Report),
    /// Scan the dependencies, each with its version, after the given lines.
    Scan(Vec<String>, Vec<(String, String)>),
}

/// What a `Plan` holds.
pub enum PlanView {
    Refuse(Text),
    Nothing(ReportView),
    Scan(Seq<Text>, Seq<(Text, Text)>),
}

impl DeepView for Plan {
    type V = PlanView;

    open spec fn deep_view(&self) -> PlanView {
        match self {
            Plan::Refuse(e) => PlanView::Refuse(e@),
            Plan::Nothing(r) => PlanView::Nothing(r.deep_view()),
            Plan::Scan(l, d) => PlanView::Scan(l.deep_view(), d.deep_view()),
        }
    }
}

/// The lockfile of an ecosystem; of the Python ones the first that there is,
/// and the first of all where there is none.
pub open spec fn lockfile_name(kind: Ecosystem, poetry: bool, pipfile: bool) -> Option<Text> {
    match kind {
        Ecosystem::Aur => None,
        Ecosystem::Cargo => Some("Cargo.lock"@),
        Ecosystem::Npm => Some("package-lock.json"@),
        Ecosystem::Pypi => if !poetry && pipfile {
            Some("Pipfile.lock"@)
        } else {
            Some("poetry.lock"@)
        },
        Ecosystem::Go => Some("go.mod"@),
    }
}

/// What is said where there is no lockfile.
pub open spec fn no_lockfile(kind: Ecosystem, file: Text) -> Text {
    if kind == Ecosystem::Pypi {
        "❌ No poetry.lock or Pipfile.lock found in current directory"@
    } else {
        "❌ "@ + file + " not found in current directory"@
    }
}

/// What is said of a lockfile that something is wrong with.
pub open spec fn bad_lockfile(kind: Ecosystem, file: Text, error: Text) -> Text {
    match kind {
        Ecosystem::Cargo => "❌ "@ + error,
        Ecosystem::Npm => "❌ "@ + error,
        _ => "❌ Failed to parse "@ + file + ": "@ + error,
    }
}

/// What is said of a lockfile without dependencies.
pub open spec fn no_dependencies(kind: Ecosystem, file: Text) -> Text {
    match kind {
        Ecosystem::Cargo => "📦 No registry dependencies found in "@ + file,
        Ecosystem::Pypi => "📦 No dependencies found in Python lockfile"@,
        _ => "📦 No dependencies found in "@ + file,
    }
}

/// What is said before `n` dependencies are scanned.
pub open spec fn scanning(kind: Ecosystem, file: Text, n: nat) -> Text {
    "📦 Scanning "@ + decimal(n) + match kind {
        Ecosystem::Aur => " AUR packages..."@,
        Ecosystem::Cargo => " crate dependencies from "@ + file,
        Ecosystem::Npm => " npm packages from "@ + file,
        Ecosystem::Pypi => " Python packages from lockfile"@,
        Ecosystem::Go => " Go modules from "@ + file,
    }
}

/// The lines before a scan of `n` packages; none where records are asked for.
pub open spec fn announced(kind: Ecosystem, opts: Options, file: Text, n: nat) -> Seq<Text> {
    if opts.records() {
        Seq::empty()
    } else {
        seq![scanning(kind, file, n), ""@]
    }
}

/// The lines that name the lockfile, where several could have been taken.
pub open spec fn lockfile_found(kind: Ecosystem, opts: Options, file: Text) -> Seq<Text> {
    if kind == Ecosystem::Pypi && !opts.records() {
        seq!["📦 Found "@ + file]
    } else {
        Seq::empty()
    }
}

/// What is put out where there is nothing to scan.
pub open spec fn empty_report(kind: Ecosystem, opts: Options, file: Text) -> ReportView {
    ReportView {
        output: if opts.output_json {
            OutputView::Json(
                ScanView {
                    ecosystem: kind.label(),
                    packages: Seq::empty(),
                    summary: Summary {
                        healthy: 0,
                        warning: 0,
                        hijack: 0,
                        inactive: 0,
                        dead: 0,
                        unknown: 0,
                        cves: 0,
                    },
                },
            )
        } else if opts.sbom {
            OutputView::Sbom(Seq::empty())
        } else {
            OutputView::Text(
                lockfile_found(kind, opts, file).push(no_dependencies(kind, file)),
            )
        },
        exit_code: 0,
    }
}

/// What is to be done with the lockfile `file`.
pub open spec fn plan_of(
    kind: Ecosystem,
    opts: Options,
    file: Text,
    lock: LockfileView,
) -> PlanView {
    match lock {
        LockfileView::Missing => PlanView::Refuse(no_lockfile(kind, file)),
        LockfileView::Unreadable(e) => PlanView::Refuse(
            "❌ Failed to read "@ + file + ": "@ + e,
        ),
        LockfileView::Read(Err(e)) => PlanView::Refuse(bad_lockfile(kind, file, e)),
        LockfileView::Read(Ok(deps)) => if deps.len() == 0 {
            PlanView::Nothing(empty_report(kind, opts, file))
        } else {
            PlanView::Scan(
                lockfile_found(kind, opts, file) + announced(kind, opts, file, deps.len()),
                deps,
            )
        },
    }
}

/// The lockfile of an ecosystem; of the Python ones the first that there is,
/// and the first of all where there is none. There is none for the AUR.
pub fn lockfile_of(kind: Ecosystem, poetry: bool, pipfile: bool) -> (r: Option<&'static str>)
    ensures
        r.deep_view() == lockfile_name(kind, poetry, pipfile),
{
    match kind {
        Ecosystem::Aur => None,
        Ecosystem::Cargo => Some("Cargo.lock"),
        Ecosystem::Npm => Some("package-lock.json"),
        Ecosystem::Pypi => if !poetry && pipfile {
            Some("Pipfile.lock")
        } else {
            Some("poetry.lock")
        },
        Ecosystem::Go => Some("go.mod"),
    }
}

/// What is said before `n` packages are scanned.
fn scanning_text(kind: Ecosystem, file: &str, n: usize) -> (r: String)
    ensures
        r@ == scanning(kind, file@, n as nat),
{
    let mut rest = String::new();
    match kind {
        Ecosystem::Aur => {
            rest.append(" AUR packages...");
        },
        Ecosystem::Cargo => {
            rest.append(" crate dependencies from ");
            rest.append(file);
        },
        Ecosystem::Npm => {
            rest.append(" npm packages from ");
            rest.append(file);
        },
        Ecosystem::Pypi => {
            rest.append(" Python packages from lockfile");
        },
        Ecosystem::Go => {
            rest.append(" Go modules from ");
            rest.append(file);
        },
    }
    proof {
        match kind {
            Ecosystem::Aur => {
                assert(rest@ =~= " AUR packages..."@);
            },
            Ecosystem::Cargo => {
                assert(rest@ =~= " crate dependencies from "@ + file@);
            },
            Ecosystem::Npm => {
                assert(rest@ =~= " npm packages from "@ + file@);
            },
            Ecosystem::Pypi => {
                assert(rest@ =~= " Python packages from lockfile"@);
            },
            Ecosystem::Go => {
                assert(rest@ =~= " Go modules from "@ + file@);
            },
        }
    }
    let mut text = "📦 Scanning ".to_owned();
    text.append(number(n as u64).as_str());
    text.append(rest.as_str());
    text
}

/// The lines before a scan of `n` packages; none where records are asked for.
pub fn announcement(kind: Ecosystem, opts: Options, file: &str, n: usize) -> (r: Vec<String>)
    ensures
        r.deep_view() == announced(kind, opts, file@, n as nat),
{
    let mut out: Vec<String> = Vec::new();
    if !opts.wants_records() {
        add_line(&mut out, scanning_text(kind, file, n));
        add_line(&mut out, "".to_owned());
    }
    assert(out.deep_view() =~= announced(kind, opts, file@, n as nat));
    out
}

/// `a` followed by `b`.
fn glued(a: &str, b: &str) -> (r: String)
    ensures
        r@ == a@ + b@,
{
    let mut text = a.to_owned();
    text.append(b);
    text
}

/// The lines that name the lockfile, where several could have been taken.
fn found_lines(kind: Ecosystem, opts: Options, file: &str) -> (r: Vec<String>)
    ensures
        r.deep_view() == lockfile_found(kind, opts, file@),
{
    let mut out: Vec<String> = Vec::new();
    if kind == Ecosystem::Pypi && !opts.wants_records() {
        add_line(&mut out, glued("📦 Found ", file));
    }
    assert(out.deep_view() =~= lockfile_found(kind, opts, file@));
    out
}

/// What is put out where there is nothing to scan.
fn nothing_found(kind: Ecosystem, opts: Options, file: &str) -> (r: Report)
    ensures
        r.deep_view() == empty_report(kind, opts, file@),
{
    let packages: Vec<PackageResult> = Vec::new();
    assert(packages.deep_view() =~= Seq::empty());
    if opts.output_json {
        let whole = ScanOutput {
            ecosystem: kind.name().to_owned(),
            packages,
            summary: Summary::new(),
        };
        return Report { output: Output::Json(whole), exit_code: 0 };
    }
    if opts.sbom {
        return Report { output: Output::Sbom(packages), exit_code: 0 };
    }
    let mut out = found_lines(kind, opts, file);
    let text = match kind {
        Ecosystem::Cargo => glued("📦 No registry dependencies found in ", file),
        Ecosystem::Pypi => "📦 No dependencies found in Python lockfile".to_owned(),
        _ => glued("📦 No dependencies found in ", file),
    };
    add_line(&mut out, text);
    Report { output: Output::Text(out), exit_code: 0 }
}

/// What is to be done with the lockfile `file`.
pub fn plan(kind: Ecosystem, opts: Options, file: &str, lock: Lockfile) -> (r: Plan)
    ensures
        r.deep_view() == plan_of(kind, opts, file@, lock.deep_view()),
{
    match lock {
        Lockfile::Missing => {
            let text = if kind == Ecosystem::Pypi {
                "❌ No poetry.lock or Pipfile.lock found in current directory".to_owned()
            } else {
                glued(glued("❌ ", file).as_str(), " not found in current directory")
            };
            Plan::Refuse(text)
        },
        Lockfile::Unreadable(e) => {
            let mut text = glued("❌ Failed to read ", file);
            text.append(": ");
            text.append(e.as_str());
            Plan::Refuse(text)
        },
        Lockfile::Read(Err(e)) => {
            let text = match kind {
                Ecosystem::Cargo => glued("❌ ", e.as_str()),
                Ecosystem::Npm => glued("❌ ", e.as_str()),
                _ => {
                    let mut t = glued("❌ Failed to parse ", file);
                    t.append(": ");
                    t.append(e.as_str());
                    t
                },
            };
            Plan::Refuse(text)
        },
        Lockfile::Read(Ok(deps)) => {
            if deps.len() == 0 {
                return Plan::Nothing(nothing_found(kind, opts, file));
            }
            let mut out = found_lines(kind, opts, file);
            add_lines(&mut out, announcement(kind, opts, file, deps.len()));
            Plan::Scan(out, deps)
        },
    }
}

/// What is said, besides the report, where licenses of Go modules are asked
/// for and there is a `go.mod`: it names none.
pub open spec fn warning_of(kind: Ecosystem, opts: Options, lock: LockfileView) -> Option<Text> {
    if kind == Ecosystem::Go && opts.licenses && !opts.output_json && !(lock is Missing) {
        Some(
            "⚠️  --licenses is not supported for Go modules (go.mod has no license metadata)"@,
        )
    } else {
        None
    }
}

/// What is said, besides the report, where licenses of Go modules are asked
/// for and there is a `go.mod`: it names none.
pub fn warning(kind: Ecosystem, opts: Options, lock: &Lockfile) -> (r: Option<&'static str>)
    ensures
        r.deep_view() == warning_of(kind, opts, lock.deep_view()),
{
    let missing = match lock {
        Lockfile::Missing => true,
        _ => false,
    };
    if kind == Ecosystem::Go && opts.licenses && !opts.output_json && !missing {
        Some("⚠️  --licenses is not supported for Go modules (go.mod has no license metadata)")
    } else {
        None
    }
}

// ── Laws ─────────────────────────────────────────────────────────────

/// Where records are asked for, nothing is said before them, and nothing but
/// records is put out for a lockfile without dependencies.
pub proof fn law_nothing_before_records(
    kind: Ecosystem,
    opts: Options,
    file: Text,
    lock: LockfileView,
)
    ensures
        opts.records() ==> (plan_of(kind, opts, file, lock) matches PlanView::Scan(l, _)
            ==> l.len() == 0),
        opts.records() ==> (plan_of(kind, opts, file, lock) matches PlanView::Nothing(r)
            ==> !(r.output is Text)),
{
}

/// A scan is planned exactly for a lockfile that could be read and names
/// dependencies, and it is of all of them.
pub proof fn law_all_dependencies_are_scanned(
    kind: Ecosystem,
    opts: Options,
    file: Text,
    lock: LockfileView,
)
    ensures
        plan_of(kind, opts, file, lock) is Scan <==> (lock matches LockfileView::Read(Ok(deps))
            && deps.len() > 0),
        plan_of(kind, opts, file, lock) matches PlanView::Scan(_, deps) ==> lock
            == LockfileView::Read(Ok(deps)),
{
}

} // verus!
