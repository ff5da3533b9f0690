//! The program around a scan: what is asked for, which lockfile is read, where
//! answers are kept, and how time is counted.

use crate::cache::{
    base_dir, entry_path, fresh, joined_path, law_safe_key_has_no_slash, safe_key, temporary_path,
};
use crate::clock::{age, calendar_day, whole_days, Moment};
use crate::command::{action, diff_ecosystem, ActionView, DiffFlags, Flags, Subcommand};
use crate::plan::{lockfile_name, plan_of, warning_of, LockfileView, PlanView};
use crate::render::decimal;
use crate::report::{Ecosystem, OutputView};
use crate::scan::Options;
use crate::text::{begins, byte_prefix, ends, group_holds, holds, Text};
use vstd::prelude::*;

verus! {

// ── The command line ─────────────────────────────────────────────────

/// A scan is made with the options that were asked for.
pub open spec fn scans(a: ActionView, kind: Ecosystem, flags: Flags) -> bool {
    a matches ActionView::Scan(k, o) && k == kind && o.stale_only == flags.stale && o.output_json
        == flags.json && o.ci == flags.ci && o.licenses == flags.licenses && o.verbose
        == flags.verbose && o.sbom == flags.sbom
}

/// A command goes before everything else. Without one the first ecosystem
/// that was asked for is scanned, of crates.io, npm, PyPI and Go; then comes a
/// search, then, unless only packages worth a look were asked for, a single
/// package, and at last the installed packages, of which no bill of materials
/// is made.
pub proof fn law_what_is_done(flags: Flags)
    ensures
        ({
            let a = action(flags);
            let registry = flags.cargo || flags.npm || flags.pypi || flags.go;
            &&& (flags.command matches Some(Subcommand::WhoDepends(name))
                ==> a == ActionView::WhoDepends(name@))
            &&& (flags.command matches Some(Subcommand::SbomDiff(old, new))
                ==> a == ActionView::SbomDiff(old@, new@))
            &&& (flags.command matches Some(Subcommand::Diff(Some(since), _))
                ==> a is Diff && a->Diff_0 == since@)
            &&& (flags.command matches Some(Subcommand::Diff(None, _))
                ==> a is Diff && a->Diff_0 == "HEAD~1"@)
            &&& (flags.command matches Some(Subcommand::Diff(_, asked))
                ==> a->Diff_1 == diff_ecosystem(asked))
            &&& flags.command is None ==> {
                &&& flags.cargo ==> scans(a, Ecosystem::Cargo, flags)
                &&& flags.npm && !flags.cargo ==> scans(a, Ecosystem::Npm, flags)
                &&& flags.pypi && !flags.cargo && !flags.npm ==> scans(a, Ecosystem::Pypi, flags)
                &&& flags.go && !flags.cargo && !flags.npm && !flags.pypi ==> scans(
                    a,
                    Ecosystem::Go,
                    flags,
                )
                &&& !registry && flags.aur is Some ==> a == ActionView::Search(flags.aur->0@)
                &&& !registry && flags.aur is None && !flags.stale && flags.package is Some
                    ==> a == ActionView::Package(flags.package->0@)
                &&& !registry && flags.aur is None && (flags.stale || flags.package is None) ==> {
                    &&& !flags.sbom ==> scans(a, Ecosystem::Aur, flags)
                    &&& flags.sbom ==> a == ActionView::Refuse(
                        "❌ AUR scanning is not supported with --sbom"@,
                    )
                }
            }
        }),
{
}

/// A comparison is made in the first ecosystem that was asked for, and in none
/// in particular if none was.
pub proof fn law_ecosystem_of_a_comparison(asked: DiffFlags)
    ensures
        asked.cargo ==> diff_ecosystem(asked) == Some("cargo"@),
        !asked.cargo && asked.npm ==> diff_ecosystem(asked) == Some("npm"@),
        !asked.cargo && !asked.npm && asked.pypi ==> diff_ecosystem(asked) == Some("pypi"@),
        !asked.cargo && !asked.npm && !asked.pypi && asked.go ==> diff_ecosystem(asked) == Some(
            "go"@,
        ),
        !asked.cargo && !asked.npm && !asked.pypi && !asked.go ==> diff_ecosystem(asked) is None,
{
}

// ── Lockfiles ────────────────────────────────────────────────────────

/// Every registry has its lockfile; a Python project may have either of two,
/// of which `poetry.lock` goes first. Installed packages have none.
pub proof fn law_lockfile_names(poetry: bool, pipfile: bool)
    ensures
        lockfile_name(Ecosystem::Cargo, poetry, pipfile) == Some("Cargo.lock"@),
        lockfile_name(Ecosystem::Npm, poetry, pipfile) == Some("package-lock.json"@),
        lockfile_name(Ecosystem::Go, poetry, pipfile) == Some("go.mod"@),
        lockfile_name(Ecosystem::Aur, poetry, pipfile) is None,
        poetry || !pipfile ==> lockfile_name(Ecosystem::Pypi, poetry, pipfile) == Some(
            "poetry.lock"@,
        ),
        !poetry && pipfile ==> lockfile_name(Ecosystem::Pypi, poetry, pipfile) == Some(
            "Pipfile.lock"@,
        ),
        Ecosystem::Aur.label() == "aur"@,
        Ecosystem::Cargo.label() == "cargo"@,
        Ecosystem::Npm.label() == "npm"@,
        Ecosystem::Pypi.label() == "pypi"@,
        Ecosystem::Go.label() == "go"@,
{
}

/// A scan is refused exactly where the lockfile is missing, cannot be read or
/// cannot be parsed; the refusal says so, with the file and the error.
pub proof fn law_scan_is_refused(kind: Ecosystem, opts: Options, file: Text, lock: LockfileView)
    ensures
        ({
            let p = plan_of(kind, opts, file, lock);
            &&& p is Refuse <==> !(lock matches LockfileView::Read(Ok(_)))
            &&& p is Refuse ==> begins(p->Refuse_0, "❌ "@)
            &&& lock is Missing && kind == Ecosystem::Pypi ==> p == PlanView::Refuse(
                "❌ No poetry.lock or Pipfile.lock found in current directory"@,
            )
            &&& lock is Missing && kind != Ecosystem::Pypi ==> p == PlanView::Refuse(
                "❌ "@ + file + " not found in current directory"@,
            )
            &&& (lock matches LockfileView::Unreadable(e) ==> holds(
                p->Refuse_0,
                "Failed to read "@ + file + ": "@ + e,
            ))
            &&& (lock matches LockfileView::Read(Err(e)) ==> ends(p->Refuse_0, e))
            &&& (lock matches LockfileView::Read(Err(e)) ==> (kind == Ecosystem::Pypi || kind
                == Ecosystem::Go ==> holds(p->Refuse_0, "Failed to parse "@ + file + ": "@ + e)))
        }),
{
    broadcast use group_holds;

    reveal_strlit("❌ Failed to read ");
    reveal_strlit("❌ Failed to parse ");
    reveal_strlit("❌ ");
    reveal_strlit("Failed to read ");
    reveal_strlit("Failed to parse ");
    reveal_strlit("❌ No poetry.lock or Pipfile.lock found in current directory");
    assert("❌ Failed to read "@ =~= "❌ "@ + "Failed to read "@);
    assert("❌ Failed to parse "@ =~= "❌ "@ + "Failed to parse "@);
    let none = "❌ No poetry.lock or Pipfile.lock found in current directory"@;
    assert(none.subrange(0, 2) =~= "❌ "@);
    match lock {
        LockfileView::Unreadable(e) => {
            lemma_tail("❌ "@, "Failed to read "@, file, ": "@, e);
        },
        LockfileView::Read(Err(e)) => {
            lemma_tail("❌ "@, "Failed to parse "@, file, ": "@, e);
        },
        _ => {},
    }
}

proof fn lemma_tail(x: Text, a: Text, b: Text, c: Text, d: Text)
    ensures
        holds(x + a + b + c + d, a + b + c + d),
{
    broadcast use group_holds;

    assert(x + a + b + c + d =~= x + (a + b + c + d));
}

/// Where a lockfile names no dependencies, the report says so, counts nothing
/// and does not fail.
pub proof fn law_nothing_to_scan(kind: Ecosystem, opts: Options, file: Text)
    ensures
        ({
            let p = plan_of(kind, opts, file, LockfileView::Read(Ok(Seq::empty())));
            let r = p->Nothing_0;
            &&& p is Nothing && r.exit_code == 0
            &&& opts.output_json ==> (r.output matches OutputView::Json(j) && j.ecosystem
                == kind.label() && j.packages.len() == 0 && j.summary.healthy == 0
                && j.summary.warning == 0 && j.summary.hijack == 0 && j.summary.inactive == 0
                && j.summary.dead == 0 && j.summary.unknown == 0 && j.summary.cves == 0)
            &&& !opts.output_json && opts.sbom ==> (r.output matches OutputView::Sbom(all)
                && all.len() == 0)
            &&& !opts.records() ==> (r.output matches OutputView::Text(l) && l.len() > 0)
            &&& !opts.records() ==> {
                let l = r.output->Text_0.last();
                &&& kind == Ecosystem::Cargo ==> l == "📦 No registry dependencies found in "@
                    + file
                &&& kind == Ecosystem::Npm || kind == Ecosystem::Go
                    ==> l == "📦 No dependencies found in "@ + file
                &&& kind == Ecosystem::Pypi ==> l == "📦 No dependencies found in Python lockfile"@
            }
        }),
{
}

/// A scan is announced, unless records are put out, with the number of
/// dependencies and the file they come from; all of them are scanned.
pub proof fn law_scan_is_announced(
    kind: Ecosystem,
    opts: Options,
    file: Text,
    deps: Seq<(Text, Text)>,
)
    requires
        deps.len() > 0,
    ensures
        ({
            let p = plan_of(kind, opts, file, LockfileView::Read(Ok(deps)));
            let l = p->Scan_0;
            let n = decimal(deps.len());
            &&& p is Scan && p->Scan_1 == deps
            &&& opts.records() ==> l.len() == 0
            &&& !opts.records() ==> {
                &&& l.len() >= 2
                &&& kind == Ecosystem::Pypi ==> l[0] == "📦 Found "@ + file
                &&& kind == Ecosystem::Pypi ==> holds(l[l.len() - 2], n + " Python packages"@)
                &&& kind == Ecosystem::Cargo ==> holds(l[l.len() - 2], n) && ends(
                    l[l.len() - 2],
                    " crate dependencies from "@ + file,
                )
                &&& kind == Ecosystem::Npm ==> holds(l[l.len() - 2], n) && ends(
                    l[l.len() - 2],
                    " npm packages from "@ + file,
                )
                &&& kind == Ecosystem::Go ==> holds(l[l.len() - 2], n) && ends(
                    l[l.len() - 2],
                    " Go modules from "@ + file,
                )
            }
        }),
{
    broadcast use group_holds;

    reveal_strlit(" Python packages from lockfile");
    reveal_strlit(" Python packages");
    reveal_strlit(" from lockfile");
    assert(" Python packages from lockfile"@ =~= " Python packages"@ + " from lockfile"@);
    let n = decimal(deps.len());
    let a = "📦 Scanning "@ + n;
    assert(a + (" Python packages"@ + " from lockfile"@) =~= a + " Python packages"@
        + " from lockfile"@);
}

/// It is warned that licenses are not known of Go modules where they are asked
/// for and a text is put out, and nowhere else.
pub proof fn law_licenses_of_go_modules(kind: Ecosystem, opts: Options, lock: LockfileView)
    ensures
        warning_of(kind, opts, lock) is Some <==> kind == Ecosystem::Go && opts.licenses
            && !opts.output_json && !(lock is Missing),
        warning_of(kind, opts, lock) matches Some(t) ==> holds(
            t,
            "--licenses is not supported for Go modules"@,
        ),
{
    reveal_strlit(
        "⚠️  --licenses is not supported for Go modules (go.mod has no license metadata)",
    );
    reveal_strlit("--licenses is not supported for Go modules");
    let t = "⚠️  --licenses is not supported for Go modules (go.mod has no license metadata)"@;
    let x = "--licenses is not supported for Go modules"@;
    assert(t.subrange(4, (4 + x.len()) as int) =~= x);
    assert(crate::text::occurs_at(t, x, 4));
}

// ── Answers that are kept ────────────────────────────────────────────

/// A path is put below another with one slash between them; a path that
/// begins with a slash stands for itself.
pub proof fn law_paths(a: Text, b: Text)
    ensures
        begins(b, "/"@) ==> joined_path(a, b) == b,
        !begins(b, "/"@) ==> begins(joined_path(a, b), a) && ends(joined_path(a, b), b),
        !begins(b, "/"@) && a.len() > 0 && a.last() != '/' ==> joined_path(a, b) == a + "/"@ + b,
        !begins(b, "/"@) && (a.len() == 0 || a.last() == '/') ==> joined_path(a, b).len() == a.len()
            + b.len(),
{
    broadcast use group_holds;

}

/// Answers are kept in `gravedigger`, below the directory for caches: the one
/// that the environment names, else `.cache` below the home, else `/tmp`.
pub proof fn law_directory_for_answers(xdg: Text, home: Text)
    requires
        xdg.len() > 0,
        xdg.last() != '/',
        home.len() > 0,
        home.last() != '/',
    ensures
        base_dir(Some(xdg), Some(home)) == xdg + "/"@ + "gravedigger"@,
        base_dir(Some(xdg), None) == xdg + "/"@ + "gravedigger"@,
        base_dir(None, Some(home)) == home + "/"@ + ".cache"@ + "/"@ + "gravedigger"@,
        base_dir(None, None) == "/tmp"@ + "/"@ + "gravedigger"@,
{
    reveal_strlit("gravedigger");
    reveal_strlit(".cache");
    reveal_strlit("/tmp");
    reveal_strlit("/");
    if begins("gravedigger"@, "/"@) {
        assert("gravedigger"@.subrange(0, 1)[0] == 'g');
    }
    if begins(".cache"@, "/"@) {
        assert(".cache"@.subrange(0, 1)[0] == '.');
    }
    let below = home + "/"@ + ".cache"@;
    assert(below.last() == ".cache"@[5]);
    assert("/tmp"@.last() == 'p');
}

/// The name under which an answer is kept is its key, with an underscore for
/// each slash.
pub proof fn law_names_of_answers(key: Text, i: int)
    ensures
        safe_key(key).len() == key.len(),
        0 <= i < key.len() && key[i] == '/' ==> safe_key(key)[i] == '_',
        0 <= i < key.len() && key[i] != '/' ==> safe_key(key)[i] == key[i],
    decreases key.len(),
{
    reveal_strlit("_");
    if key.len() > 0 {
        law_names_of_answers(key.drop_last(), i);
    }
}

/// An answer is written to another file first, with the number of the process
/// in its name, beside the file that it is kept in.
pub proof fn law_answers_are_written_aside(base: Text, category: Text, key: Text, pid: u32)
    requires
        key.len() > 0,
    ensures
        ({
            let dir = joined_path(base, category);
            let name = safe_key(key);
            &&& ends(entry_path(base, category, key), name + ".json"@)
            &&& ends(temporary_path(base, category, key, pid), name + ".tmp."@ + decimal(pid as nat))
            &&& begins(entry_path(base, category, key), dir)
            &&& begins(temporary_path(base, category, key, pid), dir)
            &&& entry_path(base, category, key).len() - name.len() - 5 <= dir.len() + 1
            &&& temporary_path(base, category, key, pid).len() - name.len() - 5 - decimal(
                pid as nat,
            ).len() <= dir.len() + 1
        }),
{
    broadcast use group_holds;

    law_safe_key_has_no_slash(key);
    law_names_of_answers(key, 0);
    reveal_strlit("/");
    reveal_strlit(".json");
    reveal_strlit(".tmp.");
    let name = safe_key(key);
    let a = name + ".json"@;
    let b = name + ".tmp."@ + decimal(pid as nat);
    if begins(a, "/"@) {
        assert(a.subrange(0, 1)[0] == name[0]);
    }
    if begins(b, "/"@) {
        assert(b.subrange(0, 1)[0] == name[0]);
    }
}

/// An answer is kept for the given number of hours, and not a second longer.
pub proof fn law_answers_grow_old(seconds: u64, hours: u64)
    ensures
        fresh(seconds, hours) <==> !(seconds > hours * 60 * 60),
{
    assert(hours * 60 * 60 == hours * 3600) by (nonlinear_arith);
}

// ── Time ─────────────────────────────────────────────────────────────

/// A day begins at midnight, and the first one of 1970 is the day 719163.
pub proof fn law_days(at: Moment)
    ensures
        86_400 * (at.day() - 719_163) <= at.secs,
        at.secs < 86_400 * (at.day() - 719_163 + 1),
{
}

/// The age of a date is the number of days from it to today. The date is read
/// from the first ten bytes of a text, as year, month and day.
pub proof fn law_age_of_a_date(s: Text, today: i32)
    ensures
        byte_prefix(s, 10) is None ==> age(s, today) is None,
        byte_prefix(s, 10) matches Some(p) ==> {
            &&& calendar_day(p, "%Y-%m-%d"@) is None ==> age(s, today) is None
            &&& (calendar_day(p, "%Y-%m-%d"@) matches Some(d) ==> age(s, today) is Some && d
                + age(s, today)->0 == today)
        },
{
}

/// The days between two moments are the whole ones, of 86400 seconds each, to
/// the nanosecond; what is left over of a day does not count.
pub proof fn law_whole_days_between(now: Moment, ts: u64)
    requires
        now.wf(),
    ensures
        ({
            let passed = (now.secs - ts) * 1_000_000_000 + now.nanos;
            let d = whole_days(now, ts);
            &&& passed >= 0 ==> 0 <= d && d * 86_400_000_000_000 <= passed < (d + 1)
                * 86_400_000_000_000
            &&& passed < 0 ==> d <= 0 && (d - 1) * 86_400_000_000_000 < passed <= d
                * 86_400_000_000_000
        }),
{
}

} // verus!
