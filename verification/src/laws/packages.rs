//! What one package contributes to a scan, and the parts of its line.

use crate::render::signed;
use crate::report::records;
use crate::scan::{
    age_note, counted_license, failed, first_sentence, found, heading, missing, or_none_given,
    reason_note, shown, Options, OutcomeView,
};
use crate::text::{begins, ends, find_from, group_holds, holds, lemma_find_from, occurs_at, Text};
use crate::types::{Health, PackageView};
use vstd::prelude::*;

verus! {

/// A package that is not left out: every one, unless only those worth a look
/// are asked for and it is sound, or only at risk of a hijack, and without
/// vulnerabilities.
pub open spec fn wanted(opts: Options, health: Health, cves: nat) -> bool {
    opts.stale_only ==> cves > 0 || !(health == Health::Healthy || health == Health::Hijack)
}

/// A package that is wanted gives its record where records are asked for, else
/// its line; one that is not wanted gives neither. Either way its health, its
/// vulnerabilities and its license count.
pub proof fn law_wanted_packages_are_put_out(
    opts: Options,
    health: Health,
    license: Option<Text>,
    package: PackageView,
    line: Text,
)
    ensures
        ({
            let o = found(opts, health, license, package, line);
            let quiet = opts.output_json || opts.sbom;
            let out = wanted(opts, health, package.vulns.len());
            &&& out && quiet ==> o.result == Some(package) && o.line is None
            &&& out && !quiet ==> o.line == Some(line) && o.result is None
            &&& !out ==> o.result is None && o.line is None
            &&& o.health == health
            &&& o.cves == package.vulns.len()
            &&& o.license == license
        }),
{
    crate::display::law_stale_signs(health);
}

/// A package whose data could not be had counts as unknown and without
/// vulnerabilities. Its record is always given where records are asked for;
/// its line only where all packages are.
pub proof fn law_missing_packages_are_put_out(opts: Options, package: PackageView, line: Text)
    ensures
        ({
            let o = missing(opts, package, line);
            let quiet = opts.output_json || opts.sbom;
            &&& quiet ==> o.result == Some(package) && o.line is None
            &&& !quiet && !opts.stale_only ==> o.line == Some(line) && o.result is None
            &&& !quiet && opts.stale_only ==> o.line is None && o.result is None
            &&& o.health == Health::Unknown
            &&& o.cves == 0
            &&& o.license is None
        }),
{
}

/// A package of a registry that could not be asked about is recorded as
/// unknown, with the error as its reason, and its line says its name, its
/// version and the error.
pub proof fn law_failures_name_the_error(opts: Options, name: Text, version: Text, error: Text)
    ensures
        ({
            let o = failed(opts, name, version, error);
            &&& o.health == Health::Unknown
            &&& o.result matches Some(p) ==> p.name == name && p.version == version && p.health
                == "unknown"@ && p.stale_reason == Some(error) && p.vulns.len() == 0
                && p.description is None && p.latest_version is None && p.provenance is None
            &&& o.line matches Some(l) ==> holds(l, name + " v"@ + version) && holds(l, error)
                && holds(l, "fetch failed"@) && holds(l, "❓"@)
            &&& o.result is Some <==> opts.output_json || opts.sbom
            &&& o.line is Some <==> !opts.output_json && !opts.sbom && !opts.stale_only
        }),
{
    broadcast use group_holds;

    reveal_strlit(" — fetch failed: ");
    reveal_strlit("fetch failed");
    reveal_strlit("❓ ");
    reveal_strlit("❓");
    let t = " — fetch failed: "@;
    assert(t.subrange(3, 15) =~= "fetch failed"@);
    assert(occurs_at(t, "fetch failed"@, 3));
    assert("❓ "@.subrange(0, 1) =~= "❓"@);
    assert(occurs_at("❓ "@, "❓"@, 0));
}

/// Where licenses are counted, a package counts under its own, and one without
/// any under `Unknown`; otherwise under none.
pub proof fn law_licenses_count_if_asked_for(opts: Options, license: Option<Text>)
    ensures
        !opts.licenses ==> counted_license(opts, license) is None,
        opts.licenses && license is Some ==> counted_license(opts, license) == license,
        opts.licenses && license is None ==> counted_license(opts, license) == Some("Unknown"@),
{
}

/// The start of a line has the color of the health, its sign, the name and the
/// version.
pub proof fn law_heading_says_who(health: Health, name: Text, version: Text)
    ensures
        holds(heading(health, name, version), health.emoji()),
        ends(heading(health, name, version), " "@ + name + " v"@ + version),
        health == Health::Healthy ==> begins(heading(health, name, version), "\x1b[32m"@ + "✅"@),
        health == Health::Warning ==> begins(heading(health, name, version), "\x1b[33m"@ + "⚠️"@),
        health == Health::Inactive ==> begins(heading(health, name, version), "\x1b[31m"@ + "🔴"@),
        health == Health::Dead ==> begins(heading(health, name, version), "\x1b[31m"@ + "🪦"@),
        health == Health::Hijack ==> begins(heading(health, name, version), "\x1b[90m"@ + "🚩"@),
        health == Health::Unknown ==> begins(heading(health, name, version), "\x1b[90m"@ + "❓"@),
{
    broadcast use group_holds;

    let t = heading(health, name, version);
    let front = crate::display::color_of(health) + health.emoji() + "\x1b[0m"@;
    let back = " "@ + name + " v"@ + version;
    assert(t =~= front + back);
    assert(ends(front + back, back));
}

/// The reason is shown, below the line, where only packages worth a look are
/// asked for, and only there.
pub proof fn law_reason_is_shown_if_stale(opts: Options, reason: Option<Text>)
    ensures
        opts.stale_only && reason is Some ==> holds(
            reason_note(opts, reason),
            "└─ "@ + reason->0,
        ) && begins(reason_note(opts, reason), "\n   "@),
        !opts.stale_only || reason is None ==> reason_note(opts, reason).len() == 0,
{
    broadcast use group_holds;

    reveal_strlit("");
}

/// How long ago something happened is said of a package that has been quiet
/// for too long: the days since the release, else since the commit.
pub proof fn law_days_are_said_of_quiet_packages(
    health: Health,
    release: Option<i64>,
    commit: Option<i64>,
)
    ensures
        ({
            let quiet = health == Health::Warning || health == Health::Inactive || health
                == Health::Dead;
            let t = age_note(health, release, commit);
            &&& quiet && release is Some ==> holds(
                t,
                "— "@ + signed(release->0 as int) + " days ago"@,
            )
            &&& quiet && release is None && commit is Some ==> holds(
                t,
                "— "@ + signed(commit->0 as int) + " days ago"@,
            )
            &&& !quiet || (release is None && commit is None) ==> t.len() == 0
        }),
{
    broadcast use group_holds;

    reveal_strlit("");
}

/// What is shown of a description goes up to its first period: it holds none,
/// and either a period follows it or nothing does.
pub proof fn law_first_sentence_ends_at_a_period(description: Text, default: Text)
    ensures
        ({
            let t = first_sentence(Some(description), default);
            &&& begins(description, t)
            &&& !holds(t, "."@)
            &&& t == description || begins(description, t + "."@)
        }),
        first_sentence(None, default) == default,
{
    reveal_strlit(".");
    let d = description;
    let t = first_sentence(Some(d), default);
    lemma_find_from(d, "."@, 0);
    match find_from(d, "."@, 0) {
        Some(j) => {
            assert(t =~= d.take(j));
            assert(d.subrange(0, j) =~= t);
            assert(d.subrange(0, j + 1) =~= t + "."@) by {
                assert(d.subrange(j, j + 1)[0] == "."@[0]);
            }
            if holds(t, "."@) {
                let k = choose|k: int| occurs_at(t, "."@, k);
                assert(d.subrange(k, k + 1) =~= t.subrange(k, k + 1));
                assert(occurs_at(d, "."@, k));
            }
        },
        None => {
            assert(t =~= d);
            assert(d.subrange(0, d.len() as int) =~= d);
        },
    }
}

/// A text that is empty gives way to a hint, and no other does.
pub proof fn law_empty_descriptions_give_way(text: Text)
    ensures
        text.len() == 0 ==> or_none_given(text) == "no description"@,
        text.len() > 0 ==> or_none_given(text) == text,
{
}

// ── Whole scans ──────────────────────────────────────────────────────

/// Where every package has a record, each stands in its place.
pub proof fn lemma_records_in_place(all: Seq<OutcomeView>)
    requires
        forall|i: int| 0 <= i < all.len() ==> (#[trigger] all[i]).result is Some,
    ensures
        records(all).len() == all.len(),
        forall|i: int| 0 <= i < all.len() ==> #[trigger] records(all)[i] == all[i].result->0,
    decreases all.len(),
{
    if all.len() > 0 {
        let init = all.drop_last();
        assert forall|i: int| 0 <= i < init.len() implies (#[trigger] init[i]).result is Some by {
            assert(init[i] == all[i]);
        }
        lemma_records_in_place(init);
        assert(all[all.len() - 1] == all.last());
        assert forall|i: int| 0 <= i < all.len() implies #[trigger] records(all)[i]
            == all[i].result->0 by {
            if i < init.len() {
                assert(records(init)[i] == init[i].result->0);
            }
        }
    }
}

} // verus!
