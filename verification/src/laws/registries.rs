//! Whole scans of the registries: records, lines, summaries and exit codes
//! over the dependencies as they were fetched.

use crate::api::GitHubRepo;
use crate::cargo::{
    crate_health, crate_line, crate_outcome, crate_outcomes, crate_record, CrateScan,
};
use crate::clock::age;
use crate::golang::{
    go_line, go_outcome, go_outcomes, go_record, hijack, module_health, module_repository, GoScan,
};
use crate::laws::packages::{law_wanted_packages_are_put_out, lemma_records_in_place, wanted};
use crate::laws::reports::{
    law_report_is_what_was_asked_for, law_summary_counts, law_text_holds_the_lines,
    lemma_places_agree, lemma_total_agrees, places, total,
};
use crate::laws::scoring::{fresh_enough, law_health_bands, over_two_years};
use crate::npm::{
    npm_health, npm_line, npm_outcome, npm_outcomes, npm_record, npm_release_age, NpmScan,
};
use crate::pypi::{
    pypi_health, pypi_line, pypi_outcome, pypi_outcomes, pypi_record, pypi_release_age, PypiScan,
};
use crate::report::{
    law_ci_fails_on_dead_or_vulnerable, law_only_ci_fails, records, report_of, tally, Ecosystem,
};
use crate::scan::{Options, OutcomeView};
use crate::text::{holds, Text};
use crate::types::{lemma_words, Health};
use vstd::prelude::*;

verus! {

/// The days since the last push to a repository that is known.
pub open spec fn pushed(gh: Option<GitHubRepo>, today: i32) -> Option<i64> {
    match gh {
        Some(repo) => age(repo.pushed_at@, today),
        None => None,
    }
}

/// Two states of health have the same word only if they are the same.
proof fn lemma_word_is(a: Health, b: Health)
    ensures
        a.word() == b.word() <==> a == b,
{
    lemma_words(a);
    lemma_words(b);
}

/// The summary of a scan counts the records by the word of their health.
pub open spec fn counts_words(
    all: Seq<OutcomeView>,
    n: nat,
    word: spec_fn(int) -> Text,
) -> bool {
    &&& tally(all).healthy == places(n, |i: int| word(i) == "healthy"@)
    &&& tally(all).warning == places(n, |i: int| word(i) == "warning"@)
    &&& tally(all).hijack == places(n, |i: int| word(i) == "hijack"@)
    &&& tally(all).inactive == places(n, |i: int| word(i) == "inactive"@)
    &&& tally(all).dead == places(n, |i: int| word(i) == "dead"@)
    &&& tally(all).unknown == places(n, |i: int| word(i) == "unknown"@)
}

proof fn lemma_counts_words(all: Seq<OutcomeView>, word: spec_fn(int) -> Text)
    requires
        all.len() < 0x1_0000_0000,
        total(all.len(), |i: int| all[i].cves) < 0x1_0000_0000,
        forall|i: int| 0 <= i < all.len() ==> #[trigger] word(i) == all[i].health.word(),
    ensures
        counts_words(all, all.len(), word),
{
    law_summary_counts(all);
    assert forall|i: int, h: Health| 0 <= i < all.len() implies (#[trigger] word(i)
        == #[trigger] h.word() <==> all[i].health == h) by {
        lemma_word_is(all[i].health, h);
    }
    lemma_one_word(all, word, Health::Healthy);
    lemma_one_word(all, word, Health::Warning);
    lemma_one_word(all, word, Health::Hijack);
    lemma_one_word(all, word, Health::Inactive);
    lemma_one_word(all, word, Health::Dead);
    lemma_one_word(all, word, Health::Unknown);
    lemma_places_agree(
        all.len(),
        |i: int| word(i) == Health::Healthy.word(),
        |i: int| word(i) == "healthy"@,
    );
    lemma_places_agree(
        all.len(),
        |i: int| word(i) == Health::Warning.word(),
        |i: int| word(i) == "warning"@,
    );
    lemma_places_agree(
        all.len(),
        |i: int| word(i) == Health::Hijack.word(),
        |i: int| word(i) == "hijack"@,
    );
    lemma_places_agree(
        all.len(),
        |i: int| word(i) == Health::Inactive.word(),
        |i: int| word(i) == "inactive"@,
    );
    lemma_places_agree(
        all.len(),
        |i: int| word(i) == Health::Dead.word(),
        |i: int| word(i) == "dead"@,
    );
    lemma_places_agree(
        all.len(),
        |i: int| word(i) == Health::Unknown.word(),
        |i: int| word(i) == "unknown"@,
    );
}

proof fn lemma_one_word(all: Seq<OutcomeView>, word: spec_fn(int) -> Text, h: Health)
    requires
        forall|i: int| 0 <= i < all.len() ==> #[trigger] word(i) == all[i].health.word(),
    ensures
        places(all.len(), |i: int| all[i].health == h) == places(
            all.len(),
            |i: int| word(i) == h.word(),
        ),
{
    assert forall|i: int| 0 <= i < all.len() implies (#[trigger] word(i) == h.word()) == (
    all[i].health == h) by {
        lemma_word_is(all[i].health, h);
    }
    lemma_places_agree(
        all.len(),
        |i: int| all[i].health == h,
        |i: int| word(i) == h.word(),
    );
}

proof fn lemma_cves_total(all: Seq<OutcomeView>)
    ensures
        crate::report::all_cves(all) == total(all.len(), |i: int| all[i].cves),
    decreases all.len(),
{
    if all.len() > 0 {
        let init = all.drop_last();
        lemma_cves_total(init);
        lemma_total_agrees(init.len(), |i: int| init[i].cves, |i: int| all[i].cves);
    }
}

/// The days since the last push to the repository of a Go module, where it
/// could be had.
pub open spec fn go_pushed(gh: Option<Result<GitHubRepo, String>>, today: i32) -> Option<i64> {
    match gh {
        Some(Ok(repo)) => age(repo.pushed_at@, today),
        _ => None,
    }
}

/// A module on GitHub whose repository is archived or not to be found.
pub open spec fn go_at_risk(s: GoScan) -> bool {
    module_repository(s.name@) is Some && match s.github {
        Some(Ok(repo)) => repo.archived,
        Some(Err(e)) => holds(e@, "404"@),
        None => false,
    }
}

// ── crates.io ────────────────────────────────────────────────── ──

/// Scans of the given dependencies whose counters do not start again from 0.
pub open spec fn cargo_countable(deps: Seq<CrateScan>) -> bool {
    deps.len() < 0x1_0000_0000 && cargo_vulns(deps) < 0x1_0000_0000
}

/// How many vulnerabilities were found for the dependencies whose data could
/// be had.
pub open spec fn cargo_vulns(deps: Seq<CrateScan>) -> nat {
    total(
        deps.len(),
        |i: int|
            if deps[i].fetched is Ok {
                deps[i].vulns@.len()
            } else {
                0
            },
    )
}

/// A dependency whose data could be had and that has been quiet for over two
/// years: by its release, or, where that is fresh,
/// by its last commit.
pub open spec fn cargo_is_dead(s: CrateScan, today: i32) -> bool {
    s.fetched matches Ok(data) && ({
        let release = age(data.crate_data.updated_at@, today);
        let commit = pushed(s.github, today);
        over_two_years(release) || (fresh_enough(release) && over_two_years(commit))
    })
}

proof fn lemma_cargo_outcomes(opts: Options, deps: Seq<CrateScan>, today: i32)
    ensures
        ({
            let all = crate_outcomes(opts, deps, today);
            &&& all.len() == deps.len()
            &&& forall|i: int|
                0 <= i < deps.len() ==> (#[trigger] all[i]).health.word() == crate_record(
                    deps[i],
                    today,
                ).health
            &&& forall|i: int|
                0 <= i < deps.len() ==> (#[trigger] all[i]).cves == if deps[i].fetched is Ok {
                    deps[i].vulns@.len()
                } else {
                    0
                }
            &&& forall|i: int|
                0 <= i < deps.len() ==> ((#[trigger] all[i]).health == Health::Dead <==> cargo_is_dead(
                    deps[i],
                    today,
                ))
            &&& total(all.len(), |i: int| all[i].cves) == cargo_vulns(deps)
        }),
{
    let all = crate_outcomes(opts, deps, today);
    assert forall|i: int| 0 <= i < deps.len() implies (#[trigger] all[i]).health.word() == crate_record(
        deps[i],
        today,
    ).health && all[i].cves == (if deps[i].fetched is Ok {
        deps[i].vulns@.len()
    } else {
        0
    }) && (all[i].health == Health::Dead <==> cargo_is_dead(deps[i], today)) by {
        let s = deps[i];
        assert(s.vulns.deep_view().len() == s.vulns@.len());
        match s.fetched {
            Ok(data) => {
                law_health_bands(age(data.crate_data.updated_at@, today), pushed(s.github, today));
            },
            Err(e) => {},
        }
    }
    lemma_total_agrees(
        all.len(),
        |i: int| all[i].cves,
        |i: int|
            if deps[i].fetched is Ok {
                deps[i].vulns@.len()
            } else {
                0
            },
    );
}

/// The summary of a scan counts every dependency by its health, and all the
/// vulnerabilities that were found for the dependencies whose data could be
/// had.
pub proof fn law_cargo_summary(opts: Options, deps: Seq<CrateScan>, today: i32)
    requires
        cargo_countable(deps),
    ensures
        ({
            let all = crate_outcomes(opts, deps, today);
            &&& tally(all).cves == cargo_vulns(deps)
            &&& counts_words(all, deps.len(), |i: int| crate_record(deps[i], today).health)
            &&& tally(all).dead == places(deps.len(), |i: int| cargo_is_dead(deps[i], today))
        }),
{
    let all = crate_outcomes(opts, deps, today);
    lemma_cargo_outcomes(opts, deps, today);
    law_summary_counts(all);
    lemma_counts_words(all, |i: int| crate_record(deps[i], today).health);
    lemma_places_agree(
        deps.len(),
        |i: int| all[i].health == Health::Dead,
        |i: int| cargo_is_dead(deps[i], today),
    );
}

/// A scan fails exactly where that was asked for and some dependency whose
/// data could be had is dead or has a vulnerability.
pub proof fn law_cargo_exit_code(opts: Options, deps: Seq<CrateScan>, today: i32)
    requires
        cargo_countable(deps),
    ensures
        ({
            let code = report_of(
                Ecosystem::Cargo,
                opts,
                crate_outcomes(opts, deps, today),
            ).exit_code;
            &&& code == 1 <==> opts.ci && exists|i: int|
                0 <= i < deps.len() && (#[trigger] deps[i]).fetched is Ok && (
                deps[i].vulns@.len() > 0 || cargo_is_dead(deps[i], today))
            &&& code == 0 || code == 1
        }),
{
    let all = crate_outcomes(opts, deps, today);
    lemma_cargo_outcomes(opts, deps, today);
    law_only_ci_fails(Ecosystem::Cargo, opts, all);
    lemma_cves_total(all);
    if opts.ci {
        law_ci_fails_on_dead_or_vulnerable(Ecosystem::Cargo, opts, all);
        if exists|i: int|
            0 <= i < deps.len() && (#[trigger] deps[i]).fetched is Ok && (deps[i].vulns@.len() > 0
                || cargo_is_dead(deps[i], today)) {
            let i = choose|i: int|
                0 <= i < deps.len() && (#[trigger] deps[i]).fetched is Ok && (
                deps[i].vulns@.len() > 0 || cargo_is_dead(deps[i], today));
            assert(all[i].health == Health::Dead || all[i].cves > 0);
        }
        if exists|i: int|
            0 <= i < all.len() && ((#[trigger] all[i]).health == Health::Dead || all[i].cves > 0) {
            let i = choose|i: int|
                0 <= i < all.len() && ((#[trigger] all[i]).health == Health::Dead || all[i].cves
                    > 0);
            assert(deps[i].fetched is Ok);
        }
    }
}

/// A scan of all packages for JSON gives the record of every dependency, in
/// its place.
pub proof fn law_cargo_json(opts: Options, deps: Seq<CrateScan>, today: i32)
    requires
        opts.output_json,
        !opts.sbom,
        !opts.stale_only,
    ensures
        ({
            let o = report_of(Ecosystem::Cargo, opts, crate_outcomes(opts, deps, today)).output;
            &&& o is Json
            &&& o->Json_0.packages.len() == deps.len()
            &&& forall|i: int|
                0 <= i < deps.len() ==> #[trigger] o->Json_0.packages[i] == crate_record(deps[i], today)
        }),
{
    let all = crate_outcomes(opts, deps, today);
    law_report_is_what_was_asked_for(Ecosystem::Cargo, opts, all);
    assert forall|i: int| 0 <= i < all.len() implies (#[trigger] all[i]).result == Some(
        crate_record(deps[i], today),
    ) by {
        assert(all[i] == crate_outcome(opts, deps[i], today));
    }
    lemma_records_in_place(all);
}

/// A text scan holds the line of every dependency that is wanted and whose
/// health is known.
pub proof fn law_cargo_text(opts: Options, deps: Seq<CrateScan>, today: i32, i: int)
    requires
        !opts.output_json,
        !opts.sbom,
        deps.len() < 0x1_0000_0000,
        0 <= i < deps.len(),
        deps[i].fetched is Ok,
        crate_record(deps[i], today).health != "unknown"@,
        opts.stale_only ==> deps[i].vulns@.len() > 0 || !(crate_record(deps[i], today).health
            == "healthy"@ || crate_record(deps[i], today).health == "hijack"@),
    ensures
        ({
            let o = report_of(Ecosystem::Cargo, opts, crate_outcomes(opts, deps, today)).output;
            o is Text && o->Text_0.contains(
                crate_line(opts, deps[i], deps[i].fetched->Ok_0.crate_data, today),
            )
        }),
{
    let all = crate_outcomes(opts, deps, today);
    let s = deps[i];
    let data = s.fetched->Ok_0;
    let h = crate_health(data.crate_data, s.github.deep_view(), today);
    assert(s.vulns.deep_view().len() == s.vulns@.len());
    assert(all[i] == crate_outcome(opts, s, today));
    lemma_word_is(h, Health::Unknown);
    lemma_word_is(h, Health::Healthy);
    lemma_word_is(h, Health::Hijack);
    law_wanted_packages_are_put_out(
        opts,
        h,
        crate::scan::counted_license(opts, data.crate_data.license.deep_view()),
        crate_record(s, today),
        crate_line(opts, s, data.crate_data, today),
    );
    law_text_holds_the_lines(Ecosystem::Cargo, opts, all, i);
}

// ── npm ──────────────────────────────────────────────────────── ──

/// Scans of the given dependencies whose counters do not start again from 0.
pub open spec fn npm_countable(deps: Seq<NpmScan>) -> bool {
    deps.len() < 0x1_0000_0000 && npm_vulns(deps) < 0x1_0000_0000
}

/// How many vulnerabilities were found for the dependencies whose data could
/// be had.
pub open spec fn npm_vulns(deps: Seq<NpmScan>) -> nat {
    total(
        deps.len(),
        |i: int|
            if deps[i].fetched is Ok {
                deps[i].vulns@.len()
            } else {
                0
            },
    )
}

/// A dependency whose data could be had and that has been quiet for over two
/// years: by its release, or, where that is fresh,
/// by its last commit.
pub open spec fn npm_is_dead(s: NpmScan, today: i32) -> bool {
    s.fetched matches Ok(data) && ({
        let release = npm_release_age(data, today);
        let commit = pushed(s.github, today);
        over_two_years(release) || (fresh_enough(release) && over_two_years(commit))
    })
}

proof fn lemma_npm_outcomes(opts: Options, deps: Seq<NpmScan>, today: i32)
    ensures
        ({
            let all = npm_outcomes(opts, deps, today);
            &&& all.len() == deps.len()
            &&& forall|i: int|
                0 <= i < deps.len() ==> (#[trigger] all[i]).health.word() == npm_record(
                    deps[i],
                    today,
                ).health
            &&& forall|i: int|
                0 <= i < deps.len() ==> (#[trigger] all[i]).cves == if deps[i].fetched is Ok {
                    deps[i].vulns@.len()
                } else {
                    0
                }
            &&& forall|i: int|
                0 <= i < deps.len() ==> ((#[trigger] all[i]).health == Health::Dead <==> npm_is_dead(
                    deps[i],
                    today,
                ))
            &&& total(all.len(), |i: int| all[i].cves) == npm_vulns(deps)
        }),
{
    let all = npm_outcomes(opts, deps, today);
    assert forall|i: int| 0 <= i < deps.len() implies (#[trigger] all[i]).health.word() == npm_record(
        deps[i],
        today,
    ).health && all[i].cves == (if deps[i].fetched is Ok {
        deps[i].vulns@.len()
    } else {
        0
    }) && (all[i].health == Health::Dead <==> npm_is_dead(deps[i], today)) by {
        let s = deps[i];
        assert(s.vulns.deep_view().len() == s.vulns@.len());
        match s.fetched {
            Ok(data) => {
                law_health_bands(npm_release_age(data, today), pushed(s.github, today));
            },
            Err(e) => {},
        }
    }
    lemma_total_agrees(
        all.len(),
        |i: int| all[i].cves,
        |i: int|
            if deps[i].fetched is Ok {
                deps[i].vulns@.len()
            } else {
                0
            },
    );
}

/// The summary of a scan counts every dependency by its health, and all the
/// vulnerabilities that were found for the dependencies whose data could be
/// had.
pub proof fn law_npm_summary(opts: Options, deps: Seq<NpmScan>, today: i32)
    requires
        npm_countable(deps),
    ensures
        ({
            let all = npm_outcomes(opts, deps, today);
            &&& tally(all).cves == npm_vulns(deps)
            &&& counts_words(all, deps.len(), |i: int| npm_record(deps[i], today).health)
            &&& tally(all).dead == places(deps.len(), |i: int| npm_is_dead(deps[i], today))
        }),
{
    let all = npm_outcomes(opts, deps, today);
    lemma_npm_outcomes(opts, deps, today);
    law_summary_counts(all);
    lemma_counts_words(all, |i: int| npm_record(deps[i], today).health);
    lemma_places_agree(
        deps.len(),
        |i: int| all[i].health == Health::Dead,
        |i: int| npm_is_dead(deps[i], today),
    );
}

/// A scan fails exactly where that was asked for and some dependency whose
/// data could be had is dead or has a vulnerability.
pub proof fn law_npm_exit_code(opts: Options, deps: Seq<NpmScan>, today: i32)
    requires
        npm_countable(deps),
    ensures
        ({
            let code = report_of(
                Ecosystem::Npm,
                opts,
                npm_outcomes(opts, deps, today),
            ).exit_code;
            &&& code == 1 <==> opts.ci && exists|i: int|
                0 <= i < deps.len() && (#[trigger] deps[i]).fetched is Ok && (
                deps[i].vulns@.len() > 0 || npm_is_dead(deps[i], today))
            &&& code == 0 || code == 1
        }),
{
    let all = npm_outcomes(opts, deps, today);
    lemma_npm_outcomes(opts, deps, today);
    law_only_ci_fails(Ecosystem::Npm, opts, all);
    lemma_cves_total(all);
    if opts.ci {
        law_ci_fails_on_dead_or_vulnerable(Ecosystem::Npm, opts, all);
        if exists|i: int|
            0 <= i < deps.len() && (#[trigger] deps[i]).fetched is Ok && (deps[i].vulns@.len() > 0
                || npm_is_dead(deps[i], today)) {
            let i = choose|i: int|
                0 <= i < deps.len() && (#[trigger] deps[i]).fetched is Ok && (
                deps[i].vulns@.len() > 0 || npm_is_dead(deps[i], today));
            assert(all[i].health == Health::Dead || all[i].cves > 0);
        }
        if exists|i: int|
            0 <= i < all.len() && ((#[trigger] all[i]).health == Health::Dead || all[i].cves > 0) {
            let i = choose|i: int|
                0 <= i < all.len() && ((#[trigger] all[i]).health == Health::Dead || all[i].cves
                    > 0);
            assert(deps[i].fetched is Ok);
        }
    }
}

/// A scan of all packages for JSON gives the record of every dependency, in
/// its place.
pub proof fn law_npm_json(opts: Options, deps: Seq<NpmScan>, today: i32)
    requires
        opts.output_json,
        !opts.sbom,
        !opts.stale_only,
    ensures
        ({
            let o = report_of(Ecosystem::Npm, opts, npm_outcomes(opts, deps, today)).output;
            &&& o is Json
            &&& o->Json_0.packages.len() == deps.len()
            &&& forall|i: int|
                0 <= i < deps.len() ==> #[trigger] o->Json_0.packages[i] == npm_record(deps[i], today)
        }),
{
    let all = npm_outcomes(opts, deps, today);
    law_report_is_what_was_asked_for(Ecosystem::Npm, opts, all);
    assert forall|i: int| 0 <= i < all.len() implies (#[trigger] all[i]).result == Some(
        npm_record(deps[i], today),
    ) by {
        assert(all[i] == npm_outcome(opts, deps[i], today));
    }
    lemma_records_in_place(all);
}

/// A text scan holds the line of every dependency that is wanted and whose
/// health is known.
pub proof fn law_npm_text(opts: Options, deps: Seq<NpmScan>, today: i32, i: int)
    requires
        !opts.output_json,
        !opts.sbom,
        deps.len() < 0x1_0000_0000,
        0 <= i < deps.len(),
        deps[i].fetched is Ok,
        npm_record(deps[i], today).health != "unknown"@,
        opts.stale_only ==> deps[i].vulns@.len() > 0 || !(npm_record(deps[i], today).health
            == "healthy"@ || npm_record(deps[i], today).health == "hijack"@),
    ensures
        ({
            let o = report_of(Ecosystem::Npm, opts, npm_outcomes(opts, deps, today)).output;
            o is Text && o->Text_0.contains(npm_line(opts, deps[i], deps[i].fetched->Ok_0, today))
        }),
{
    let all = npm_outcomes(opts, deps, today);
    let s = deps[i];
    let data = s.fetched->Ok_0;
    let h = npm_health(data, s.github.deep_view(), today);
    assert(s.vulns.deep_view().len() == s.vulns@.len());
    assert(all[i] == npm_outcome(opts, s, today));
    lemma_word_is(h, Health::Unknown);
    lemma_word_is(h, Health::Healthy);
    lemma_word_is(h, Health::Hijack);
    law_wanted_packages_are_put_out(
        opts,
        h,
        crate::scan::counted_license(opts, data.license.deep_view()),
        npm_record(s, today),
        npm_line(opts, s, data, today),
    );
    law_text_holds_the_lines(Ecosystem::Npm, opts, all, i);
}

// ── PyPI ─────────────────────────────────────────────────────── ──

/// Scans of the given dependencies whose counters do not start again from 0.
pub open spec fn pypi_countable(deps: Seq<PypiScan>) -> bool {
    deps.len() < 0x1_0000_0000 && pypi_vulns(deps) < 0x1_0000_0000
}

/// How many vulnerabilities were found for the dependencies whose data could
/// be had.
pub open spec fn pypi_vulns(deps: Seq<PypiScan>) -> nat {
    total(
        deps.len(),
        |i: int|
            if deps[i].fetched is Ok {
                deps[i].vulns@.len()
            } else {
                0
            },
    )
}

/// A dependency whose data could be had and that has been quiet for over two
/// years: by its release, or, where that is fresh,
/// by its last commit.
pub open spec fn pypi_is_dead(s: PypiScan, today: i32) -> bool {
    s.fetched matches Ok(data) && ({
        let release = pypi_release_age(data.urls@, today);
        let commit = pushed(s.github, today);
        over_two_years(release) || (fresh_enough(release) && over_two_years(commit))
    })
}

proof fn lemma_pypi_outcomes(opts: Options, deps: Seq<PypiScan>, today: i32)
    ensures
        ({
            let all = pypi_outcomes(opts, deps, today);
            &&& all.len() == deps.len()
            &&& forall|i: int|
                0 <= i < deps.len() ==> (#[trigger] all[i]).health.word() == pypi_record(
                    deps[i],
                    today,
                ).health
            &&& forall|i: int|
                0 <= i < deps.len() ==> (#[trigger] all[i]).cves == if deps[i].fetched is Ok {
                    deps[i].vulns@.len()
                } else {
                    0
                }
            &&& forall|i: int|
                0 <= i < deps.len() ==> ((#[trigger] all[i]).health == Health::Dead <==> pypi_is_dead(
                    deps[i],
                    today,
                ))
            &&& total(all.len(), |i: int| all[i].cves) == pypi_vulns(deps)
        }),
{
    let all = pypi_outcomes(opts, deps, today);
    assert forall|i: int| 0 <= i < deps.len() implies (#[trigger] all[i]).health.word() == pypi_record(
        deps[i],
        today,
    ).health && all[i].cves == (if deps[i].fetched is Ok {
        deps[i].vulns@.len()
    } else {
        0
    }) && (all[i].health == Health::Dead <==> pypi_is_dead(deps[i], today)) by {
        let s = deps[i];
        assert(s.vulns.deep_view().len() == s.vulns@.len());
        match s.fetched {
            Ok(data) => {
                law_health_bands(pypi_release_age(data.urls@, today), pushed(s.github, today));
            },
            Err(e) => {},
        }
    }
    lemma_total_agrees(
        all.len(),
        |i: int| all[i].cves,
        |i: int|
            if deps[i].fetched is Ok {
                deps[i].vulns@.len()
            } else {
                0
            },
    );
}

/// The summary of a scan counts every dependency by its health, and all the
/// vulnerabilities that were found for the dependencies whose data could be
/// had.
pub proof fn law_pypi_summary(opts: Options, deps: Seq<PypiScan>, today: i32)
    requires
        pypi_countable(deps),
    ensures
        ({
            let all = pypi_outcomes(opts, deps, today);
            &&& tally(all).cves == pypi_vulns(deps)
            &&& counts_words(all, deps.len(), |i: int| pypi_record(deps[i], today).health)
            &&& tally(all).dead == places(deps.len(), |i: int| pypi_is_dead(deps[i], today))
        }),
{
    let all = pypi_outcomes(opts, deps, today);
    lemma_pypi_outcomes(opts, deps, today);
    law_summary_counts(all);
    lemma_counts_words(all, |i: int| pypi_record(deps[i], today).health);
    lemma_places_agree(
        deps.len(),
        |i: int| all[i].health == Health::Dead,
        |i: int| pypi_is_dead(deps[i], today),
    );
}

/// A scan fails exactly where that was asked for and some dependency whose
/// data could be had is dead or has a vulnerability.
pub proof fn law_pypi_exit_code(opts: Options, deps: Seq<PypiScan>, today: i32)
    requires
        pypi_countable(deps),
    ensures
        ({
            let code = report_of(
                Ecosystem::Pypi,
                opts,
                pypi_outcomes(opts, deps, today),
            ).exit_code;
            &&& code == 1 <==> opts.ci && exists|i: int|
                0 <= i < deps.len() && (#[trigger] deps[i]).fetched is Ok && (
                deps[i].vulns@.len() > 0 || pypi_is_dead(deps[i], today))
            &&& code == 0 || code == 1
        }),
{
    let all = pypi_outcomes(opts, deps, today);
    lemma_pypi_outcomes(opts, deps, today);
    law_only_ci_fails(Ecosystem::Pypi, opts, all);
    lemma_cves_total(all);
    if opts.ci {
        law_ci_fails_on_dead_or_vulnerable(Ecosystem::Pypi, opts, all);
        if exists|i: int|
            0 <= i < deps.len() && (#[trigger] deps[i]).fetched is Ok && (deps[i].vulns@.len() > 0
                || pypi_is_dead(deps[i], today)) {
            let i = choose|i: int|
                0 <= i < deps.len() && (#[trigger] deps[i]).fetched is Ok && (
                deps[i].vulns@.len() > 0 || pypi_is_dead(deps[i], today));
            assert(all[i].health == Health::Dead || all[i].cves > 0);
        }
        if exists|i: int|
            0 <= i < all.len() && ((#[trigger] all[i]).health == Health::Dead || all[i].cves > 0) {
            let i = choose|i: int|
                0 <= i < all.len() && ((#[trigger] all[i]).health == Health::Dead || all[i].cves
                    > 0);
            assert(deps[i].fetched is Ok);
        }
    }
}

/// A scan of all packages for JSON gives the record of every dependency, in
/// its place.
pub proof fn law_pypi_json(opts: Options, deps: Seq<PypiScan>, today: i32)
    requires
        opts.output_json,
        !opts.sbom,
        !opts.stale_only,
    ensures
        ({
            let o = report_of(Ecosystem::Pypi, opts, pypi_outcomes(opts, deps, today)).output;
            &&& o is Json
            &&& o->Json_0.packages.len() == deps.len()
            &&& forall|i: int|
                0 <= i < deps.len() ==> #[trigger] o->Json_0.packages[i] == pypi_record(deps[i], today)
        }),
{
    let all = pypi_outcomes(opts, deps, today);
    law_report_is_what_was_asked_for(Ecosystem::Pypi, opts, all);
    assert forall|i: int| 0 <= i < all.len() implies (#[trigger] all[i]).result == Some(
        pypi_record(deps[i], today),
    ) by {
        assert(all[i] == pypi_outcome(opts, deps[i], today));
    }
    lemma_records_in_place(all);
}

/// A text scan holds the line of every dependency that is wanted and whose
/// health is known.
pub proof fn law_pypi_text(opts: Options, deps: Seq<PypiScan>, today: i32, i: int)
    requires
        !opts.output_json,
        !opts.sbom,
        deps.len() < 0x1_0000_0000,
        0 <= i < deps.len(),
        deps[i].fetched is Ok,
        pypi_record(deps[i], today).health != "unknown"@,
        opts.stale_only ==> deps[i].vulns@.len() > 0 || !(pypi_record(deps[i], today).health
            == "healthy"@ || pypi_record(deps[i], today).health == "hijack"@),
    ensures
        ({
            let o = report_of(Ecosystem::Pypi, opts, pypi_outcomes(opts, deps, today)).output;
            o is Text && o->Text_0.contains(pypi_line(opts, deps[i], deps[i].fetched->Ok_0, today))
        }),
{
    let all = pypi_outcomes(opts, deps, today);
    let s = deps[i];
    let data = s.fetched->Ok_0;
    let h = pypi_health(data.urls@, s.github.deep_view(), today);
    assert(s.vulns.deep_view().len() == s.vulns@.len());
    assert(all[i] == pypi_outcome(opts, s, today));
    lemma_word_is(h, Health::Unknown);
    lemma_word_is(h, Health::Healthy);
    lemma_word_is(h, Health::Hijack);
    law_wanted_packages_are_put_out(
        opts,
        h,
        crate::scan::counted_license(opts, data.info.license.deep_view()),
        pypi_record(s, today),
        pypi_line(opts, s, data, today),
    );
    law_text_holds_the_lines(Ecosystem::Pypi, opts, all, i);
}

// ── Go ───────────────────────────────────────────────────────── ──

/// Scans of the given dependencies whose counters do not start again from 0.
pub open spec fn go_countable(deps: Seq<GoScan>) -> bool {
    deps.len() < 0x1_0000_0000 && go_vulns(deps) < 0x1_0000_0000
}

/// How many vulnerabilities were found for the dependencies whose data could
/// be had.
pub open spec fn go_vulns(deps: Seq<GoScan>) -> nat {
    total(
        deps.len(),
        |i: int|
            if deps[i].fetched is Ok {
                deps[i].vulns@.len()
            } else {
                0
            },
    )
}

/// A dependency whose data could be had and that has been quiet for over two
/// years, and that nothing speaks for a hijack of.
pub open spec fn go_is_dead(s: GoScan, today: i32) -> bool {
    s.fetched matches Ok(data) && !go_at_risk(s) && ({
        let release = age(data.time@, today);
        let commit = go_pushed(s.github, today);
        over_two_years(release) || (fresh_enough(release) && over_two_years(commit))
    })
}

proof fn lemma_go_outcomes(opts: Options, deps: Seq<GoScan>, today: i32)
    ensures
        ({
            let all = go_outcomes(opts, deps, today);
            &&& all.len() == deps.len()
            &&& forall|i: int|
                0 <= i < deps.len() ==> (#[trigger] all[i]).health.word() == go_record(
                    deps[i],
                    today,
                ).health
            &&& forall|i: int|
                0 <= i < deps.len() ==> (#[trigger] all[i]).cves == if deps[i].fetched is Ok {
                    deps[i].vulns@.len()
                } else {
                    0
                }
            &&& forall|i: int|
                0 <= i < deps.len() ==> ((#[trigger] all[i]).health == Health::Dead <==> go_is_dead(
                    deps[i],
                    today,
                ))
            &&& total(all.len(), |i: int| all[i].cves) == go_vulns(deps)
        }),
{
    let all = go_outcomes(opts, deps, today);
    assert forall|i: int| 0 <= i < deps.len() implies (#[trigger] all[i]).health.word() == go_record(
        deps[i],
        today,
    ).health && all[i].cves == (if deps[i].fetched is Ok {
        deps[i].vulns@.len()
    } else {
        0
    }) && (all[i].health == Health::Dead <==> go_is_dead(deps[i], today)) by {
        let s = deps[i];
        assert(s.vulns.deep_view().len() == s.vulns@.len());
        match s.fetched {
            Ok(data) => {
                law_health_bands(age(data.time@, today), go_pushed(s.github, today));
            },
            Err(e) => {},
        }
    }
    lemma_total_agrees(
        all.len(),
        |i: int| all[i].cves,
        |i: int|
            if deps[i].fetched is Ok {
                deps[i].vulns@.len()
            } else {
                0
            },
    );
}

/// The summary of a scan counts every dependency by its health, and all the
/// vulnerabilities that were found for the dependencies whose data could be
/// had.
pub proof fn law_go_summary(opts: Options, deps: Seq<GoScan>, today: i32)
    requires
        go_countable(deps),
    ensures
        ({
            let all = go_outcomes(opts, deps, today);
            &&& tally(all).cves == go_vulns(deps)
            &&& counts_words(all, deps.len(), |i: int| go_record(deps[i], today).health)
            &&& tally(all).dead == places(deps.len(), |i: int| go_is_dead(deps[i], today))
        }),
{
    let all = go_outcomes(opts, deps, today);
    lemma_go_outcomes(opts, deps, today);
    law_summary_counts(all);
    lemma_counts_words(all, |i: int| go_record(deps[i], today).health);
    lemma_places_agree(
        deps.len(),
        |i: int| all[i].health == Health::Dead,
        |i: int| go_is_dead(deps[i], today),
    );
}

/// A scan fails exactly where that was asked for and some dependency whose
/// data could be had is dead or has a vulnerability.
pub proof fn law_go_exit_code(opts: Options, deps: Seq<GoScan>, today: i32)
    requires
        go_countable(deps),
    ensures
        ({
            let code = report_of(
                Ecosystem::Go,
                opts,
                go_outcomes(opts, deps, today),
            ).exit_code;
            &&& code == 1 <==> opts.ci && exists|i: int|
                0 <= i < deps.len() && (#[trigger] deps[i]).fetched is Ok && (
                deps[i].vulns@.len() > 0 || go_is_dead(deps[i], today))
            &&& code == 0 || code == 1
        }),
{
    let all = go_outcomes(opts, deps, today);
    lemma_go_outcomes(opts, deps, today);
    law_only_ci_fails(Ecosystem::Go, opts, all);
    lemma_cves_total(all);
    if opts.ci {
        law_ci_fails_on_dead_or_vulnerable(Ecosystem::Go, opts, all);
        if exists|i: int|
            0 <= i < deps.len() && (#[trigger] deps[i]).fetched is Ok && (deps[i].vulns@.len() > 0
                || go_is_dead(deps[i], today)) {
            let i = choose|i: int|
                0 <= i < deps.len() && (#[trigger] deps[i]).fetched is Ok && (
                deps[i].vulns@.len() > 0 || go_is_dead(deps[i], today));
            assert(all[i].health == Health::Dead || all[i].cves > 0);
        }
        if exists|i: int|
            0 <= i < all.len() && ((#[trigger] all[i]).health == Health::Dead || all[i].cves > 0) {
            let i = choose|i: int|
                0 <= i < all.len() && ((#[trigger] all[i]).health == Health::Dead || all[i].cves
                    > 0);
            assert(deps[i].fetched is Ok);
        }
    }
}

/// A scan of all packages for JSON gives the record of every dependency, in
/// its place.
pub proof fn law_go_json(opts: Options, deps: Seq<GoScan>, today: i32)
    requires
        opts.output_json,
        !opts.sbom,
        !opts.stale_only,
    ensures
        ({
            let o = report_of(Ecosystem::Go, opts, go_outcomes(opts, deps, today)).output;
            &&& o is Json
            &&& o->Json_0.packages.len() == deps.len()
            &&& forall|i: int|
                0 <= i < deps.len() ==> #[trigger] o->Json_0.packages[i] == go_record(deps[i], today)
        }),
{
    let all = go_outcomes(opts, deps, today);
    law_report_is_what_was_asked_for(Ecosystem::Go, opts, all);
    assert forall|i: int| 0 <= i < all.len() implies (#[trigger] all[i]).result == Some(
        go_record(deps[i], today),
    ) by {
        assert(all[i] == go_outcome(opts, deps[i], today));
    }
    lemma_records_in_place(all);
}

/// A text scan holds the line of every dependency that is wanted and whose
/// health is known.
pub proof fn law_go_text(opts: Options, deps: Seq<GoScan>, today: i32, i: int)
    requires
        !opts.output_json,
        !opts.sbom,
        deps.len() < 0x1_0000_0000,
        0 <= i < deps.len(),
        deps[i].fetched is Ok,
        go_record(deps[i], today).health != "unknown"@,
        opts.stale_only ==> deps[i].vulns@.len() > 0 || !(go_record(deps[i], today).health
            == "healthy"@ || go_record(deps[i], today).health == "hijack"@),
    ensures
        ({
            let o = report_of(Ecosystem::Go, opts, go_outcomes(opts, deps, today)).output;
            o is Text && o->Text_0.contains(go_line(opts, deps[i], deps[i].fetched->Ok_0, today))
        }),
{
    let all = go_outcomes(opts, deps, today);
    let s = deps[i];
    let data = s.fetched->Ok_0;
    let h = module_health(s, data, today);
    assert(s.vulns.deep_view().len() == s.vulns@.len());
    assert(all[i] == go_outcome(opts, s, today));
    lemma_word_is(h, Health::Unknown);
    lemma_word_is(h, Health::Healthy);
    lemma_word_is(h, Health::Hijack);
    law_wanted_packages_are_put_out(
        opts,
        h,
        None,
        go_record(s, today),
        go_line(opts, s, data, today),
    );
    law_text_holds_the_lines(Ecosystem::Go, opts, all, i);
}

} // verus!
