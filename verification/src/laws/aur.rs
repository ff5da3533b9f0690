//! Packages of the AUR, over what the AUR and GitHub answered.

use crate::api::{answer, AurPackage, GitHubRepo, GitHubView};
use crate::aur::{
    aur_health, aur_line, aur_outcome, aur_outcomes, aur_reason, aur_record, first_words,
    github_lines, hit_line, hit_record, maintainer_text, orphaned, package_lines, search_answer,
    single_answer, takeover, upstream, AnswerView, AurHit, AurLookup, AurScan,
};
use crate::clock::{age, utc_text, whole_days, Moment};
use crate::laws::packages::{law_wanted_packages_are_put_out, lemma_records_in_place};
use crate::laws::registries::{go_pushed, pushed};
use crate::laws::reports::{
    law_report_is_what_was_asked_for, law_summary_counts, law_text_holds_the_lines,
    lemma_places_agree, places, total,
};
use crate::laws::scoring::{law_silence_is_named, names_silence};
use crate::render::{decimal, signed};
use crate::report::{
    all_cves, law_ci_fails_on_dead_or_vulnerable, law_only_ci_fails, report_of, tally, Ecosystem,
};
use crate::scan::{Options, OutcomeView};
use crate::text::{begins, byte_prefix, ends, group_holds, holds, words, Text};
use crate::types::Health;
use vstd::prelude::*;

verus! {

/// A package that nobody maintains, that few use, and that was changed in the
/// last 90 days.
pub open spec fn suspicious(pkg: AurPackage, at: Moment) -> bool {
    &&& whole_days(at, pkg.lastmodified) < 90
    &&& pkg.maintainer is None || pkg.maintainer->0@.len() == 0
    &&& pkg.popularity.low
}

proof fn lemma_suspicious(pkg: AurPackage, at: Moment)
    ensures
        suspicious(pkg, at) == takeover(pkg, at),
{
    reveal_strlit("");
    if pkg.maintainer is Some && pkg.maintainer->0@.len() == 0 {
        assert(pkg.maintainer->0@ =~= ""@);
    }
}

/// The health of something that was last touched so many days ago.
pub open spec fn in_band(h: Health, days: int) -> bool {
    &&& h == Health::Dead <==> days > 730
    &&& h == Health::Inactive <==> 365 < days && days <= 730
    &&& h == Health::Warning <==> 180 < days && days <= 365
    &&& h == Health::Healthy <==> days <= 180
}

/// A package marked as out of date is a warning. One that is not is at risk of
/// a hijack if it is suspicious. Any other is judged by the last push to its
/// repository, where that date can be read, else by its own last change: dead
/// beyond 730 days, inactive beyond 365, a warning beyond 180, else healthy.
pub proof fn law_aur_health_bands(pkg: AurPackage, gh: Option<GitHubRepo>, at: Moment)
    ensures
        ({
            let h = aur_health(pkg, gh.deep_view(), at);
            let push = pushed(gh, at.day() as i32);
            &&& pkg.outofdate is Some ==> h == Health::Warning
            &&& pkg.outofdate is None && suspicious(pkg, at) ==> h == Health::Hijack
            &&& pkg.outofdate is None && !suspicious(pkg, at) && push is Some ==> in_band(
                h,
                push->0 as int,
            )
            &&& pkg.outofdate is None && !suspicious(pkg, at) && push is None ==> in_band(
                h,
                whole_days(at, pkg.lastmodified),
            )
        }),
{
    lemma_suspicious(pkg, at);
}

/// The reason of a package: the mark, the risk, the silence of its repository
/// where that is over 180 days; and where the repository says nothing, why, and
/// below it the time since its own last change where that is over 180 days.
pub proof fn law_aur_reason(
    pkg: AurPackage,
    gh: Option<Result<GitHubRepo, String>>,
    at: Moment,
)
    ensures
        ({
            let r = aur_reason(pkg, answer(gh), at);
            let own = whole_days(at, pkg.lastmodified);
            let plain = pkg.outofdate is None && !suspicious(pkg, at);
            let push = go_pushed(gh, at.day() as i32);
            let said = match gh {
                Some(Err(e)) => "GitHub fetch failed: "@ + e@,
                _ => if pkg.url is Some {
                    "Not a GitHub repository"@
                } else {
                    "No upstream URL"@
                },
            };
            let silent = gh is None || gh->0 is Err;
            &&& pkg.outofdate is Some ==> r == Some("Marked out-of-date on AUR"@)
            &&& pkg.outofdate is None && suspicious(pkg, at) ==> r is Some && begins(
                r->0,
                "Hijack risk"@,
            )
            &&& plain && push is Some ==> (r is Some <==> push->0 > 180) && (r is Some
                ==> names_silence(r->0, "No GitHub activity"@, push->0 as int))
            &&& plain && silent ==> r is Some && begins(r->0, said)
            &&& plain && silent && own <= 180 ==> r == Some(said)
            &&& plain && silent && own > 180 ==> exists|t: Text| #[trigger]
                names_silence(t, "PKGBUILD not updated"@, own) && r == Some(
                    said + "\n      "@ + t,
                )
            &&& plain && !silent && push is None ==> (r is Some <==> own > 180) && (r is Some
                ==> names_silence(r->0, "PKGBUILD not updated"@, own))
        }),
{
    broadcast use group_holds;

    lemma_suspicious(pkg, at);
    let own = whole_days(at, pkg.lastmodified);
    law_silence_is_named("PKGBUILD not updated"@, own);
    let push = go_pushed(gh, at.day() as i32);
    if push is Some {
        law_silence_is_named("No GitHub activity"@, push->0 as int);
    }
    reveal_strlit("Hijack risk — recently updated but orphaned with low popularity");
    reveal_strlit("Hijack risk");
    assert("Hijack risk — recently updated but orphaned with low popularity"@.subrange(0, 11)
        =~= "Hijack risk"@);
}

/// The record of a package holds its own data, and no vulnerabilities.
pub proof fn law_aur_record(pkg: AurPackage, health: Health, reason: Option<Text>)
    ensures
        ({
            let r = aur_record(pkg, health, reason);
            &&& r.name == pkg.name@ && r.version == pkg.version@
            &&& r.health == health.word()
            &&& r.description == pkg.description.deep_view()
            &&& r.stale_reason == reason
            &&& r.latest_version is None && r.provenance is None && r.vulns.len() == 0
        }),
{
}

/// The line of a package says its sign, its name, who maintains it, or that
/// nobody does, how popular it is, and, where only packages worth a look are
/// shown, its reason.
pub proof fn law_aur_line(opts: Options, pkg: AurPackage, health: Health, reason: Option<Text>)
    ensures
        ({
            let l = aur_line(opts, pkg, health, reason);
            &&& holds(l, health.emoji())
            &&& holds(l, " "@ + pkg.name@ + " — maintainer: "@)
            &&& pkg.maintainer is Some && pkg.maintainer->0@.len() > 0 ==> holds(
                l,
                " — maintainer: "@ + pkg.maintainer->0@,
            )
            &&& pkg.maintainer is None || pkg.maintainer->0@.len() == 0 ==> holds(
                l,
                "[ORPHANED]"@,
            )
            &&& holds(l, ", popularity: "@ + pkg.popularity.tenths@)
            &&& opts.stale_only && reason is Some ==> holds(l, "└─ "@ + reason->0)
        }),
{
    broadcast use group_holds;

    reveal_strlit("");
    if pkg.maintainer is Some && pkg.maintainer->0@.len() == 0 {
        assert(pkg.maintainer->0@ =~= ""@);
    }
}

// ── Scans ────────────────────────────────────────────────────────────

/// The package that the AUR knows under the name of an installed one.
pub open spec fn known(s: AurScan) -> Option<AurPackage> {
    if s.fetched is Some && s.fetched->0.resultcount > 0 {
        Some(s.fetched->0.results@[0])
    } else {
        None
    }
}

/// The repository of an installed package, where it could be had.
pub open spec fn repository(s: AurScan) -> Option<GitHubView> {
    match s.github {
        Some(Ok(repo)) => Some(repo.deep_view()),
        _ => None,
    }
}

proof fn lemma_aur_outcomes(opts: Options, all: Seq<AurScan>, at: Moment)
    ensures
        ({
            let o = aur_outcomes(opts, all, at);
            &&& o.len() == all.len()
            &&& forall|i: int| 0 <= i < all.len() ==> (#[trigger] o[i]).cves == 0
            &&& forall|i: int|
                0 <= i < all.len() ==> (#[trigger] o[i]).health == match known(all[i]) {
                    Some(pkg) => aur_health(pkg, repository(all[i]), at),
                    None => Health::Unknown,
                }
            &&& total(o.len(), |i: int| o[i].cves) == 0
        }),
{
    let o = aur_outcomes(opts, all, at);
    lemma_total_zero(o.len(), |i: int| o[i].cves);
}

proof fn lemma_total_zero(n: nat, f: spec_fn(int) -> nat)
    requires
        forall|i: int| 0 <= i < n ==> #[trigger] f(i) == 0,
    ensures
        total(n, f) == 0,
    decreases n,
{
    if n > 0 {
        lemma_total_zero((n - 1) as nat, f);
    }
}

/// The summary of a scan counts, for each health, the installed packages that
/// the AUR knows and that are in it; those that it does not know are unknown.
pub proof fn law_aur_summary(opts: Options, all: Seq<AurScan>, at: Moment, h: Health)
    requires
        all.len() < 0x1_0000_0000,
    ensures
        ({
            let s = tally(aur_outcomes(opts, all, at));
            let n = places(
                all.len(),
                |i: int|
                    match known(all[i]) {
                        Some(pkg) => aur_health(pkg, repository(all[i]), at) == h,
                        None => h == Health::Unknown,
                    },
            );
            &&& h == Health::Healthy ==> s.healthy == n
            &&& h == Health::Warning ==> s.warning == n
            &&& h == Health::Hijack ==> s.hijack == n
            &&& h == Health::Inactive ==> s.inactive == n
            &&& h == Health::Dead ==> s.dead == n
            &&& h == Health::Unknown ==> s.unknown == n
            &&& s.cves == 0
        }),
{
    let o = aur_outcomes(opts, all, at);
    lemma_aur_outcomes(opts, all, at);
    law_summary_counts(o);
    lemma_places_agree(
        all.len(),
        |i: int| o[i].health == h,
        |i: int|
            match known(all[i]) {
                Some(pkg) => aur_health(pkg, repository(all[i]), at) == h,
                None => h == Health::Unknown,
            },
    );
}

/// A scan fails exactly where that was asked for and some installed package
/// that the AUR knows is dead.
pub proof fn law_aur_exit_code(opts: Options, all: Seq<AurScan>, at: Moment)
    requires
        all.len() < 0x1_0000_0000,
    ensures
        report_of(Ecosystem::Aur, opts, aur_outcomes(opts, all, at)).exit_code == 1 <==> opts.ci
            && exists|i: int|
            0 <= i < all.len() && known(#[trigger] all[i]) is Some && aur_health(
                known(all[i])->0,
                repository(all[i]),
                at,
            ) == Health::Dead,
{
    let o = aur_outcomes(opts, all, at);
    lemma_aur_outcomes(opts, all, at);
    law_only_ci_fails(Ecosystem::Aur, opts, o);
    lemma_no_cves(o);
    if opts.ci {
        law_ci_fails_on_dead_or_vulnerable(Ecosystem::Aur, opts, o);
        if exists|i: int|
            0 <= i < o.len() && ((#[trigger] o[i]).health == Health::Dead || o[i].cves > 0) {
            let i = choose|i: int|
                0 <= i < o.len() && ((#[trigger] o[i]).health == Health::Dead || o[i].cves > 0);
            assert(known(all[i]) is Some);
        }
        if exists|i: int|
            0 <= i < all.len() && known(#[trigger] all[i]) is Some && aur_health(
                known(all[i])->0,
                repository(all[i]),
                at,
            ) == Health::Dead {
            let i = choose|i: int|
                0 <= i < all.len() && known(#[trigger] all[i]) is Some && aur_health(
                    known(all[i])->0,
                    repository(all[i]),
                    at,
                ) == Health::Dead;
            assert(o[i].health == Health::Dead);
        }
    }
}

proof fn lemma_no_cves(o: Seq<OutcomeView>)
    requires
        forall|i: int| 0 <= i < o.len() ==> (#[trigger] o[i]).cves == 0,
    ensures
        all_cves(o) == 0,
    decreases o.len(),
{
    if o.len() > 0 {
        let init = o.drop_last();
        assert forall|i: int| 0 <= i < init.len() implies (#[trigger] init[i]).cves == 0 by {
            assert(init[i] == o[i]);
        }
        lemma_no_cves(init);
        assert(o[o.len() - 1].cves == 0);
    }
}

/// A scan of all packages for JSON gives a record of every installed one, in
/// its place: that of the package that the AUR knows, with its health and its
/// reason, else one of an unknown package.
pub proof fn law_aur_json(opts: Options, all: Seq<AurScan>, at: Moment, i: int)
    requires
        opts.output_json,
        !opts.sbom,
        !opts.stale_only,
        0 <= i < all.len(),
    ensures
        ({
            let o = report_of(Ecosystem::Aur, opts, aur_outcomes(opts, all, at)).output;
            let p = o->Json_0.packages[i];
            &&& o is Json
            &&& o->Json_0.packages.len() == all.len()
            &&& known(all[i]) matches Some(pkg) ==> p.name == pkg.name@ && p.version == pkg.version@
                && p.health == aur_health(pkg, repository(all[i]), at).word() && p.stale_reason
                == aur_reason(pkg, answer(all[i].github), at)
            &&& known(all[i]) is None ==> p.name == all[i].name@ && p.version == "?"@ && p.health
                == "unknown"@ && p.stale_reason == Some("AUR API fetch failed"@)
        }),
{
    let o = aur_outcomes(opts, all, at);
    law_report_is_what_was_asked_for(Ecosystem::Aur, opts, o);
    lemma_records_in_place(o);
    assert(o[i] == aur_outcome(opts, all[i], at));
}

/// A text scan holds, for every installed package that the AUR knows and that
/// is worth a look or asked for, a line with its name and its sign.
pub proof fn law_aur_text(opts: Options, all: Seq<AurScan>, at: Moment, i: int)
    requires
        !opts.output_json,
        !opts.sbom,
        all.len() < 0x1_0000_0000,
        0 <= i < all.len(),
        known(all[i]) is Some,
        opts.stale_only ==> !(aur_health(known(all[i])->0, repository(all[i]), at)
            == Health::Healthy || aur_health(known(all[i])->0, repository(all[i]), at)
            == Health::Hijack),
    ensures
        ({
            let o = report_of(Ecosystem::Aur, opts, aur_outcomes(opts, all, at)).output;
            let pkg = known(all[i])->0;
            let h = aur_health(pkg, repository(all[i]), at);
            o is Text && o->Text_0.contains(
                aur_line(opts, pkg, h, aur_reason(pkg, answer(all[i].github), at)),
            )
        }),
{
    let o = aur_outcomes(opts, all, at);
    let pkg = known(all[i])->0;
    let h = aur_health(pkg, repository(all[i]), at);
    let r = aur_reason(pkg, answer(all[i].github), at);
    assert(o[i] == aur_outcome(opts, all[i], at));
    law_wanted_packages_are_put_out(
        opts,
        h,
        None,
        aur_record(pkg, h, r),
        aur_line(opts, pkg, h, r),
    );
    law_text_holds_the_lines(Ecosystem::Aur, opts, o, i);
}

/// The names of installed packages: those of two parts of a list are those of
/// the first followed by those of the second, and a line gives its first word,
/// if it has one.
pub proof fn law_installed_names(a: Seq<Text>, b: Seq<Text>, line: Text)
    ensures
        first_words(a + b) == first_words(a) + first_words(b),
        words(line).len() > 0 ==> first_words(seq![line]) == seq![words(line)[0]],
        words(line).len() == 0 ==> first_words(seq![line]).len() == 0,
    decreases b.len(),
{
    assert(seq![line].drop_last() =~= Seq::<Text>::empty());
    assert(first_words(seq![line].drop_last()) =~= Seq::<Text>::empty());
    assert(seq![line].last() == line);
    if words(line).len() > 0 {
        assert(first_words(seq![line]) =~= seq![words(line)[0]]);
    }
    if b.len() == 0 {
        assert(a + b =~= a);
        assert(first_words(a) + first_words(b) =~= first_words(a));
    } else {
        law_installed_names(a, b.drop_last(), line);
        assert((a + b).drop_last() =~= a + b.drop_last());
        let w = words(b.last());
        if w.len() > 0 {
            assert((first_words(a) + first_words(b.drop_last())).push(w[0]) =~= first_words(a)
                + first_words(b.drop_last()).push(w[0]));
        }
    }
}

// ── Searches ─────────────────────────────────────────────────────────

/// A search that found packages shows each in its place, as a record or as a
/// line with its sign, its name, the stars of its repository and its
/// description; one that failed says why.
pub proof fn law_search(
    query: Text,
    output_json: bool,
    result: Result<(u32, Vec<AurHit>), String>,
    at: Moment,
    i: int,
)
    ensures
        ({
            let a = search_answer(query, output_json, result, at);
            &&& result matches Err(e) ==> (output_json ==> a == AnswerView::JsonError(
                "aur-search"@,
                e@,
            )) && (!output_json ==> a is Failure && ends(a->Failure_0, e@))
            &&& result matches Ok(both) ==> ({
                let n = both.0;
                let hits = both.1@;
                &&& output_json ==> a is Json && a->Json_0.ecosystem == "aur-search"@
                &&& output_json && n > 0 ==> a->Json_0.packages.len() == hits.len() && (0 <= i
                    < hits.len() ==> a->Json_0.packages[i] == hit_record(hits[i], at))
                &&& n == 0 && output_json ==> a->Json_0.packages.len() == 0
                &&& !output_json ==> a is Text
                &&& n == 0 && !output_json ==> a->Text_0.len() == 1 && holds(a->Text_0[0], query)
                    && begins(a->Text_0[0], "🔍 No results"@)
                &&& n > 0 && !output_json ==> a->Text_0.len() == hits.len() + 2 && holds(
                    a->Text_0[0],
                    query + " ("@ + decimal(n as nat),
                ) && (0 <= i < hits.len() ==> a->Text_0[i + 2] == hit_line(hits[i], at))
            })
        }),
{
    broadcast use group_holds;

    reveal_strlit("🔍 No results for '");
    reveal_strlit("🔍 No results");
    assert("🔍 No results for '"@.subrange(0, 12) =~= "🔍 No results"@);
}

/// What is shown of a package that a search found: its name, version,
/// description and health in the record, without a reason; its sign, name,
/// stars and description in the line.
pub proof fn law_search_hit(hit: AurHit, at: Moment)
    ensures
        ({
            let h = aur_health(hit.package, hit.github.deep_view(), at);
            let r = hit_record(hit, at);
            let l = hit_line(hit, at);
            &&& r.name == hit.package.name@ && r.version == hit.package.version@ && r.health
                == h.word() && r.stale_reason is None && r.description
                == hit.package.description.deep_view()
            &&& holds(l, h.emoji())
            &&& holds(l, " "@ + hit.package.name@ + " "@)
            &&& hit.github is Some ==> holds(l, "⭐ "@ + decimal(hit.github->0.stars as nat))
            &&& hit.package.description is Some ==> ends(l, hit.package.description->0@)
        }),
{
    broadcast use group_holds;

    if hit.github is Some {
        reveal_strlit("(⭐ ");
        reveal_strlit("⭐ ");
        reveal_strlit("(");
        let n = decimal(hit.github->0.stars as nat);
        assert("(⭐ "@ =~= "("@ + "⭐ "@);
        let part = "(⭐ "@ + n + ") "@;
        assert(part =~= "("@ + ("⭐ "@ + n) + ") "@);
        assert(holds("("@ + ("⭐ "@ + n) + ") "@, "⭐ "@ + n));
    }
}

// ── One package ──────────────────────────────────────────────────────

/// The repository that a package names, as a path.
pub open spec fn owner_slash_repo(pkg: AurPackage) -> Text {
    match upstream(pkg) {
        Some(names) => names.0 + "/"@ + names.1,
        None => ""@,
    }
}

/// The lines of an answer.
pub open spec fn answer_lines(a: AnswerView) -> Seq<Text> {
    match a {
        AnswerView::Text(l) => l,
        AnswerView::Partial(l, _) => l,
        _ => Seq::empty(),
    }
}

/// A package that could not be asked about, or that the AUR does not know, is
/// named in a complaint, and outside of JSON the program then fails.
pub proof fn law_missing_package_is_reported(
    name: Text,
    output_json: bool,
    found: AurLookup,
    at: Moment,
)
    ensures
        ({
            let (a, code) = single_answer(name, output_json, found, at);
            let text = if output_json {
                a->JsonError_1
            } else {
                a->Failure_0
            };
            let missing = found.fetched is Err || found.fetched->Ok_0.resultcount == 0;
            &&& missing ==> (output_json ==> a is JsonError && a->JsonError_0 == "aur"@ && code == 0)
            &&& missing ==> (!output_json ==> a is Failure && code == 1)
            &&& !missing ==> code == 0 && !(a is JsonError) && !(a is Failure)
            &&& found.fetched is Err ==> ends(text, found.fetched->Err_0@)
            &&& found.fetched is Ok && missing ==> holds(
                text,
                "'"@ + name + "' not found in AUR"@,
            )
        }),
{
    broadcast use group_holds;

    lemma_not_found_text(name);
}

/// A package that the AUR knows is answered in JSON with its record.
pub proof fn law_single_json(name: Text, found: AurLookup, at: Moment)
    requires
        found.fetched is Ok,
        found.fetched->Ok_0.resultcount > 0,
    ensures
        ({
            let a = single_answer(name, true, found, at).0;
            let pkg = found.fetched->Ok_0.results@[0];
            let gh = found.github;
            &&& a is Package
            &&& a->Package_0.ecosystem == "aur"@
            &&& a->Package_0.name == pkg.name@
            &&& a->Package_0.version == pkg.version@
            &&& a->Package_0.description == pkg.description.deep_view()
            &&& a->Package_0.url == pkg.url.deep_view()
            &&& a->Package_0.maintainer == pkg.maintainer.deep_view()
            &&& a->Package_0.numvotes == pkg.numvotes
            &&& a->Package_0.outofdate == pkg.outofdate
            &&& a->Package_0.lastmodified == pkg.lastmodified
            &&& gh is Some && gh->0 is Ok ==> a->Package_0.health == aur_health(
                pkg,
                Some(gh->0->Ok_0.deep_view()),
                at,
            ).word()
            &&& gh is None || gh->0 is Err ==> a->Package_0.health == aur_health(
                pkg,
                None,
                at,
            ).word() && a->Package_0.github is None
            &&& gh is Some && gh->0 is Ok && upstream(pkg) is Some ==> ({
                let g = a->Package_0.github->0;
                let names = upstream(pkg)->0;
                &&& a->Package_0.github is Some
                &&& g.owner == names.0 && g.repo == names.1
                &&& g.known == gh->0->Ok_0.deep_view()
            })
        }),
{
}

/// A package that the AUR knows is answered as text with the lines about it,
/// and, where it names a repository on GitHub, with that and the lines about
/// it, or with a complaint where it could not be had.
pub proof fn law_single_text(name: Text, found: AurLookup, at: Moment)
    requires
        found.fetched is Ok,
        found.fetched->Ok_0.resultcount > 0,
    ensures
        ({
            let a = single_answer(name, false, found, at).0;
            let pkg = found.fetched->Ok_0.results@[0];
            let l = answer_lines(a);
            let head = package_lines(pkg);
            &&& a is Text || a is Partial
            &&& l.len() >= head.len() && l.take(head.len() as int) == head
            &&& upstream(pkg) is Some ==> l.len() >= head.len() + 2 && ends(
                l[head.len() as int + 1],
                "GitHub: "@ + owner_slash_repo(pkg),
            )
            &&& pkg.url is Some && upstream(pkg) is None ==> l.len() == head.len() + 2 && ends(
                l.last(),
                "not a GitHub repository"@,
            )
            &&& a is Partial <==> upstream(pkg) is Some && found.github is Some
                && found.github->0 is Err
            &&& a is Partial ==> ends(a->Partial_1, found.github->0->Err_0@)
            &&& upstream(pkg) is Some && found.github is Some && found.github->0 is Ok ==> l.skip(
                head.len() as int + 2,
            ) == github_lines(found.github->0->Ok_0.deep_view(), at.day() as i32)
        }),
{
    broadcast use group_holds;

    let a = single_answer(name, false, found, at).0;
    let pkg = found.fetched->Ok_0.results@[0];
    let l = answer_lines(a);
    let head = package_lines(pkg);
    assert(l.take(head.len() as int) =~= head);
    reveal_strlit("🐙 GitHub: ");
    reveal_strlit("🐙 ");
    reveal_strlit("GitHub: ");
    assert("🐙 GitHub: "@ =~= "🐙 "@ + "GitHub: "@);
    reveal_strlit("🐙 GitHub: not a GitHub repository");
    reveal_strlit("not a GitHub repository");
    let none = "🐙 GitHub: not a GitHub repository"@;
    assert(none.subrange(none.len() - "not a GitHub repository"@.len(), none.len() as int)
        =~= "not a GitHub repository"@);
    if upstream(pkg) is Some {
        let names = upstream(pkg)->0;
        let title = l[head.len() as int + 1];
        assert(title == "🐙 GitHub: "@ + names.0 + "/"@ + names.1);
        assert(title =~= "🐙 "@ + ("GitHub: "@ + owner_slash_repo(pkg)));
        assert(ends(
            "🐙 "@ + ("GitHub: "@ + owner_slash_repo(pkg)),
            "GitHub: "@ + owner_slash_repo(pkg),
        ));
        if found.github is Some && found.github->0 is Ok {
            assert(l.skip(head.len() as int + 2) =~= github_lines(
                found.github->0->Ok_0.deep_view(),
                at.day() as i32,
            ));
        }
    }
}

/// The lines about a repository say its stars, forks, issues, watchers and the
/// day of the last push, judge the days since, and say if it is archived.
pub proof fn law_github_lines(repo: GitHubView, today: i32)
    requires
        byte_prefix(repo.pushed_at, 10) is Some,
    ensures
        ({
            let l = github_lines(repo, today);
            let days = age(repo.pushed_at, today);
            &&& l.len() == 5 + (if days is Some {
                1int
            } else {
                0
            }) + (if repo.archived {
                1int
            } else {
                0
            })
            &&& holds(l[0], "Stars: "@ + decimal(repo.stars as nat))
            &&& holds(l[1], "Forks: "@ + decimal(repo.forks as nat))
            &&& holds(l[2], "Open issues: "@ + decimal(repo.open_issues as nat))
            &&& holds(l[3], "Watchers: "@ + decimal(repo.watchers as nat))
            &&& holds(l[4], "Pushed at: "@ + byte_prefix(repo.pushed_at, 10)->0)
            &&& days is Some && days->0 > 730 ==> holds(l[5], "🪦 Last push > 2 years — DEAD"@)
            &&& days is Some && 365 < days->0 && days->0 <= 730 ==> holds(
                l[5],
                "🔴 Last push > 1 year — INACTIVE"@,
            )
            &&& days is Some && 180 < days->0 && days->0 <= 365 ==> holds(
                l[5],
                "⚠️ Last push > 6 months — check needed"@,
            )
            &&& days is Some && days->0 <= 180 ==> holds(
                l[5],
                "✅ Active ("@ + signed(days->0 as int) + " days ago)"@,
            )
            &&& repo.archived ==> holds(l.last(), "ARCHIVED"@)
        }),
{
    broadcast use group_holds;

    reveal_strlit("   ⭐ ");
    reveal_strlit("Stars: ");
    reveal_strlit("   ⭐ Stars: ");
    assert("   ⭐ Stars: "@ =~= "   ⭐ "@ + "Stars: "@);
    lemma_label("   ⭐ "@, "Stars: "@, "   ⭐ Stars: "@, decimal(repo.stars as nat));
    reveal_strlit("   🍴 ");
    reveal_strlit("Forks: ");
    reveal_strlit("   🍴 Forks: ");
    assert("   🍴 Forks: "@ =~= "   🍴 "@ + "Forks: "@);
    lemma_label("   🍴 "@, "Forks: "@, "   🍴 Forks: "@, decimal(repo.forks as nat));
    reveal_strlit("   🔥 ");
    reveal_strlit("Open issues: ");
    reveal_strlit("   🔥 Open issues: ");
    assert("   🔥 Open issues: "@ =~= "   🔥 "@ + "Open issues: "@);
    lemma_label(
        "   🔥 "@,
        "Open issues: "@,
        "   🔥 Open issues: "@,
        decimal(repo.open_issues as nat),
    );
    reveal_strlit("   👀 ");
    reveal_strlit("Watchers: ");
    reveal_strlit("   👀 Watchers: ");
    assert("   👀 Watchers: "@ =~= "   👀 "@ + "Watchers: "@);
    lemma_label("   👀 "@, "Watchers: "@, "   👀 Watchers: "@, decimal(repo.watchers as nat));
    reveal_strlit("   📅 ");
    reveal_strlit("Pushed at: ");
    reveal_strlit("   📅 Pushed at: ");
    assert("   📅 Pushed at: "@ =~= "   📅 "@ + "Pushed at: "@);
    lemma_label(
        "   📅 "@,
        "Pushed at: "@,
        "   📅 Pushed at: "@,
        byte_prefix(repo.pushed_at, 10)->0,
    );
    reveal_strlit("   🗄️ ARCHIVED — no longer maintained");
    reveal_strlit("ARCHIVED");
    let note = "   🗄️ ARCHIVED — no longer maintained"@;
    assert(note.subrange(6, 14) =~= "ARCHIVED"@);
    assert(crate::text::occurs_at(note, "ARCHIVED"@, 6));
}

proof fn lemma_not_found_text(name: Text)
    ensures
        holds("Package '"@ + name + "' not found in AUR"@, "'"@ + name + "' not found in AUR"@),
        holds("❌ Package '"@ + name + "' not found in AUR"@, "'"@ + name + "' not found in AUR"@),
{
    broadcast use group_holds;

    reveal_strlit("'");
    reveal_strlit("Package '");
    reveal_strlit("Package ");
    reveal_strlit("❌ Package '");
    reveal_strlit("❌ Package ");
    assert("Package '"@ =~= "Package "@ + "'"@);
    assert("❌ Package '"@ =~= "❌ Package "@ + "'"@);
}

/// The lines about a package say its name, version, description, address,
/// maintainer, votes, popularity, whether it is out of date, and when it was
/// last changed, in that order.
pub proof fn law_package_lines(pkg: AurPackage)
    ensures
        ({
            let l = package_lines(pkg);
            &&& l.len() == 10
            &&& holds(l[1], "Package: "@ + pkg.name@)
            &&& holds(l[2], "Version: "@ + pkg.version@)
            &&& pkg.description is Some ==> holds(l[3], "Description: "@ + pkg.description->0@)
            &&& pkg.description is None ==> ends(l[3], "Description: "@ + "-"@)
            &&& pkg.url is Some ==> holds(l[4], "Upstream URL: "@ + pkg.url->0@)
            &&& pkg.maintainer is Some && pkg.maintainer->0@.len() > 0 ==> holds(
                l[5],
                "Maintainer: "@ + pkg.maintainer->0@,
            )
            &&& pkg.maintainer is None || pkg.maintainer->0@.len() == 0 ==> holds(
                l[5],
                "[ORPHANED]"@,
            )
            &&& holds(l[6], "Votes: "@ + decimal(pkg.numvotes as nat))
            &&& holds(l[7], "Popularity: "@ + pkg.popularity.hundredths@)
            &&& pkg.outofdate is Some ==> ends(l[8], "⚠️ Yes"@)
            &&& pkg.outofdate is None ==> ends(l[8], "✅ No"@)
            &&& holds(
                l[9],
                "Last updated: "@ + utc_text(pkg.lastmodified, "%Y-%m-%d %H:%M UTC"@),
            )
        }),
{
    broadcast use group_holds;

    reveal_strlit("");
    if pkg.maintainer is Some && pkg.maintainer->0@.len() == 0 {
        assert(pkg.maintainer->0@ =~= ""@);
    }
    reveal_strlit("   ");
    reveal_strlit("📦 ");
    reveal_strlit("Package: ");
    reveal_strlit("📦 Package: ");
    assert("📦 Package: "@ =~= "📦 "@ + "Package: "@);
    reveal_strlit("Version: ");
    reveal_strlit("   Version: ");
    assert("   Version: "@ =~= "   "@ + "Version: "@);
    reveal_strlit("Description: ");
    reveal_strlit("   Description: ");
    assert("   Description: "@ =~= "   "@ + "Description: "@);
    reveal_strlit("Upstream URL: ");
    reveal_strlit("   Upstream URL: ");
    assert("   Upstream URL: "@ =~= "   "@ + "Upstream URL: "@);
    reveal_strlit("Maintainer: ");
    reveal_strlit("   Maintainer: ");
    assert("   Maintainer: "@ =~= "   "@ + "Maintainer: "@);
    reveal_strlit("Votes: ");
    reveal_strlit("   Votes: ");
    assert("   Votes: "@ =~= "   "@ + "Votes: "@);
    reveal_strlit("Popularity: ");
    reveal_strlit("   Popularity: ");
    assert("   Popularity: "@ =~= "   "@ + "Popularity: "@);
    reveal_strlit("Last updated: ");
    reveal_strlit("   Last updated: ");
    assert("   Last updated: "@ =~= "   "@ + "Last updated: "@);
    lemma_label("📦 "@, "Package: "@, "📦 Package: "@, pkg.name@);
    lemma_label("   "@, "Version: "@, "   Version: "@, pkg.version@);
    lemma_label(
        "   "@,
        "Description: "@,
        "   Description: "@,
        crate::aur::or_dash(pkg.description.deep_view()),
    );
    lemma_label(
        "   "@,
        "Upstream URL: "@,
        "   Upstream URL: "@,
        crate::aur::or_dash(pkg.url.deep_view()),
    );
    lemma_label("   "@, "Maintainer: "@, "   Maintainer: "@, maintainer_text(pkg));
    lemma_label("   "@, "Votes: "@, "   Votes: "@, decimal(pkg.numvotes as nat));
    lemma_label("   "@, "Popularity: "@, "   Popularity: "@, pkg.popularity.hundredths@);
    lemma_label(
        "   "@,
        "Last updated: "@,
        "   Last updated: "@,
        utc_text(pkg.lastmodified, "%Y-%m-%d %H:%M UTC"@),
    );
}

proof fn lemma_label(indent: Text, label: Text, both: Text, text: Text)
    ensures
        both == indent + label ==> holds(both + text, label + text) && ends(
            both + text,
            label + text,
        ),
{
    broadcast use group_holds;

    assert(indent + label + text =~= indent + (label + text));
    assert(ends(indent + (label + text), label + text));
}

} // verus!
