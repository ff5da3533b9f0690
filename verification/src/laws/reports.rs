//! What comes out of a scan, over what each package contributed to it.

use crate::render::{decimal, distinct, lemma_distinct};
use crate::report::{
    all_cves, counter, has_line, how_many, known_lines, lemma_small_counter, license_line,
    license_lines, license_uses, lines, occurrences, only, records, report_of, scan_lines,
    summary_line, tally, unknown_lines, Ecosystem, OutputView,
};
use crate::scan::{Options, OutcomeView};
use crate::text::{group_holds, holds, Text};
use crate::types::{Health, PackageView, Summary};
use vstd::prelude::*;

verus! {

// ── Counting ─────────────────────────────────────────────────────────

/// How many of the numbers below `n` have a property.
pub open spec fn places(n: nat, f: spec_fn(int) -> bool) -> nat
    decreases n,
{
    if n == 0 {
        0
    } else {
        places((n - 1) as nat, f) + if f(n - 1) {
            1nat
        } else {
            0
        }
    }
}

/// The sum of what `f` gives for the numbers below `n`.
pub open spec fn total(n: nat, f: spec_fn(int) -> nat) -> nat
    decreases n,
{
    if n == 0 {
        0
    } else {
        total((n - 1) as nat, f) + f(n - 1)
    }
}

/// Properties that agree below `n` are had by as many numbers.
pub proof fn lemma_places_agree(n: nat, f: spec_fn(int) -> bool, g: spec_fn(int) -> bool)
    requires
        forall|i: int| 0 <= i < n ==> #[trigger] f(i) == g(i),
    ensures
        places(n, f) == places(n, g),
    decreases n,
{
    if n > 0 {
        lemma_places_agree((n - 1) as nat, f, g);
    }
}

/// Functions that agree below `n` have the same sum.
pub proof fn lemma_total_agrees(n: nat, f: spec_fn(int) -> nat, g: spec_fn(int) -> nat)
    requires
        forall|i: int| 0 <= i < n ==> #[trigger] f(i) == g(i),
    ensures
        total(n, f) == total(n, g),
    decreases n,
{
    if n > 0 {
        lemma_total_agrees((n - 1) as nat, f, g);
    }
}

/// There are no more than `n` numbers below `n`.
pub proof fn lemma_places_bound(n: nat, f: spec_fn(int) -> bool)
    ensures
        places(n, f) <= n,
    decreases n,
{
    if n > 0 {
        lemma_places_bound((n - 1) as nat, f);
    }
}

proof fn lemma_how_many(all: Seq<OutcomeView>, h: Health)
    ensures
        how_many(all, h) == places(all.len(), |i: int| all[i].health == h),
    decreases all.len(),
{
    if all.len() > 0 {
        let init = all.drop_last();
        lemma_how_many(init, h);
        lemma_places_agree(
            init.len(),
            |i: int| init[i].health == h,
            |i: int| all[i].health == h,
        );
    }
}

proof fn lemma_all_cves(all: Seq<OutcomeView>)
    ensures
        all_cves(all) == total(all.len(), |i: int| all[i].cves),
    decreases all.len(),
{
    if all.len() > 0 {
        let init = all.drop_last();
        lemma_all_cves(init);
        lemma_total_agrees(init.len(), |i: int| init[i].cves, |i: int| all[i].cves);
    }
}

/// A summary counts, for each health, the packages in it, and all their
/// vulnerabilities, as long as the counters do not start again from 0.
pub proof fn law_summary_counts(all: Seq<OutcomeView>)
    requires
        all.len() < 0x1_0000_0000,
        total(all.len(), |i: int| all[i].cves) < 0x1_0000_0000,
    ensures
        tally(all).healthy == places(all.len(), |i: int| all[i].health == Health::Healthy),
        tally(all).warning == places(all.len(), |i: int| all[i].health == Health::Warning),
        tally(all).hijack == places(all.len(), |i: int| all[i].health == Health::Hijack),
        tally(all).inactive == places(all.len(), |i: int| all[i].health == Health::Inactive),
        tally(all).dead == places(all.len(), |i: int| all[i].health == Health::Dead),
        tally(all).unknown == places(all.len(), |i: int| all[i].health == Health::Unknown),
        tally(all).cves == total(all.len(), |i: int| all[i].cves),
{
    lemma_one_count(all, Health::Healthy);
    lemma_one_count(all, Health::Warning);
    lemma_one_count(all, Health::Hijack);
    lemma_one_count(all, Health::Inactive);
    lemma_one_count(all, Health::Dead);
    lemma_one_count(all, Health::Unknown);
    lemma_all_cves(all);
    lemma_small_counter(all_cves(all));
}

proof fn lemma_one_count(all: Seq<OutcomeView>, h: Health)
    requires
        all.len() < 0x1_0000_0000,
    ensures
        counter(how_many(all, h)) == places(all.len(), |i: int| all[i].health == h),
{
    lemma_how_many(all, h);
    lemma_places_bound(all.len(), |i: int| all[i].health == h);
    lemma_small_counter(how_many(all, h));
}

/// A counter that is full starts again from 0.
pub proof fn law_counter_starts_again(n: nat)
    ensures
        counter(n + 0x1_0000_0000) == counter(n),
        counter(n) < 0x1_0000_0000,
{
}

// ── Records and lines ────────────────────────────────────────────────

/// The records of two groups of packages are those of the first followed by
/// those of the second; that of one package is the one that it has, if any.
pub proof fn law_records_in_order(a: Seq<OutcomeView>, b: Seq<OutcomeView>, o: OutcomeView)
    ensures
        records(a + b) == records(a) + records(b),
        o.result matches Some(p) ==> records(seq![o]) == seq![p],
        o.result is None ==> records(seq![o]).len() == 0,
    decreases b.len(),
{
    assert(seq![o].drop_last() =~= Seq::<OutcomeView>::empty());
    assert(records(seq![o].drop_last()) =~= Seq::<PackageView>::empty());
    if o.result is Some {
        assert(records(seq![o]) =~= seq![o.result->0]);
    }
    if b.len() == 0 {
        assert(a + b =~= a);
        assert(records(a) + records(b) =~= records(a));
    } else {
        law_records_in_order(a, b.drop_last(), o);
        assert((a + b).drop_last() =~= a + b.drop_last());
        assert((a + b).last() == b.last());
        if b.last().result is Some {
            let p = b.last().result->0;
            assert((records(a) + records(b.drop_last())).push(p) =~= records(a) + records(
                b.drop_last(),
            ).push(p));
        }
    }
}

/// A line is among those of the packages exactly where some package has it.
pub proof fn law_lines_are_those_of_packages(all: Seq<OutcomeView>, l: Text)
    ensures
        lines(all).contains(l) <==> exists|i: int|
            0 <= i < all.len() && (#[trigger] all[i]).line == Some(l),
    decreases all.len(),
{
    if all.len() > 0 {
        let init = all.drop_last();
        law_lines_are_those_of_packages(init, l);
        let n = all.len() - 1;
        let here = lines(all);
        let rest = lines(init);
        if here.contains(l) {
            let k = choose|k: int| 0 <= k < here.len() && here[k] == l;
            if k < rest.len() {
                assert(rest[k] == l);
                let i = choose|i: int| 0 <= i < init.len() && (#[trigger] init[i]).line == Some(l);
                assert(all[i].line == Some(l));
            } else {
                assert(all[n].line == Some(l));
            }
        }
        if exists|i: int| 0 <= i < all.len() && (#[trigger] all[i]).line == Some(l) {
            let i = choose|i: int| 0 <= i < all.len() && (#[trigger] all[i]).line == Some(l);
            if i < n {
                assert(init[i].line == Some(l));
                let k = choose|k: int| 0 <= k < rest.len() && rest[k] == l;
                assert(here[k] == l);
            } else {
                assert(here[here.len() - 1] == l);
            }
        }
    }
}

proof fn lemma_only_contains(all: Seq<OutcomeView>, h: Health, o: OutcomeView)
    ensures
        only(all, h).contains(o) <==> o.health == h && all.contains(o),
    decreases all.len(),
{
    if all.len() > 0 {
        let init = all.drop_last();
        lemma_only_contains(init, h, o);
        let here = only(all, h);
        let rest = only(init, h);
        let n = all.len() - 1;
        if here.contains(o) {
            let k = choose|k: int| 0 <= k < here.len() && here[k] == o;
            if k < rest.len() {
                assert(rest[k] == o);
                let i = choose|i: int| 0 <= i < init.len() && init[i] == o;
                assert(all[i] == o);
            } else {
                assert(all[n] == o);
            }
        }
        if o.health == h && all.contains(o) {
            let i = choose|i: int| 0 <= i < all.len() && all[i] == o;
            if i < n {
                assert(init[i] == o);
                let k = choose|k: int| 0 <= k < rest.len() && rest[k] == o;
                assert(here[k] == o);
            } else {
                assert(here[here.len() - 1] == o);
            }
        }
    }
}

/// A line is in the group of a health exactly where some package in that
/// health has it.
pub proof fn law_groups_are_by_health(all: Seq<OutcomeView>, h: Health, l: Text)
    ensures
        has_line(all, h, l) <==> exists|i: int|
            0 <= i < all.len() && (#[trigger] all[i]).health == h && all[i].line == Some(l),
{
    let group = only(all, h);
    law_lines_are_those_of_packages(group, l);
    if has_line(all, h, l) {
        let k = choose|k: int| 0 <= k < group.len() && (#[trigger] group[k]).line == Some(l);
        assert(group.contains(group[k]));
        lemma_only_contains(all, h, group[k]);
        let i = choose|i: int| 0 <= i < all.len() && all[i] == group[k];
        assert(all[i].health == h);
    }
    if exists|i: int|
        0 <= i < all.len() && (#[trigger] all[i]).health == h && all[i].line == Some(l) {
        let i = choose|i: int|
            0 <= i < all.len() && (#[trigger] all[i]).health == h && all[i].line == Some(l);
        lemma_only_contains(all, h, all[i]);
        assert(all.contains(all[i]));
        let k = choose|k: int| 0 <= k < group.len() && group[k] == all[i];
        assert(group[k].line == Some(l));
    }
}

/// One line stands above another.
pub open spec fn above(all: Seq<Text>, a: Text, b: Text) -> bool {
    exists|i: int, j: int| 0 <= i < j < all.len() && #[trigger] all[i] == a && #[trigger] all[j] == b
}

proof fn lemma_lines_in_order(all: Seq<OutcomeView>, i: int, j: int)
    requires
        0 <= i < j < all.len(),
        all[i].line is Some,
        all[j].line is Some,
    ensures
        above(lines(all), all[i].line->0, all[j].line->0),
    decreases all.len(),
{
    let init = all.drop_last();
    let here = lines(all);
    let rest = lines(init);
    let a = all[i].line->0;
    let b = all[j].line->0;
    assert(init[i] == all[i]);
    if j < init.len() {
        assert(init[j] == all[j]);
        lemma_lines_in_order(init, i, j);
        let (p, q) = choose|p: int, q: int|
            0 <= p < q < rest.len() && #[trigger] rest[p] == a && #[trigger] rest[q] == b;
        assert(here[p] == a && here[q] == b);
    } else {
        law_lines_are_those_of_packages(init, a);
        assert(init[i].line == Some(a));
        let p = choose|p: int| 0 <= p < rest.len() && rest[p] == a;
        assert(here[p] == a);
        assert(here[here.len() - 1] == b);
    }
}

proof fn lemma_only_in_order(all: Seq<OutcomeView>, h: Health, i: int, j: int)
    requires
        0 <= i < j < all.len(),
        all[i].health == h,
        all[j].health == h,
    ensures
        exists|p: int, q: int|
            0 <= p < q < only(all, h).len() && #[trigger] only(all, h)[p] == all[i]
                && #[trigger] only(all, h)[q] == all[j],
    decreases all.len(),
{
    let init = all.drop_last();
    let here = only(all, h);
    let rest = only(init, h);
    assert(init[i] == all[i]);
    if j < init.len() {
        assert(init[j] == all[j]);
        lemma_only_in_order(init, h, i, j);
        let (p, q) = choose|p: int, q: int|
            0 <= p < q < rest.len() && #[trigger] rest[p] == init[i] && #[trigger] rest[q]
                == init[j];
        assert(here[p] == all[i] && here[q] == all[j]);
    } else {
        lemma_only_contains(init, h, all[i]);
        assert(init.contains(all[i]));
        let p = choose|p: int| 0 <= p < rest.len() && rest[p] == all[i];
        assert(here[p] == all[i]);
        assert(here[here.len() - 1] == all[j]);
    }
}

/// The place of a known health in the order of lines, from the best to the
/// worst.
pub open spec fn rank(h: Health) -> int {
    match h {
        Health::Healthy => 0,
        Health::Warning => 1,
        Health::Hijack => 2,
        Health::Inactive => 3,
        Health::Dead => 4,
        Health::Unknown => 5,
    }
}

spec fn group_start(all: Seq<OutcomeView>, h: Health) -> int {
    let a = lines(only(all, Health::Healthy)).len() as int;
    let b = lines(only(all, Health::Warning)).len() as int;
    let c = lines(only(all, Health::Hijack)).len() as int;
    let d = lines(only(all, Health::Inactive)).len() as int;
    match h {
        Health::Healthy => 0,
        Health::Warning => a,
        Health::Hijack => a + b,
        Health::Inactive => a + b + c,
        _ => a + b + c + d,
    }
}

proof fn lemma_group_place(all: Seq<OutcomeView>, h: Health, k: int)
    requires
        h != Health::Unknown,
        0 <= k < lines(only(all, h)).len(),
    ensures
        0 <= group_start(all, h) + k < known_lines(all).len(),
        known_lines(all)[group_start(all, h) + k] == lines(only(all, h))[k],
{
}

/// The lines of packages whose health is known come from the best health to
/// the worst, and in the order of the packages within one.
pub proof fn law_lines_are_ordered_by_health(all: Seq<OutcomeView>, i: int, j: int)
    requires
        0 <= i < all.len(),
        0 <= j < all.len(),
        all[i].line is Some,
        all[j].line is Some,
        all[i].health != Health::Unknown,
        all[j].health != Health::Unknown,
        rank(all[i].health) < rank(all[j].health) || (all[i].health == all[j].health && i < j),
    ensures
        above(known_lines(all), all[i].line->0, all[j].line->0),
{
    let a = all[i].line->0;
    let b = all[j].line->0;
    let known = known_lines(all);
    if all[i].health == all[j].health {
        let h = all[i].health;
        lemma_only_in_order(all, h, i, j);
        let g = only(all, h);
        let (p, q) = choose|p: int, q: int|
            0 <= p < q < g.len() && #[trigger] g[p] == all[i] && #[trigger] g[q] == all[j];
        lemma_lines_in_order(g, p, q);
        let l = lines(g);
        let (x, y) = choose|x: int, y: int|
            0 <= x < y < l.len() && #[trigger] l[x] == a && #[trigger] l[y] == b;
        lemma_group_place(all, h, x);
        lemma_group_place(all, h, y);
        assert(known[group_start(all, h) + x] == a && known[group_start(all, h) + y] == b);
    } else {
        let h = all[i].health;
        let k = all[j].health;
        law_groups_are_by_health(all, h, a);
        law_groups_are_by_health(all, k, b);
        assert(has_line(all, h, a) && has_line(all, k, b));
        let lh = lines(only(all, h));
        let lk = lines(only(all, k));
        let x = choose|x: int| 0 <= x < lh.len() && lh[x] == a;
        let y = choose|y: int| 0 <= y < lk.len() && lk[y] == b;
        lemma_group_place(all, h, x);
        lemma_group_place(all, k, y);
        assert(known[group_start(all, h) + x] == a && known[group_start(all, k) + y] == b);
    }
}

proof fn lemma_known_lines_contain(all: Seq<OutcomeView>, l: Text)
    ensures
        known_lines(all).contains(l) <==> exists|i: int|
            0 <= i < all.len() && (#[trigger] all[i]).health != Health::Unknown && all[i].line
                == Some(l),
{
    let known = known_lines(all);
    if exists|i: int|
        0 <= i < all.len() && (#[trigger] all[i]).health != Health::Unknown && all[i].line == Some(
            l,
        ) {
        let i = choose|i: int|
            0 <= i < all.len() && (#[trigger] all[i]).health != Health::Unknown && all[i].line
                == Some(l);
        let h = all[i].health;
        law_groups_are_by_health(all, h, l);
        assert(has_line(all, h, l));
        let g = lines(only(all, h));
        let x = choose|x: int| 0 <= x < g.len() && g[x] == l;
        lemma_group_place(all, h, x);
        assert(known[group_start(all, h) + x] == l);
    }
    if known.contains(l) {
        let k = choose|k: int| 0 <= k < known.len() && known[k] == l;
        let a = lines(only(all, Health::Healthy));
        let b = lines(only(all, Health::Warning));
        let c = lines(only(all, Health::Hijack));
        let d = lines(only(all, Health::Inactive));
        let e = lines(only(all, Health::Dead));
        let h = if k < a.len() {
            assert(a[k] == l);
            Health::Healthy
        } else if k < a.len() + b.len() {
            assert(b[k - a.len()] == l);
            Health::Warning
        } else if k < a.len() + b.len() + c.len() {
            assert(c[k - a.len() - b.len()] == l);
            Health::Hijack
        } else if k < a.len() + b.len() + c.len() + d.len() {
            assert(d[k - a.len() - b.len() - c.len()] == l);
            Health::Inactive
        } else {
            assert(e[k - a.len() - b.len() - c.len() - d.len()] == l);
            Health::Dead
        };
        law_groups_are_by_health(all, h, l);
        assert(has_line(all, h, l));
    }
}

proof fn lemma_concat_contains(a: Seq<Text>, b: Seq<Text>, l: Text)
    ensures
        (a + b).contains(l) <==> a.contains(l) || b.contains(l),
{
    let t = a + b;
    if a.contains(l) {
        let k = choose|k: int| 0 <= k < a.len() && a[k] == l;
        assert(t[k] == l);
    }
    if b.contains(l) {
        let k = choose|k: int| 0 <= k < b.len() && b[k] == l;
        assert(t[a.len() + k] == l);
    }
    if t.contains(l) {
        let k = choose|k: int| 0 <= k < t.len() && t[k] == l;
        if k < a.len() {
            assert(a[k] == l);
        } else {
            assert(b[k - a.len()] == l);
        }
    }
}

/// A text report holds every line of a package whose health is known. Lines of
/// packages whose health is unknown it holds in the ecosystems whose lines come
/// as they are, and in the others where that was asked for and nothing else
/// was.
pub proof fn law_text_holds_the_lines(
    kind: Ecosystem,
    opts: Options,
    all: Seq<OutcomeView>,
    i: int,
)
    requires
        !opts.output_json,
        !opts.sbom,
        0 <= i < all.len(),
        all[i].line is Some,
        all.len() < 0x1_0000_0000,
        all[i].health != Health::Unknown || kind == Ecosystem::Aur || kind == Ecosystem::Pypi
            || kind == Ecosystem::Go || (opts.verbose && !opts.stale_only),
    ensures
        report_of(kind, opts, all).output is Text,
        report_of(kind, opts, all).output->Text_0.contains(all[i].line->0),
{
    let l = all[i].line->0;
    law_lines_are_those_of_packages(all, l);
    lemma_known_lines_contain(all, l);
    lemma_one_count(all, Health::Unknown);
    if all[i].health == Health::Unknown {
        law_groups_are_by_health(all, Health::Unknown, l);
        assert(has_line(all, Health::Unknown, l));
        lemma_place_counts(all.len(), |k: int| all[k].health == Health::Unknown, i);
    }
    let body = scan_lines(kind, opts, all);
    let ending = seq![""@, summary_line(tally(all))];
    let more = license_lines(license_uses(all));
    lemma_concat_contains(known_lines(all), unknown_lines(opts, all), l);
    assert(body.contains(l));
    lemma_concat_contains(body, ending, l);
    lemma_concat_contains(body + ending, more, l);
}

proof fn lemma_place_counts(n: nat, f: spec_fn(int) -> bool, i: int)
    requires
        0 <= i < n,
        f(i),
    ensures
        places(n, f) > 0,
    decreases n,
{
    if i < n - 1 {
        lemma_place_counts((n - 1) as nat, f, i);
    }
}

/// Where only packages worth a look are asked for, an ordered text holds,
/// above its summary, nothing but lines of packages whose health is known.
pub proof fn law_stale_text_leaves_unknown_out(
    kind: Ecosystem,
    opts: Options,
    all: Seq<OutcomeView>,
    l: Text,
)
    requires
        kind == Ecosystem::Cargo || kind == Ecosystem::Npm,
        opts.stale_only,
    ensures
        scan_lines(kind, opts, all).contains(l) <==> exists|i: int|
            0 <= i < all.len() && (#[trigger] all[i]).health != Health::Unknown && all[i].line
                == Some(l),
{
    lemma_known_lines_contain(all, l);
    assert(known_lines(all) + Seq::<Text>::empty() =~= known_lines(all));
}

/// In the ecosystems whose lines come as they are, the lines above the summary
/// are exactly those of the packages, in their order.
pub proof fn law_other_texts_keep_the_order(
    kind: Ecosystem,
    opts: Options,
    all: Seq<OutcomeView>,
    i: int,
    j: int,
)
    requires
        kind == Ecosystem::Aur || kind == Ecosystem::Pypi || kind == Ecosystem::Go,
        0 <= i < j < all.len(),
        all[i].line is Some,
        all[j].line is Some,
    ensures
        above(scan_lines(kind, opts, all), all[i].line->0, all[j].line->0),
{
    lemma_lines_in_order(all, i, j);
}

/// Where packages could not be had and nobody asked to see them one by one,
/// the last line above the summary says how many they are, if others are
/// shown.
pub proof fn law_failures_are_counted(
    kind: Ecosystem,
    opts: Options,
    all: Seq<OutcomeView>,
    i: int,
)
    requires
        kind == Ecosystem::Cargo || kind == Ecosystem::Npm,
        !opts.verbose,
        !opts.stale_only,
        all.len() < 0x1_0000_0000,
        places(all.len(), |k: int| all[k].health == Health::Unknown) > 0,
        0 <= i < all.len(),
        all[i].health != Health::Unknown,
        all[i].line is Some,
    ensures
        holds(
            scan_lines(kind, opts, all).last(),
            "❓ "@ + decimal(places(all.len(), |k: int| all[k].health == Health::Unknown))
                + " packages failed to fetch"@,
        ),
        holds(scan_lines(kind, opts, all).last(), "--verbose"@),
{
    broadcast use group_holds;

    lemma_one_count(all, Health::Unknown);
    lemma_known_lines_contain(all, all[i].line->0);
    assert(known_lines(all).len() > 0);
    let n = decimal(tally(all).unknown as nat);
    let t = scan_lines(kind, opts, all).last();
    let rest = " packages failed to fetch — run with --verbose to see details"@;
    reveal_strlit(" packages failed to fetch — run with --verbose to see details");
    reveal_strlit(" packages failed to fetch");
    reveal_strlit("--verbose");
    let want = "❓ "@ + n + " packages failed to fetch"@;
    assert(rest.take(24) =~= " packages failed to fetch"@.take(24));
    assert(rest =~= " packages failed to fetch"@ + rest.skip(" packages failed to fetch"@.len() as int));
    let tail = rest.skip(" packages failed to fetch"@.len() as int) + "\x1b[0m"@;
    assert(t =~= "\x1b[90m"@ + want + tail);
    assert(holds("\x1b[90m"@ + want + tail, want));
    assert(rest.subrange(37, 46) =~= "--verbose"@);
    assert(crate::text::occurs_at(rest, "--verbose"@, 37));
    assert(holds("\x1b[90m"@ + "❓ "@ + n + rest + "\x1b[0m"@, "--verbose"@));
}

// ── Summaries ────────────────────────────────────────────────────────

/// The line that sums a scan up says for each health how many packages are in
/// it.
pub proof fn law_summary_line_says_all_counts(s: Summary)
    ensures
        holds(summary_line(s), "✅ "@ + decimal(s.healthy as nat)),
        holds(summary_line(s), "⚠️ "@ + decimal(s.warning as nat)),
        holds(summary_line(s), "🚩 "@ + decimal(s.hijack as nat)),
        holds(summary_line(s), "🔴 "@ + decimal(s.inactive as nat)),
        holds(summary_line(s), "🪦 "@ + decimal(s.dead as nat)),
        holds(summary_line(s), "❓ "@ + decimal(s.unknown as nat)),
        holds(summary_line(s), "📊 Summary:"@),
{
    broadcast use group_holds;
}

/// A report is the bill of materials where that was asked for, else one record
/// with the name of the ecosystem, the records and the summary where JSON was,
/// else text with the line that sums the scan up.
pub proof fn law_report_is_what_was_asked_for(
    kind: Ecosystem,
    opts: Options,
    all: Seq<OutcomeView>,
)
    ensures
        ({
            let o = report_of(kind, opts, all).output;
            &&& opts.sbom ==> o == OutputView::Sbom(records(all))
            &&& !opts.sbom && opts.output_json ==> o is Json && o->Json_0.packages == records(all)
                && o->Json_0.summary == tally(all)
            &&& !opts.sbom && !opts.output_json ==> o is Text && o->Text_0.contains(
                summary_line(tally(all)),
            )
            &&& o is Json && kind == Ecosystem::Cargo ==> o->Json_0.ecosystem == "cargo"@
            &&& o is Json && kind == Ecosystem::Npm ==> o->Json_0.ecosystem == "npm"@
            &&& o is Json && kind == Ecosystem::Pypi ==> o->Json_0.ecosystem == "pypi"@
            &&& o is Json && kind == Ecosystem::Go ==> o->Json_0.ecosystem == "go"@
            &&& o is Json && kind == Ecosystem::Aur ==> o->Json_0.ecosystem == "aur"@
        }),
{
    if !opts.sbom && !opts.output_json {
        let body = scan_lines(kind, opts, all);
        let last = summary_line(tally(all));
        let ending = seq![""@, last];
        assert(ending[1] == last);
        lemma_concat_contains(body, ending, last);
        lemma_concat_contains(body + ending, license_lines(license_uses(all)), last);
    }
}

// ── Licenses ─────────────────────────────────────────────────────────

proof fn lemma_occurrences(s: Seq<Text>, x: Text)
    ensures
        occurrences(s, x) == places(s.len(), |i: int| s[i] == x),
    decreases s.len(),
{
    if s.len() > 0 {
        let init = s.drop_last();
        lemma_occurrences(init, x);
        lemma_places_agree(init.len(), |i: int| init[i] == x, |i: int| s[i] == x);
    }
}

proof fn lemma_license_uses(all: Seq<OutcomeView>, x: Text)
    ensures
        occurrences(license_uses(all), x) == places(
            all.len(),
            |i: int| all[i].license == Some(x),
        ),
        license_uses(all).contains(x) <==> exists|i: int|
            0 <= i < all.len() && (#[trigger] all[i]).license == Some(x),
    decreases all.len(),
{
    if all.len() > 0 {
        let init = all.drop_last();
        lemma_license_uses(init, x);
        lemma_places_agree(
            init.len(),
            |i: int| init[i].license == Some(x),
            |i: int| all[i].license == Some(x),
        );
        let here = license_uses(all);
        let rest = license_uses(init);
        let n = all.len() - 1;
        if all.last().license is Some {
            assert(here.drop_last() =~= rest);
            assert(here.last() == all.last().license->0);
        }
        if here.contains(x) {
            let k = choose|k: int| 0 <= k < here.len() && here[k] == x;
            if k < rest.len() {
                assert(rest[k] == x);
                let i = choose|i: int|
                    0 <= i < init.len() && (#[trigger] init[i]).license == Some(x);
                assert(all[i].license == Some(x));
            } else {
                assert(all[n].license == Some(x));
            }
        }
        if exists|i: int| 0 <= i < all.len() && (#[trigger] all[i]).license == Some(x) {
            let i = choose|i: int| 0 <= i < all.len() && (#[trigger] all[i]).license == Some(x);
            if i < n {
                assert(init[i].license == Some(x));
                let k = choose|k: int| 0 <= k < rest.len() && rest[k] == x;
                assert(here[k] == x);
            } else {
                assert(here[here.len() - 1] == x);
            }
        }
    }
}

/// A text report says of every license that some package is counted under how
/// many packages are.
pub proof fn law_licenses_are_counted(
    kind: Ecosystem,
    opts: Options,
    all: Seq<OutcomeView>,
    i: int,
)
    requires
        !opts.output_json,
        !opts.sbom,
        0 <= i < all.len(),
        all[i].license is Some,
    ensures
        ({
            let name = all[i].license->0;
            let n = places(all.len(), |k: int| all[k].license == Some(name));
            report_of(kind, opts, all).output->Text_0.contains(
                "   "@ + name + ": "@ + decimal(n),
            )
        }),
{
    let name = all[i].license->0;
    let uses = license_uses(all);
    lemma_license_uses(all, name);
    assert(uses.contains(name));
    lemma_distinct(uses);
    assert(distinct(uses).contains(name));
    let k = choose|k: int| 0 <= k < distinct(uses).len() && distinct(uses)[k] == name;
    let listed = distinct(uses).map_values(|n: Text| license_line(uses, n));
    let line = license_line(uses, name);
    assert(listed[k] == line);
    assert(listed.contains(line));
    lemma_concat_contains(seq![""@, "📜 Licenses:"@], listed, line);
    let body = scan_lines(kind, opts, all);
    let ending = seq![""@, summary_line(tally(all))];
    lemma_concat_contains(body + ending, license_lines(uses), line);
}

} // verus!
