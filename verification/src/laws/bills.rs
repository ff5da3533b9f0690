//! Bills of materials: what is made of scan results, read back and compared.

use crate::laws::reports::{lemma_places_agree, places};
use crate::render::decimal;
use crate::sbom::{purl_type, purl, ref_from, sbom_of, sbom_vulns, SbomComponentView};
use crate::sbom_diff::{
    component_change, component_deltas, vuln_change, vuln_deltas, law_component_deltas,
    law_vuln_deltas, count_line, word_color, added_in, changed_in, changed_line, component_index,
    component_line, component_lines, component_of, difference, first_items, health_in, listing,
    more_lines, new_in, new_vuln_lines, property_from, removed_in, resolved, resolved_from,
    resolved_in, resolved_line, short, unchanged_in, vuln_entry, vuln_index, vuln_lines,
    ComponentDeltaView, ComponentRawView, ComponentView, VulnDeltaView, VulnEntryView, VulnRawView,
};
use crate::table::{swapped, lemma_value_of, unique, law_put_and_find, value_of};
use crate::text::{begins, byte_len, cut_off, ends, group_holds, holds, law_cut_off, Text};
use crate::types::{lemma_words, Health, PackageView};
use vstd::prelude::*;

verus! {

// ── Lists ────────────────────────────────────────────────────────────

proof fn lemma_flatten_contains(blocks: Seq<Seq<Text>>, k: int, l: Text)
    requires
        0 <= k < blocks.len(),
        blocks[k].contains(l),
    ensures
        blocks.flatten().contains(l),
    decreases blocks.len(),
{
    let init = blocks.drop_last();
    let last = blocks.last();
    assert(blocks =~= init.push(last));
    init.lemma_flatten_push(last);
    let all = init.flatten() + last;
    if k < init.len() {
        assert(init[k] == blocks[k]);
        lemma_flatten_contains(init, k, l);
        let j = choose|j: int| 0 <= j < init.flatten().len() && init.flatten()[j] == l;
        assert(all[j] == l);
    } else {
        let j = choose|j: int| 0 <= j < last.len() && last[j] == l;
        assert(all[init.flatten().len() + j] == l);
    }
}

proof fn lemma_concat_has(a: Seq<Text>, b: Seq<Text>, l: Text)
    ensures
        a.contains(l) ==> (a + b).contains(l),
        b.contains(l) ==> (a + b).contains(l),
{
    if a.contains(l) {
        let k = choose|k: int| 0 <= k < a.len() && a[k] == l;
        assert((a + b)[k] == l);
    }
    if b.contains(l) {
        let k = choose|k: int| 0 <= k < b.len() && b[k] == l;
        assert((a + b)[a.len() + k] == l);
    }
}

/// Some line of a list holds a text.
pub open spec fn says(lines: Seq<Text>, x: Text) -> bool {
    exists|k: int| 0 <= k < lines.len() && holds(#[trigger] lines[k], x)
}

proof fn lemma_listed(title: Text, blocks: Seq<Seq<Text>>, count: nat, k: int, l: Text)
    requires
        count > 0,
        0 <= k < blocks.len(),
        blocks[k].contains(l),
    ensures
        listing(title, blocks, count).contains(l),
{
    lemma_flatten_contains(blocks, k, l);
    let head = seq![""@, title];
    lemma_concat_has(head, blocks.flatten(), l);
    lemma_concat_has(head + blocks.flatten(), more_lines(count), l);
}

/// Of a list that is cut off it is said how many entries are left out.
proof fn lemma_cut_off_is_said(title: Text, blocks: Seq<Seq<Text>>, count: nat)
    requires
        count > 10,
    ensures
        says(listing(title, blocks, count), "… and "@ + decimal((count - 10) as nat) + " more"@),
{
    broadcast use group_holds;

    let all = listing(title, blocks, count);
    let l = more_lines(count)[0];
    let k = all.len() - 1;
    assert(all[k] == l);
    assert(holds(l, "… and "@ + decimal((count - 10) as nat) + " more"@));
}

proof fn lemma_added_in_places(deltas: Seq<ComponentDeltaView>)
    ensures
        added_in(deltas).len() == places(deltas.len(), |k: int| deltas[k] is Added),
    decreases deltas.len(),
{
    if deltas.len() > 0 {
        let init = deltas.drop_last();
        lemma_added_in_places(init);
        lemma_places_agree(init.len(), |k: int| init[k] is Added, |k: int| deltas[k] is Added);
    }
}

proof fn lemma_added_in_at(deltas: Seq<ComponentDeltaView>, i: int)
    requires
        0 <= i < deltas.len(),
        deltas[i] is Added,
    ensures
        ({
            let k = places(i as nat, |j: int| deltas[j] is Added);
            &&& k < added_in(deltas).len()
            &&& added_in(deltas)[k as int] == deltas[i]->Added_0
        }),
    decreases deltas.len(),
{
    let init = deltas.drop_last();
    if i < init.len() {
        assert(init[i] == deltas[i]);
        lemma_added_in_at(init, i);
        lemma_places_agree(i as nat, |j: int| init[j] is Added, |j: int| deltas[j] is Added);
    } else {
        lemma_added_in_places(init);
        lemma_places_agree(i as nat, |j: int| init[j] is Added, |j: int| deltas[j] is Added);
    }
}

proof fn lemma_changed_in_places(deltas: Seq<ComponentDeltaView>)
    ensures
        changed_in(deltas).len() == places(deltas.len(), |k: int| deltas[k] is Changed),
    decreases deltas.len(),
{
    if deltas.len() > 0 {
        let init = deltas.drop_last();
        lemma_changed_in_places(init);
        lemma_places_agree(init.len(), |k: int| init[k] is Changed, |k: int| deltas[k] is Changed);
    }
}

proof fn lemma_changed_in_at(deltas: Seq<ComponentDeltaView>, i: int)
    requires
        0 <= i < deltas.len(),
        deltas[i] is Changed,
    ensures
        ({
            let k = places(i as nat, |j: int| deltas[j] is Changed);
            &&& k < changed_in(deltas).len()
            &&& changed_in(deltas)[k as int] == (deltas[i]->Changed_0, deltas[i]->Changed_1)
        }),
    decreases deltas.len(),
{
    let init = deltas.drop_last();
    if i < init.len() {
        assert(init[i] == deltas[i]);
        lemma_changed_in_at(init, i);
        lemma_places_agree(i as nat, |j: int| init[j] is Changed, |j: int| deltas[j] is Changed);
    } else {
        lemma_changed_in_places(init);
        lemma_places_agree(i as nat, |j: int| init[j] is Changed, |j: int| deltas[j] is Changed);
    }
}

proof fn lemma_removed_in_places(deltas: Seq<ComponentDeltaView>)
    ensures
        removed_in(deltas).len() == places(deltas.len(), |k: int| deltas[k] is Removed),
    decreases deltas.len(),
{
    if deltas.len() > 0 {
        let init = deltas.drop_last();
        lemma_removed_in_places(init);
        lemma_places_agree(init.len(), |k: int| init[k] is Removed, |k: int| deltas[k] is Removed);
    }
}

proof fn lemma_removed_in_at(deltas: Seq<ComponentDeltaView>, i: int)
    requires
        0 <= i < deltas.len(),
        deltas[i] is Removed,
    ensures
        ({
            let k = places(i as nat, |j: int| deltas[j] is Removed);
            &&& k < removed_in(deltas).len()
            &&& removed_in(deltas)[k as int] == deltas[i]->Removed_0
        }),
    decreases deltas.len(),
{
    let init = deltas.drop_last();
    if i < init.len() {
        assert(init[i] == deltas[i]);
        lemma_removed_in_at(init, i);
        lemma_places_agree(i as nat, |j: int| init[j] is Removed, |j: int| deltas[j] is Removed);
    } else {
        lemma_removed_in_places(init);
        lemma_places_agree(i as nat, |j: int| init[j] is Removed, |j: int| deltas[j] is Removed);
    }
}

proof fn lemma_new_in_places(deltas: Seq<VulnDeltaView>)
    ensures
        new_in(deltas).len() == places(deltas.len(), |k: int| deltas[k] is New),
    decreases deltas.len(),
{
    if deltas.len() > 0 {
        let init = deltas.drop_last();
        lemma_new_in_places(init);
        lemma_places_agree(init.len(), |k: int| init[k] is New, |k: int| deltas[k] is New);
    }
}

proof fn lemma_new_in_at(deltas: Seq<VulnDeltaView>, i: int)
    requires
        0 <= i < deltas.len(),
        deltas[i] is New,
    ensures
        ({
            let k = places(i as nat, |j: int| deltas[j] is New);
            &&& k < new_in(deltas).len()
            &&& new_in(deltas)[k as int] == deltas[i]->New_0
        }),
    decreases deltas.len(),
{
    let init = deltas.drop_last();
    if i < init.len() {
        assert(init[i] == deltas[i]);
        lemma_new_in_at(init, i);
        lemma_places_agree(i as nat, |j: int| init[j] is New, |j: int| deltas[j] is New);
    } else {
        lemma_new_in_places(init);
        lemma_places_agree(i as nat, |j: int| init[j] is New, |j: int| deltas[j] is New);
    }
}

proof fn lemma_resolved_in_places(deltas: Seq<VulnDeltaView>)
    ensures
        resolved_in(deltas).len() == places(deltas.len(), |k: int| deltas[k] is Resolved),
    decreases deltas.len(),
{
    if deltas.len() > 0 {
        let init = deltas.drop_last();
        lemma_resolved_in_places(init);
        lemma_places_agree(
            init.len(),
            |k: int| init[k] is Resolved,
            |k: int| deltas[k] is Resolved,
        );
    }
}

proof fn lemma_resolved_in_at(deltas: Seq<VulnDeltaView>, i: int)
    requires
        0 <= i < deltas.len(),
        deltas[i] is Resolved,
    ensures
        ({
            let k = places(i as nat, |j: int| deltas[j] is Resolved);
            &&& k < resolved_in(deltas).len()
            &&& resolved_in(deltas)[k as int] == deltas[i]->Resolved_0
        }),
    decreases deltas.len(),
{
    let init = deltas.drop_last();
    if i < init.len() {
        assert(init[i] == deltas[i]);
        lemma_resolved_in_at(init, i);
        lemma_places_agree(i as nat, |j: int| init[j] is Resolved, |j: int| deltas[j] is Resolved);
    } else {
        lemma_resolved_in_places(init);
        lemma_places_agree(i as nat, |j: int| init[j] is Resolved, |j: int| deltas[j] is Resolved);
    }
}

proof fn lemma_unchanged_places(deltas: Seq<VulnDeltaView>)
    ensures
        unchanged_in(deltas) == places(deltas.len(), |k: int| deltas[k] is Unchanged),
    decreases deltas.len(),
{
    if deltas.len() > 0 {
        let init = deltas.drop_last();
        lemma_unchanged_places(init);
        lemma_places_agree(
            init.len(),
            |k: int| init[k] is Unchanged,
            |k: int| deltas[k] is Unchanged,
        );
    }
}

// ── The display of a comparison ──────────────────────────────────────

/// Two bills of materials are said not to differ exactly where no component
/// changed and every vulnerability was there before and is there still.
pub proof fn law_no_difference_is_said_iff_there_is_none(
    old_path: Text,
    new_path: Text,
    components: Seq<ComponentDeltaView>,
    vulns: Seq<VulnDeltaView>,
)
    ensures
        ({
            let l = difference(old_path, new_path, components, vulns);
            let same = components.len() == 0 && forall|i: int|
                0 <= i < vulns.len() ==> (#[trigger] vulns[i]) is Unchanged;
            &&& same <==> l == seq!["✅ No differences found between the two SBOMs"@]
            &&& !same ==> l.len() >= 4 && holds(l[0], old_path + " → "@ + new_path)
        }),
{
    broadcast use group_holds;

    let l = difference(old_path, new_path, components, vulns);
    let one = seq!["✅ No differences found between the two SBOMs"@];
    assert(one.len() == 1);
}

proof fn lemma_sections_shown(
    old_path: Text,
    new_path: Text,
    components: Seq<ComponentDeltaView>,
    vulns: Seq<VulnDeltaView>,
    l: Text,
)
    requires
        components.len() > 0 || exists|i: int|
            0 <= i < vulns.len() && !((#[trigger] vulns[i]) is Unchanged),
    ensures
        components.len() > 0 && component_lines(components).contains(l) ==> difference(
            old_path,
            new_path,
            components,
            vulns,
        ).contains(l),
        vulns.len() > 0 && vuln_lines(vulns).contains(l) ==> difference(
            old_path,
            new_path,
            components,
            vulns,
        ).contains(l),
{
    let head = seq!["📊 SBOM Diff — "@ + old_path + " → "@ + new_path, ""@];
    let c = if components.len() == 0 {
        Seq::empty()
    } else {
        component_lines(components)
    };
    let v = if vulns.len() == 0 {
        Seq::empty()
    } else {
        vuln_lines(vulns)
    };
    let foot = seq![
        "\x1b[90m"@ + "──────────────────────────────────────────────────"@ + "\x1b[0m"@,
        ""@,
    ];
    assert(difference(old_path, new_path, components, vulns) == head + c + v + foot);
    lemma_concat_has(head, c, l);
    lemma_concat_has(head + c, v, l);
    lemma_concat_has(head + c + v, foot, l);
}

/// Of the vulnerabilities that are new, the first ten are shown: some line
/// says the id, the severity, or that it is unknown, and the description, and
/// one more which component is affected.
pub proof fn law_new_vulnerability_is_shown(
    old_path: Text,
    new_path: Text,
    components: Seq<ComponentDeltaView>,
    vulns: Seq<VulnDeltaView>,
    i: int,
)
    requires
        0 <= i < vulns.len(),
        vulns[i] is New,
        places(i as nat, |k: int| vulns[k] is New) < 10,
    ensures
        ({
            let l = difference(old_path, new_path, components, vulns);
            let v = vulns[i]->New_0;
            let severity = if v.severity.len() == 0 {
                "UNKNOWN"@
            } else {
                v.severity
            };
            &&& exists|k: int|
                0 <= k < l.len() && holds(#[trigger] l[k], "🚨 "@ + v.id) && holds(
                    l[k],
                    " ["@ + severity + "] "@,
                ) && holds(l[k], short(v.description))
            &&& v.purl.len() > 0 ==> says(l, "affects: "@ + v.purl)
        }),
{
    broadcast use group_holds;

    let all = difference(old_path, new_path, components, vulns);
    let v = vulns[i]->New_0;
    lemma_new_in_at(vulns, i);
    let fresh = new_in(vulns);
    let k = places(i as nat, |j: int| vulns[j] is New) as int;
    let blocks = first_items(fresh).map_values(|v: VulnEntryView| new_vuln_lines(v));
    assert(first_items(fresh)[k] == v);
    assert(blocks[k] == new_vuln_lines(v));
    let line = new_vuln_lines(v)[0];
    assert(blocks[k].contains(line));
    let title = "── New CVEs ───────────────────────────"@;
    lemma_listed(title, blocks, fresh.len(), k, line);
    lemma_vuln_section(vulns, line);
    assert(!(vulns[i] is Unchanged));
    lemma_sections_shown(old_path, new_path, components, vulns, line);
    let at = choose|at: int| 0 <= at < all.len() && all[at] == line;
    let severity = if v.severity.len() == 0 {
        "UNKNOWN"@
    } else {
        v.severity
    };
    assert(holds(line, "🚨 "@ + v.id));
    assert(holds(line, " ["@ + severity + "] "@));
    assert(holds(line, short(v.description)));
    assert(holds(all[at], "🚨 "@ + v.id));
    if v.purl.len() > 0 {
        let more = new_vuln_lines(v)[1];
        assert(blocks[k].contains(more));
        lemma_listed(title, blocks, fresh.len(), k, more);
        lemma_vuln_section(vulns, more);
        lemma_sections_shown(old_path, new_path, components, vulns, more);
        let b = choose|b: int| 0 <= b < all.len() && all[b] == more;
        reveal_strlit("     affects: ");
        reveal_strlit("     ");
        reveal_strlit("affects: ");
        assert("     affects: "@ =~= "     "@ + "affects: "@);
        assert(holds(more, "affects: "@ + v.purl));
        assert(holds(all[b], "affects: "@ + v.purl));
    }
}

proof fn lemma_vuln_section(vulns: Seq<VulnDeltaView>, l: Text)
    ensures
        listing(
            "── New CVEs ───────────────────────────"@,
            first_items(new_in(vulns)).map_values(|v: VulnEntryView| new_vuln_lines(v)),
            new_in(vulns).len(),
        ).contains(l) ==> vuln_lines(vulns).contains(l),
        listing(
            "── Resolved CVEs ──────────────────────"@,
            first_items(resolved_in(vulns)).map_values(|v: VulnEntryView| seq![resolved_line(v)]),
            resolved_in(vulns).len(),
        ).contains(l) ==> vuln_lines(vulns).contains(l),
{
    let all = vuln_lines(vulns);
    let a = listing(
        "── New CVEs ───────────────────────────"@,
        first_items(new_in(vulns)).map_values(|v: VulnEntryView| new_vuln_lines(v)),
        new_in(vulns).len(),
    );
    let b = listing(
        "── Resolved CVEs ──────────────────────"@,
        first_items(resolved_in(vulns)).map_values(|v: VulnEntryView| seq![resolved_line(v)]),
        resolved_in(vulns).len(),
    );
    let head = all.take(6);
    assert(all =~= head + a + b);
    lemma_concat_has(head, a, l);
    lemma_concat_has(head + a, b, l);
}

/// Of the vulnerabilities that are resolved, the first ten are shown: some
/// line says the id, and that it is no longer present.
pub proof fn law_resolved_vulnerability_is_shown(
    old_path: Text,
    new_path: Text,
    components: Seq<ComponentDeltaView>,
    vulns: Seq<VulnDeltaView>,
    i: int,
)
    requires
        0 <= i < vulns.len(),
        vulns[i] is Resolved,
        places(i as nat, |k: int| vulns[k] is Resolved) < 10,
    ensures
        says(
            difference(old_path, new_path, components, vulns),
            "✅ "@ + vulns[i]->Resolved_0.id + " — No longer present"@,
        ),
{
    broadcast use group_holds;

    let all = difference(old_path, new_path, components, vulns);
    let v = vulns[i]->Resolved_0;
    lemma_resolved_in_at(vulns, i);
    let gone = resolved_in(vulns);
    let k = places(i as nat, |j: int| vulns[j] is Resolved) as int;
    let blocks = first_items(gone).map_values(|v: VulnEntryView| seq![resolved_line(v)]);
    assert(first_items(gone)[k] == v);
    let line = resolved_line(v);
    assert(blocks[k] == seq![line]);
    assert(seq![line][0] == line);
    assert(blocks[k].contains(line));
    lemma_listed("── Resolved CVEs ──────────────────────"@, blocks, gone.len(), k, line);
    lemma_vuln_section(vulns, line);
    assert(!(vulns[i] is Unchanged));
    lemma_sections_shown(old_path, new_path, components, vulns, line);
    let at = choose|at: int| 0 <= at < all.len() && all[at] == line;
    assert(holds(all[at], "✅ "@ + v.id + " — No longer present"@));
}

/// The section on vulnerabilities counts the new, the resolved and the
/// unchanged ones, and says how many are left out of a list of more than ten.
pub proof fn law_vulnerabilities_are_counted(vulns: Seq<VulnDeltaView>)
    ensures
        ({
            let l = vuln_lines(vulns);
            let fresh = places(vulns.len(), |k: int| vulns[k] is New);
            let gone = places(vulns.len(), |k: int| vulns[k] is Resolved);
            let same = places(vulns.len(), |k: int| vulns[k] is Unchanged);
            &&& ends(l[2], "🚨 New:      "@ + decimal(fresh))
            &&& ends(l[3], "✅ Resolved: "@ + decimal(gone))
            &&& ends(l[4], "➖ Unchanged: "@ + decimal(same))
            &&& fresh > 10 ==> says(l, "… and "@ + decimal((fresh - 10) as nat) + " more"@)
            &&& gone > 10 ==> says(l, "… and "@ + decimal((gone - 10) as nat) + " more"@)
        }),
{
    broadcast use group_holds;

    lemma_new_in_places(vulns);
    lemma_resolved_in_places(vulns);
    lemma_unchanged_places(vulns);
    let l = vuln_lines(vulns);
    let fresh = new_in(vulns).len();
    let gone = resolved_in(vulns).len();
    lemma_count_line("\x1b[31m"@, "🚨 New:      "@, fresh);
    lemma_count_line("\x1b[32m"@, "✅ Resolved: "@, gone);
    lemma_count_line("\x1b[90m"@, "➖ Unchanged: "@, unchanged_in(vulns));
    if fresh > 10 {
        let t = "── New CVEs ───────────────────────────"@;
        let b = first_items(new_in(vulns)).map_values(|v: VulnEntryView| new_vuln_lines(v));
        lemma_cut_off_is_said(t, b, fresh);
        let x = "… and "@ + decimal((fresh - 10) as nat) + " more"@;
        let list = listing(t, b, fresh);
        let k = choose|k: int| 0 <= k < list.len() && holds(#[trigger] list[k], x);
        assert(list.contains(list[k]));
        lemma_vuln_section(vulns, list[k]);
        let j = choose|j: int| 0 <= j < l.len() && l[j] == list[k];
        assert(holds(l[j], x));
    }
    if gone > 10 {
        let t = "── Resolved CVEs ──────────────────────"@;
        let b = first_items(resolved_in(vulns)).map_values(
            |v: VulnEntryView| seq![resolved_line(v)],
        );
        lemma_cut_off_is_said(t, b, gone);
        let x = "… and "@ + decimal((gone - 10) as nat) + " more"@;
        let list = listing(t, b, gone);
        let k = choose|k: int| 0 <= k < list.len() && holds(#[trigger] list[k], x);
        assert(list.contains(list[k]));
        lemma_vuln_section(vulns, list[k]);
        let j = choose|j: int| 0 <= j < l.len() && l[j] == list[k];
        assert(holds(l[j], x));
    }
}

proof fn lemma_count_line(color: Text, label: Text, n: nat)
    ensures
        ends(count_line(color, label, n), label + decimal(n)),
{
    broadcast use group_holds;

    let front = "  "@ + color;
    assert(front + label + decimal(n) =~= front + (label + decimal(n)));
    assert(ends(front + (label + decimal(n)), label + decimal(n)));
}

// Components

proof fn lemma_component_section(deltas: Seq<ComponentDeltaView>, l: Text)
    ensures
        listing(
            "── Added ──────────────────────────────"@,
            first_items(added_in(deltas)).map_values(
                |c: ComponentView|
                    seq![component_line(word_color(c.health), c)],
            ),
            added_in(deltas).len(),
        ).contains(l) ==> component_lines(deltas).contains(l),
        listing(
            "── Changed ────────────────────────────"@,
            first_items(changed_in(deltas)).map_values(
                |p: (ComponentView, ComponentView)| seq![changed_line(p.0, p.1)],
            ),
            changed_in(deltas).len(),
        ).contains(l) ==> component_lines(deltas).contains(l),
        listing(
            "── Removed ────────────────────────────"@,
            first_items(removed_in(deltas)).map_values(
                |c: ComponentView| seq![component_line("\x1b[31m"@, c)],
            ),
            removed_in(deltas).len(),
        ).contains(l) ==> component_lines(deltas).contains(l),
{
    let all = component_lines(deltas);
    let a = listing(
        "── Added ──────────────────────────────"@,
        first_items(added_in(deltas)).map_values(
            |c: ComponentView| seq![component_line(word_color(c.health), c)],
        ),
        added_in(deltas).len(),
    );
    let b = listing(
        "── Changed ────────────────────────────"@,
        first_items(changed_in(deltas)).map_values(
            |p: (ComponentView, ComponentView)| seq![changed_line(p.0, p.1)],
        ),
        changed_in(deltas).len(),
    );
    let c = listing(
        "── Removed ────────────────────────────"@,
        first_items(removed_in(deltas)).map_values(
            |c: ComponentView| seq![component_line("\x1b[31m"@, c)],
        ),
        removed_in(deltas).len(),
    );
    let head = all.take(6);
    assert(all =~= head + a + b + c);
    lemma_concat_has(head, a, l);
    lemma_concat_has(head + a, b, l);
    lemma_concat_has(head + a + b, c, l);
}

/// A component is described: its sign, its name, its version and its package
/// URL.
pub open spec fn describes(l: Text, c: ComponentView) -> bool {
    &&& holds(l, " "@ + c.name + " v"@)
    &&& holds(l, " v"@ + c.version + " — "@)
    &&& holds(l, " — "@ + c.purl)
    &&& c.health == "healthy"@ ==> holds(l, "✅"@)
    &&& c.health == "warning"@ ==> holds(l, "⚠️"@)
    &&& c.health == "hijack"@ ==> holds(l, "🚩"@)
    &&& c.health == "inactive"@ ==> holds(l, "🔴"@)
    &&& c.health == "dead"@ ==> holds(l, "🪦"@)
    &&& c.health == "unknown"@ ==> holds(l, "❓"@)
}

proof fn lemma_describes(color: Text, c: ComponentView)
    ensures
        describes(component_line(color, c), c),
{
    broadcast use group_holds;

    lemma_words(Health::Healthy);
    lemma_words(Health::Warning);
    lemma_words(Health::Hijack);
    lemma_words(Health::Inactive);
    lemma_words(Health::Dead);
    lemma_words(Health::Unknown);
}

/// Of the components that were added, removed or changed, the first ten of
/// each are shown: an added or removed one with its sign, name, version and
/// package URL, a changed one with both versions.
pub proof fn law_changed_component_is_shown(
    old_path: Text,
    new_path: Text,
    deltas: Seq<ComponentDeltaView>,
    vulns: Seq<VulnDeltaView>,
    i: int,
)
    requires
        0 <= i < deltas.len(),
    ensures
        ({
            let l = difference(old_path, new_path, deltas, vulns);
            &&& deltas[i] is Added && places(i as nat, |k: int| deltas[k] is Added) < 10
                ==> exists|k: int|
                0 <= k < l.len() && describes(#[trigger] l[k], deltas[i]->Added_0)
            &&& deltas[i] is Removed && places(i as nat, |k: int| deltas[k] is Removed) < 10
                ==> exists|k: int|
                0 <= k < l.len() && describes(#[trigger] l[k], deltas[i]->Removed_0)
            &&& deltas[i] is Changed && places(i as nat, |k: int| deltas[k] is Changed) < 10
                ==> exists|k: int|
                0 <= k < l.len() && holds(
                    #[trigger] l[k],
                    deltas[i]->Changed_0.name + " v"@ + deltas[i]->Changed_0.version,
                ) && holds(l[k], " v"@ + deltas[i]->Changed_1.version + " — "@) && holds(
                    l[k],
                    " — "@ + deltas[i]->Changed_1.purl,
                )
        }),
{
    broadcast use group_holds;

    let all = difference(old_path, new_path, deltas, vulns);
    match deltas[i] {
        ComponentDeltaView::Added(c) => {
            if places(i as nat, |k: int| deltas[k] is Added) < 10 {
                lemma_added_in_at(deltas, i);
                let items = added_in(deltas);
                let k = places(i as nat, |j: int| deltas[j] is Added) as int;
                let color = word_color(c.health);
                let blocks = first_items(items).map_values(
                    |c: ComponentView|
                        seq![component_line(word_color(c.health), c)],
                );
                let line = component_line(color, c);
                assert(first_items(items)[k] == c);
                assert(blocks[k] == seq![line]);
                assert(seq![line][0] == line);
                assert(blocks[k].contains(line));
                lemma_listed(
                    "── Added ──────────────────────────────"@,
                    blocks,
                    items.len(),
                    k,
                    line,
                );
                lemma_component_section(deltas, line);
                lemma_sections_shown(old_path, new_path, deltas, vulns, line);
                lemma_describes(color, c);
                let at = choose|at: int| 0 <= at < all.len() && all[at] == line;
                assert(describes(all[at], c));
            }
        },
        ComponentDeltaView::Removed(c) => {
            if places(i as nat, |k: int| deltas[k] is Removed) < 10 {
                lemma_removed_in_at(deltas, i);
                let items = removed_in(deltas);
                let k = places(i as nat, |j: int| deltas[j] is Removed) as int;
                let color = "\x1b[31m"@;
                let blocks = first_items(items).map_values(
                    |c: ComponentView| seq![component_line("\x1b[31m"@, c)],
                );
                let line = component_line(color, c);
                assert(first_items(items)[k] == c);
                assert(blocks[k] == seq![line]);
                assert(seq![line][0] == line);
                assert(blocks[k].contains(line));
                lemma_listed(
                    "── Removed ────────────────────────────"@,
                    blocks,
                    items.len(),
                    k,
                    line,
                );
                lemma_component_section(deltas, line);
                lemma_sections_shown(old_path, new_path, deltas, vulns, line);
                lemma_describes(color, c);
                let at = choose|at: int| 0 <= at < all.len() && all[at] == line;
                assert(describes(all[at], c));
            }
        },
        ComponentDeltaView::Changed(a, b) => {
            if places(i as nat, |k: int| deltas[k] is Changed) < 10 {
                lemma_changed_in_at(deltas, i);
                let items = changed_in(deltas);
                let k = places(i as nat, |j: int| deltas[j] is Changed) as int;
                let blocks = first_items(items).map_values(
                    |p: (ComponentView, ComponentView)| seq![changed_line(p.0, p.1)],
                );
                let line = changed_line(a, b);
                assert(first_items(items)[k] == (a, b));
                assert(blocks[k] == seq![line]);
                assert(seq![line][0] == line);
                assert(blocks[k].contains(line));
                lemma_listed(
                    "── Changed ────────────────────────────"@,
                    blocks,
                    items.len(),
                    k,
                    line,
                );
                lemma_component_section(deltas, line);
                lemma_sections_shown(old_path, new_path, deltas, vulns, line);
                let at = choose|at: int| 0 <= at < all.len() && all[at] == line;
                assert(holds(all[at], a.name + " v"@ + a.version));
            }
        },
    }
}

/// The section on components counts the added, the changed and the removed
/// ones.
pub proof fn law_components_are_counted(deltas: Seq<ComponentDeltaView>)
    ensures
        ({
            let l = component_lines(deltas);
            &&& ends(
                l[2],
                "🆕 Added:   "@ + decimal(places(deltas.len(), |k: int| deltas[k] is Added)),
            )
            &&& ends(
                l[3],
                "🔄 Changed: "@ + decimal(places(deltas.len(), |k: int| deltas[k] is Changed)),
            )
            &&& ends(
                l[4],
                "🗑  Removed: "@ + decimal(places(deltas.len(), |k: int| deltas[k] is Removed)),
            )
        }),
{
    lemma_added_in_places(deltas);
    lemma_changed_in_places(deltas);
    lemma_removed_in_places(deltas);
    lemma_count_line("\x1b[32m"@, "🆕 Added:   "@, added_in(deltas).len());
    lemma_count_line("\x1b[33m"@, "🔄 Changed: "@, changed_in(deltas).len());
    lemma_count_line("\x1b[31m"@, "🗑  Removed: "@, removed_in(deltas).len());
}

/// A description of up to 60 bytes is shown whole; a longer one is cut off
/// after at most 57, where as much as fits is kept, and marked.
pub proof fn law_descriptions_are_shortened(description: Text)
    ensures
        byte_len(description) <= 60 ==> short(description) == description,
        byte_len(description) > 60 ==> exists|k: int|
            0 <= k < description.len() && short(description) == #[trigger] description.take(k)
                + "…"@ && byte_len(description.take(k)) <= 57 && byte_len(description.take(k + 1))
                > 57,
{
    law_cut_off(description, 57);
    let k = cut_off(description, 57).len() as int;
    if byte_len(description) > 60 {
        assert(description.take(description.len() as int) =~= description);
        assert(k < description.len());
        assert(short(description) == description.take(k) + "…"@);
    }
}

// ── Reading a bill ───────────────────────────────────────────────────

/// The components that are read are under their package URLs; a later one
/// under the same URL takes the place of an earlier one, and every one is kept
/// with its name, its version and its health, which is unknown where the first
/// property for it is missing or empty.
pub proof fn law_components_are_read(all: Seq<ComponentRawView>, c: ComponentRawView, key: Text)
    ensures
        value_of(component_index(all.push(c)), c.purl) == Some(
            ComponentView {
                name: c.name,
                version: c.version,
                purl: c.purl,
                health: health_in(c),
            },
        ),
        key != c.purl ==> value_of(component_index(all.push(c)), key) == value_of(
            component_index(all),
            key,
        ),
        component_index(Seq::empty()).len() == 0,
{
    assert(all.push(c).drop_last() =~= all);
    law_put_and_find(component_index(all), c.purl, component_of(c), key);
}

/// The health of a component is the value of the first property
/// `gravedigger:health`; without one, or with an empty one, it is unknown.
pub proof fn law_health_is_read(c: ComponentRawView, i: int)
    ensures
        0 <= i < c.properties.len() && c.properties[i].0 == "gravedigger:health"@
            && c.properties[i].1.len() > 0 && (forall|k: int|
            0 <= k < i ==> (#[trigger] c.properties[k]).0 != "gravedigger:health"@) ==> health_in(c)
            == c.properties[i].1,
        (forall|k: int|
            0 <= k < c.properties.len() ==> (#[trigger] c.properties[k]).0
                != "gravedigger:health"@) ==> health_in(c) == "unknown"@,
{
    reveal_strlit("");
    let name = "gravedigger:health"@;
    if 0 <= i < c.properties.len() && c.properties[i].0 == name && (forall|k: int|
        0 <= k < i ==> (#[trigger] c.properties[k]).0 != name) {
        lemma_property_at(c.properties, name, 0, i);
    }
    if forall|k: int| 0 <= k < c.properties.len() ==> (#[trigger] c.properties[k]).0 != name {
        lemma_property_none(c.properties, name, 0);
    }
}

proof fn lemma_property_at(props: Seq<(Text, Text)>, name: Text, k: int, i: int)
    requires
        0 <= k <= i < props.len(),
        props[i].0 == name,
        forall|j: int| k <= j < i ==> (#[trigger] props[j]).0 != name,
    ensures
        property_from(props, name, k) == props[i].1,
    decreases i - k,
{
    if k < i {
        assert(props[k].0 != name);
        lemma_property_at(props, name, k + 1, i);
    }
}

proof fn lemma_property_none(props: Seq<(Text, Text)>, name: Text, k: int)
    requires
        0 <= k <= props.len(),
        forall|j: int| k <= j < props.len() ==> (#[trigger] props[j]).0 != name,
    ensures
        property_from(props, name, k) == ""@,
    decreases props.len() - k,
{
    if k < props.len() {
        assert(props[k].0 != name);
        lemma_property_none(props, name, k + 1);
    }
}

/// The value of a property is that of the first one with its name, and empty
/// where there is none.
pub proof fn law_first_property_counts(props: Seq<(Text, Text)>, name: Text, i: int)
    ensures
        0 <= i < props.len() && props[i].0 == name && (forall|k: int|
            0 <= k < i ==> (#[trigger] props[k]).0 != name) ==> property_from(props, name, 0)
            == props[i].1,
        (forall|k: int| 0 <= k < props.len() ==> (#[trigger] props[k]).0 != name)
            ==> property_from(props, name, 0).len() == 0,
{
    reveal_strlit("");
    if 0 <= i < props.len() && props[i].0 == name && (forall|k: int|
        0 <= k < i ==> (#[trigger] props[k]).0 != name) {
        lemma_property_at(props, name, 0, i);
    }
    if forall|k: int| 0 <= k < props.len() ==> (#[trigger] props[k]).0 != name {
        lemma_property_none(props, name, 0);
    }
}

/// The vulnerabilities that are read are under their ids; a later one takes
/// the place of an earlier one. Each is kept with its description, its first
/// rating, and the component that its first reference leads to.
pub proof fn law_vulnerabilities_are_read(
    all: Seq<VulnRawView>,
    components: Seq<ComponentRawView>,
    v: VulnRawView,
    key: Text,
)
    ensures
        ({
            let e = value_of(vuln_index(all.push(v), components), v.id);
            &&& e is Some
            &&& e->0.id == v.id && e->0.description == v.description
            &&& v.ratings.len() > 0 ==> e->0.severity == v.ratings[0]
            &&& v.ratings.len() == 0 ==> e->0.severity.len() == 0
            &&& v.affects.len() > 0 ==> e->0.purl == resolved(v.affects[0], components)
            &&& v.affects.len() == 0 ==> e->0.purl.len() == 0
            &&& key != v.id ==> value_of(vuln_index(all.push(v), components), key) == value_of(
                vuln_index(all, components),
                key,
            )
            &&& vuln_index(Seq::empty(), components).len() == 0
        }),
{
    reveal_strlit("");
    assert(all.push(v).drop_last() =~= all);
    law_put_and_find(vuln_index(all, components), v.id, vuln_entry(v, components), key);
}

/// A reference leads to the package URL of the first component that has it;
/// one that no component has stays as it is.
pub proof fn law_references_are_resolved(
    bom_ref: Text,
    components: Seq<ComponentRawView>,
    i: int,
)
    ensures
        bom_ref.len() > 0 && 0 <= i < components.len() && components[i].bom_ref == bom_ref && (
        forall|k: int| 0 <= k < i ==> (#[trigger] components[k]).bom_ref != bom_ref) ==> resolved(
            bom_ref,
            components,
        ) == components[i].purl,
        (forall|k: int|
            0 <= k < components.len() ==> (#[trigger] components[k]).bom_ref != bom_ref)
            ==> resolved(bom_ref, components) == bom_ref,
{
    reveal_strlit("");
    if 0 <= i < components.len() && components[i].bom_ref == bom_ref && (forall|k: int|
        0 <= k < i ==> (#[trigger] components[k]).bom_ref != bom_ref) {
        lemma_resolved_at(bom_ref, components, 0, i);
    }
    if forall|k: int| 0 <= k < components.len() ==> (#[trigger] components[k]).bom_ref != bom_ref {
        lemma_unresolved(bom_ref, components, 0);
        if bom_ref.len() == 0 {
            assert(bom_ref =~= ""@);
        }
    }
}

proof fn lemma_resolved_at(bom_ref: Text, all: Seq<ComponentRawView>, k: int, i: int)
    requires
        0 <= k <= i < all.len(),
        all[i].bom_ref == bom_ref,
        forall|j: int| k <= j < i ==> (#[trigger] all[j]).bom_ref != bom_ref,
    ensures
        resolved_from(bom_ref, all, k) == all[i].purl,
    decreases i - k,
{
    if k < i {
        assert(all[k].bom_ref != bom_ref);
        lemma_resolved_at(bom_ref, all, k + 1, i);
    }
}

proof fn lemma_unresolved(bom_ref: Text, all: Seq<ComponentRawView>, k: int)
    requires
        0 <= k <= all.len(),
        forall|j: int| k <= j < all.len() ==> (#[trigger] all[j]).bom_ref != bom_ref,
    ensures
        resolved_from(bom_ref, all, k) == bom_ref,
    decreases all.len() - k,
{
    if k < all.len() {
        assert(all[k].bom_ref != bom_ref);
        lemma_unresolved(bom_ref, all, k + 1);
    }
}

// ── Making a bill ────────────────────────────────────────────────────

/// A bill of materials names its format, has the given serial number and time,
/// and the component of a package has its reference, name, version,
/// description, package URL, health and reason.
pub proof fn law_bill_of_materials(
    ecosystem: Text,
    packages: Seq<PackageView>,
    serial: Text,
    time: Text,
    refs: Seq<Text>,
    i: int,
)
    requires
        0 <= i < packages.len(),
    ensures
        ({
            let s = sbom_of(ecosystem, packages, serial, time, refs);
            let c = s.components[i];
            let p = packages[i];
            &&& s.bom_format == "CycloneDX"@ && s.spec_version == "1.6"@ && s.version == 1
            &&& s.serial_number == "urn:uuid:"@ + serial && s.timestamp == time
            &&& c.kind == "library"@ && c.bom_ref == refs[i]
            &&& p.description is Some ==> c.description == p.description->0
            &&& p.description is None ==> c.description.len() == 0
            &&& c.properties.len() == 2
            &&& c.properties[0] == ("gravedigger:health"@, p.health)
            &&& c.properties[1].0 == "gravedigger:stale_reason"@
            &&& p.stale_reason is Some ==> c.properties[1].1 == p.stale_reason->0
            &&& p.stale_reason is None ==> c.properties[1].1.len() == 0
        }),
{
    reveal_strlit("");
}

/// The package URL of a package names the type of its ecosystem, its name and
/// its version.
pub proof fn law_package_url(ecosystem: Text, name: Text, version: Text)
    ensures
        ends(purl(ecosystem, name, version), "/"@ + name + "@"@ + version),
        ecosystem == "cargo"@ ==> begins(purl(ecosystem, name, version), "pkg:"@ + "cargo"@ + "/"@),
        ecosystem == "npm"@ ==> begins(purl(ecosystem, name, version), "pkg:"@ + "npm"@ + "/"@),
        ecosystem == "pypi"@ ==> begins(purl(ecosystem, name, version), "pkg:"@ + "pypi"@ + "/"@),
        ecosystem == "go"@ ==> begins(purl(ecosystem, name, version), "pkg:"@ + "golang"@ + "/"@),
{
    broadcast use group_holds;

    reveal_strlit("cargo");
    reveal_strlit("npm");
    reveal_strlit("pypi");
    reveal_strlit("go");
    assert("cargo"@.len() == 5 && "npm"@.len() == 3 && "pypi"@.len() == 4 && "go"@.len() == 2);
    let front = "pkg:"@ + purl_type(ecosystem);
    let back = "/"@ + name + "@"@ + version;
    assert(front + "/"@ + name + "@"@ + version =~= front + back);
    assert(ends(front + back, back));
}

/// The vulnerabilities of a bill are those of its packages, package by
/// package and in their order: each with its id, its summary, its severity or
/// that this is unknown, and the reference of its component.
pub proof fn law_bill_names_every_vulnerability(
    packages: Seq<PackageView>,
    p: PackageView,
    components: Seq<SbomComponentView>,
    k: int,
)
    ensures
        ({
            let before = sbom_vulns(packages, components);
            let all = sbom_vulns(packages.push(p), components);
            &&& sbom_vulns(Seq::empty(), components).len() == 0
            &&& all.len() == before.len() + p.vulns.len()
            &&& all.take(before.len() as int) == before
            &&& 0 <= k < p.vulns.len() ==> ({
                let v = all[before.len() + k];
                &&& v.id == p.vulns[k].id
                &&& p.vulns[k].summary is Some ==> v.description == p.vulns[k].summary->0
                &&& p.vulns[k].summary is None ==> v.description.len() == 0
                &&& p.vulns[k].severity is Some ==> v.severity == p.vulns[k].severity->0
                &&& p.vulns[k].severity is None ==> v.severity == "UNKNOWN"@
                &&& v.affects_ref == ref_from(components, p.name, p.version, 0)
            })
        }),
{
    reveal_strlit("");
    assert(packages.push(p).drop_last() =~= packages);
    let before = sbom_vulns(packages, components);
    let all = sbom_vulns(packages.push(p), components);
    assert(all.take(before.len() as int) =~= before);
}

// ── Comparing two bills ──────────────────────────────────────────────

proof fn lemma_swapped_entry<W>(entries: Seq<(Text, W)>, key: Text, value: W, i: int)
    requires
        0 <= i < entries.len(),
    ensures
        swapped(entries, key, value).len() == entries.len(),
        swapped(entries, key, value)[i] == (key, value) || swapped(entries, key, value)[i]
            == entries[i],
    decreases entries.len(),
{
    if entries.last().0 != key {
        let init = entries.drop_last();
        if i < init.len() {
            lemma_swapped_entry(init, key, value, i);
        } else if init.len() > 0 {
            lemma_swapped_entry(init, key, value, 0);
        } else {
            assert(swapped(init, key, value) == init);
        }
    }
}

/// What is read of a bill stands under its own key: a component under its
/// package URL, a vulnerability under its id.
pub proof fn law_entries_stand_under_their_keys(
    components: Seq<ComponentRawView>,
    vulns: Seq<VulnRawView>,
)
    ensures
        forall|i: int|
            0 <= i < component_index(components).len() ==> (#[trigger] component_index(
                components,
            )[i]).0 == component_index(components)[i].1.purl,
        forall|i: int|
            0 <= i < vuln_index(vulns, components).len() ==> (#[trigger] vuln_index(
                vulns,
                components,
            )[i]).0 == vuln_index(vulns, components)[i].1.id,
{
    lemma_components_under_keys(components);
    lemma_vulns_under_keys(vulns, components);
}

proof fn lemma_components_under_keys(all: Seq<ComponentRawView>)
    ensures
        forall|i: int|
            0 <= i < component_index(all).len() ==> (#[trigger] component_index(all)[i]).0
                == component_index(all)[i].1.purl,
    decreases all.len(),
{
    if all.len() > 0 {
        let c = all.last();
        let before = component_index(all.drop_last());
        let after = component_index(all);
        lemma_components_under_keys(all.drop_last());
        assert forall|i: int| 0 <= i < after.len() implies (#[trigger] after[i]).0
            == after[i].1.purl by {
            if i < before.len() {
                lemma_swapped_entry(before, c.purl, component_of(c), i);
            } else if before.len() > 0 {
                lemma_swapped_entry(before, c.purl, component_of(c), 0);
            }
        }
    }
}

proof fn lemma_vulns_under_keys(all: Seq<VulnRawView>, components: Seq<ComponentRawView>)
    ensures
        forall|i: int|
            0 <= i < vuln_index(all, components).len() ==> (#[trigger] vuln_index(
                all,
                components,
            )[i]).0 == vuln_index(all, components)[i].1.id,
    decreases all.len(),
{
    if all.len() > 0 {
        let v = all.last();
        let before = vuln_index(all.drop_last(), components);
        let after = vuln_index(all, components);
        lemma_vulns_under_keys(all.drop_last(), components);
        assert forall|i: int| 0 <= i < after.len() implies (#[trigger] after[i]).0
            == after[i].1.id by {
            if i < before.len() {
                lemma_swapped_entry(before, v.id, vuln_entry(v, components), i);
            } else if before.len() > 0 {
                lemma_swapped_entry(before, v.id, vuln_entry(v, components), 0);
            }
        }
    }
}

proof fn lemma_vuln_delta_at(
    old: Seq<(Text, VulnEntryView)>,
    new: Seq<(Text, VulnEntryView)>,
    v: VulnEntryView,
    d: VulnDeltaView,
)
    requires
        unique(old),
        unique(new),
        forall|i: int| 0 <= i < old.len() ==> (#[trigger] old[i]).0 == old[i].1.id,
        forall|i: int| 0 <= i < new.len() ==> (#[trigger] new[i]).0 == new[i].1.id,
        d == VulnDeltaView::New(v) || d == VulnDeltaView::Resolved(v) || d
            == VulnDeltaView::Unchanged(v),
    ensures
        vuln_deltas(old, new).contains(d) <==> vuln_change(
            value_of(old, v.id),
            value_of(new, v.id),
        ) == Some(d),
{
    law_vuln_deltas(old, new, d);
    if vuln_deltas(old, new).contains(d) {
        let k = choose|k: Text| #[trigger]
            vuln_change(value_of(old, k), value_of(new, k)) == Some(d);
        lemma_value_of(old, k);
        lemma_value_of(new, k);
        assert(k == v.id);
    }
}

proof fn lemma_component_delta_at(
    old: Seq<(Text, ComponentView)>,
    new: Seq<(Text, ComponentView)>,
    key: Text,
    d: ComponentDeltaView,
)
    requires
        unique(old),
        unique(new),
        forall|i: int| 0 <= i < old.len() ==> (#[trigger] old[i]).0 == old[i].1.purl,
        forall|i: int| 0 <= i < new.len() ==> (#[trigger] new[i]).0 == new[i].1.purl,
        match d {
            ComponentDeltaView::Added(c) => c.purl == key,
            ComponentDeltaView::Changed(a, _) => a.purl == key,
            ComponentDeltaView::Removed(c) => c.purl == key,
        },
    ensures
        component_deltas(old, new).contains(d) <==> component_change(
            value_of(old, key),
            value_of(new, key),
        ) == Some(d),
{
    law_component_deltas(old, new, d);
    if component_deltas(old, new).contains(d) {
        let k = choose|k: Text| #[trigger]
            component_change(value_of(old, k), value_of(new, k)) == Some(d);
        lemma_value_of(old, k);
        lemma_value_of(new, k);
        assert(k == key);
    }
}

/// A vulnerability that only the new bill has is new, one that only the old
/// bill has is resolved, and one that both have is unchanged, as the new bill
/// has it; nothing else is.
pub proof fn law_vulnerabilities_are_compared(
    old: Seq<(Text, VulnEntryView)>,
    new: Seq<(Text, VulnEntryView)>,
    id: Text,
    v: VulnEntryView,
)
    requires
        unique(old),
        unique(new),
        forall|i: int| 0 <= i < old.len() ==> (#[trigger] old[i]).0 == old[i].1.id,
        forall|i: int| 0 <= i < new.len() ==> (#[trigger] new[i]).0 == new[i].1.id,
        v.id == id,
    ensures
        ({
            let all = vuln_deltas(old, new);
            let before = value_of(old, id);
            let after = value_of(new, id);
            &&& all.contains(VulnDeltaView::New(v)) <==> before is None && after == Some(v)
            &&& all.contains(VulnDeltaView::Resolved(v)) <==> before == Some(v) && after is None
            &&& all.contains(VulnDeltaView::Unchanged(v)) <==> before is Some && after == Some(v)
        }),
{
    lemma_vuln_delta_at(old, new, v, VulnDeltaView::New(v));
    lemma_vuln_delta_at(old, new, v, VulnDeltaView::Resolved(v));
    lemma_vuln_delta_at(old, new, v, VulnDeltaView::Unchanged(v));
}

/// A component that only the new bill has was added, one that only the old
/// bill has was removed, and one that both have was changed if its version
/// is another.
pub proof fn law_components_are_compared(
    old: Seq<(Text, ComponentView)>,
    new: Seq<(Text, ComponentView)>,
    key: Text,
    a: ComponentView,
    b: ComponentView,
)
    requires
        unique(old),
        unique(new),
        forall|i: int| 0 <= i < old.len() ==> (#[trigger] old[i]).0 == old[i].1.purl,
        forall|i: int| 0 <= i < new.len() ==> (#[trigger] new[i]).0 == new[i].1.purl,
        a.purl == key,
        b.purl == key,
    ensures
        ({
            let all = component_deltas(old, new);
            let before = value_of(old, key);
            let after = value_of(new, key);
            &&& all.contains(ComponentDeltaView::Added(b)) <==> before is None && after == Some(b)
            &&& all.contains(ComponentDeltaView::Removed(a)) <==> before == Some(a) && after is None
            &&& all.contains(ComponentDeltaView::Changed(a, b)) <==> before == Some(a) && after
                == Some(b) && a.version != b.version
        }),
{
    lemma_component_delta_at(old, new, key, ComponentDeltaView::Added(b));
    lemma_component_delta_at(old, new, key, ComponentDeltaView::Removed(a));
    lemma_component_delta_at(old, new, key, ComponentDeltaView::Changed(a, b));
}

/// The colors of what is shown: by health for a component that was added, and
/// by severity for a vulnerability that is new.
pub proof fn law_colors_of_a_comparison(c: ComponentView, v: VulnEntryView)
    ensures
        c.health == "healthy"@ ==> word_color(c.health) == "\x1b[32m"@,
        c.health == "warning"@ || c.health == "hijack"@ ==> word_color(c.health) == "\x1b[33m"@,
        c.health == "inactive"@ || c.health == "dead"@ ==> word_color(c.health) == "\x1b[31m"@,
        c.health == "unknown"@ ==> word_color(c.health) == "\x1b[90m"@,
        begins(component_line(word_color(c.health), c), "  "@ + word_color(c.health)),
        v.severity == "CRITICAL"@ || v.severity == "HIGH"@ ==> begins(
            new_vuln_lines(v)[0],
            "  "@ + "\x1b[31m"@,
        ),
        v.severity == "MEDIUM"@ || v.severity == "MODERATE"@ ==> begins(
            new_vuln_lines(v)[0],
            "  "@ + "\x1b[33m"@,
        ),
        v.severity.len() == 0 ==> begins(new_vuln_lines(v)[0], "  "@ + "\x1b[90m"@),
{
    broadcast use group_holds;

    lemma_words(Health::Healthy);
    lemma_words(Health::Warning);
    lemma_words(Health::Hijack);
    lemma_words(Health::Inactive);
    lemma_words(Health::Dead);
    lemma_words(Health::Unknown);
    reveal_strlit("CRITICAL");
    reveal_strlit("HIGH");
    reveal_strlit("MEDIUM");
    reveal_strlit("MODERATE");
    assert("CRITICAL"@[0] == 'C' && "HIGH"@[0] == 'H' && "MEDIUM"@[0] == 'M' && "MODERATE"@[0]
        == 'M');
}

} // verus!
