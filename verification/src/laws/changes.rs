//! Dependency changes between two revisions, and what is shown of them.

use crate::diff::{
    changes, removals, sign_of, NO_LOCKFILE, about, comparison, delta_line, diff, diff_lines,
    file_at, group_of, group_text, law_diff_holds_every_change, law_every_change_is_shown,
    removed_count, scanned_of, section, target, vulns_note, DeltaView, Deps, GitShow, Group,
    Present,
};
use crate::laws::reports::{lemma_places_agree, places};
use crate::laws::vulnerabilities::{
    law_note_names_the_vulnerabilities, lemma_names_through, names_vulns,
};
use crate::render::{decimal, distinct, joined};
use crate::scan::shown_ids;
use crate::table::{keys, value_of};
use crate::text::{
    back_space, begins, ends, group_holds, holds, is_space, lemma_holds_transitive, occurs_at,
    trimmed, trimmed_end, Text,
};
use crate::types::{lemma_words, Health, PackageView};
use vstd::prelude::*;

verus! {

// ── The line of a change ─────────────────────────────────────────────

/// The line of an addition or an upgrade that was scanned says the name and
/// the versions, has the sign of the health that was found and the
/// description, and counts and names the vulnerabilities.
pub proof fn law_scanned_change_is_described(delta: DeltaView, p: PackageView)
    requires
        !(delta is Removed),
    ensures
        ({
            let l = delta_line(delta, Some(p));
            &&& delta matches DeltaView::Added(name, v) ==> holds(l, name + " v"@ + v)
            &&& delta matches DeltaView::Upgraded(name, old, new) ==> holds(
                l,
                name + " v"@ + old,
            ) && holds(l, " → v"@ + new)
            &&& p.health == "healthy"@ ==> begins(l, "   "@ + "\x1b[32m"@ + "✅"@)
            &&& p.health == "warning"@ ==> begins(l, "   "@ + "\x1b[33m"@ + "⚠️"@)
            &&& p.health == "inactive"@ ==> begins(l, "   "@ + "\x1b[31m"@ + "🔴"@)
            &&& p.health == "dead"@ ==> begins(l, "   "@ + "\x1b[31m"@ + "🪦"@)
            &&& p.health == "hijack"@ ==> begins(l, "   "@ + "\x1b[90m"@ + "🚩"@)
            &&& p.health == "unknown"@ ==> begins(l, "   "@ + "\x1b[90m"@ + "❓"@)
            &&& p.description is Some ==> holds(l, p.description->0)
            &&& p.description is None ==> holds(l, "no description"@)
            &&& p.vulns.len() > 0 ==> names_vulns(l, p.vulns) && ends(l, vulns_note(p.vulns))
        }),
{
    broadcast use group_holds;

    let l = delta_line(delta, Some(p));
    law_note_names_the_vulnerabilities(p.vulns);
    if p.vulns.len() > 0 {
        assert(holds(l, vulns_note(p.vulns)));
        lemma_names_through(l, vulns_note(p.vulns), p.vulns);
    }
    lemma_words(Health::Healthy);
    lemma_words(Health::Warning);
    lemma_words(Health::Inactive);
    lemma_words(Health::Dead);
    lemma_words(Health::Hijack);
    lemma_words(Health::Unknown);
}

/// The vulnerabilities of a change are counted in the singular or the plural;
/// without any, nothing is said after the description.
pub proof fn law_vulnerabilities_of_a_change_are_counted(delta: DeltaView, p: PackageView)
    requires
        !(delta is Removed),
    ensures
        p.vulns.len() == 1 ==> holds(delta_line(delta, Some(p)), "1"@ + " CVE"@ + ": "@),
        p.vulns.len() > 1 ==> holds(
            delta_line(delta, Some(p)),
            decimal(p.vulns.len()) + " CVE"@ + "s"@ + ": "@,
        ),
        p.vulns.len() == 0 && delta is Upgraded ==> ends(delta_line(delta, Some(p)), ")"@),
        p.vulns.len() == 0 && delta is Added && p.description is Some ==> ends(
            delta_line(delta, Some(p)),
            " — "@ + p.description->0,
        ),
{
    broadcast use group_holds;

    reveal_strlit("");
    let l = delta_line(delta, Some(p));
    let n = decimal(p.vulns.len());
    let front = "  "@ + "\x1b[31m"@ + "🚨 "@;
    let back = joined(shown_ids(p.vulns), ", "@) + "\x1b[0m"@;
    if p.vulns.len() > 0 {
        let many = if p.vulns.len() == 1 {
            ""@
        } else {
            "s"@
        };
        let x = n + " CVE"@ + many + ": "@;
        assert(vulns_note(p.vulns) =~= front + x + back);
        assert(holds(front + x, x));
        assert(holds(front + x + back, x));
        assert(holds(l, vulns_note(p.vulns)));
        lemma_holds_transitive(l, vulns_note(p.vulns), x);
        assert(n + " CVE"@ + ""@ + ": "@ =~= n + " CVE"@ + ": "@);
        if p.vulns.len() == 1 {
            assert(n == "1"@);
        }
    } else {
        let description = match p.description {
            Some(d) => d,
            None => "no description"@,
        };
        match delta {
            DeltaView::Added(name, v) => {
                let a = sign_of(p) + name + " v"@ + v;
                let b = " — "@ + description;
                assert(l =~= a + b);
                assert(ends(a + b, b));
            },
            DeltaView::Upgraded(name, old, new) => {
                let a = sign_of(p) + name + " v"@ + old + " → v"@ + new + " ("@
                    + description;
                assert(l =~= a + ")"@);
                assert(ends(a + ")"@, ")"@));
            },
            DeltaView::Removed(_, _) => {},
        }
    }
}

/// The line of a change that was not scanned says the name and the versions,
/// and of a removal that it is one.
pub proof fn law_unscanned_change_is_described(delta: DeltaView, result: Option<PackageView>)
    ensures
        ({
            let l = delta_line(delta, result);
            &&& (delta matches DeltaView::Added(name, v) && result is None) ==> ends(
                l,
                delta->Added_0 + " v"@ + delta->Added_1,
            )
            &&& (delta is Upgraded && result is None) ==> ends(
                l,
                delta->Upgraded_0 + " v"@ + delta->Upgraded_1 + " → v"@ + delta->Upgraded_2,
            )
            &&& delta matches DeltaView::Removed(name, v) ==> holds(l, name + " v"@ + v) && holds(
                l,
                " removed"@,
            )
        }),
{
    broadcast use group_holds;

    let front = "   "@ + "\x1b[90m"@ + "?"@ + "\x1b[0m"@ + " "@;
    match delta {
        DeltaView::Added(name, v) => {
            let back = name + " v"@ + v;
            assert(front + name + " v"@ + v =~= front + back);
            assert(ends(front + back, back));
        },
        DeltaView::Upgraded(name, old, new) => {
            let back = name + " v"@ + old + " → v"@ + new;
            assert(front + name + " v"@ + old + " → v"@ + new =~= front + back);
            assert(ends(front + back, back));
        },
        DeltaView::Removed(name, v) => {},
    }
}

// ── The whole display ────────────────────────────────────────────────

proof fn lemma_back_space_keeps(s: Text, n: int, j: int)
    requires
        0 <= j < n <= s.len(),
        !is_space(s[j]),
    ensures
        j < back_space(s, n) <= n,
    decreases n,
{
    if is_space(s[n - 1]) {
        lemma_back_space_keeps(s, n - 1, j);
    }
}

/// Trimming the end of a text takes nothing from what ends with a character
/// that is no white space.
pub proof fn law_trimming_keeps_what_is_written(t: Text, x: Text)
    requires
        holds(t, x),
        x.len() > 0,
        !is_space(x.last()),
    ensures
        holds(trimmed_end(t), x),
{
    let i = choose|i: int| occurs_at(t, x, i);
    let j = i + x.len() - 1;
    assert(t.subrange(i, i + x.len())[x.len() - 1] == t[j]);
    lemma_back_space_keeps(t, t.len() as int, j);
    let short = trimmed_end(t);
    assert(short.subrange(i, i + x.len()) =~= t.subrange(i, i + x.len()));
    assert(occurs_at(short, x, i));
}

/// Changes of a kind stand together, in their order, each on its line.
pub proof fn law_changes_of_a_kind_stand_together(
    scanned: Seq<(DeltaView, Option<PackageView>)>,
    delta: DeltaView,
    result: Option<PackageView>,
)
    ensures
        ({
            let more = scanned.push((delta, result));
            let line = delta_line(delta, result) + "\n"@;
            &&& group_text(Seq::empty(), Group::Added).len() == 0
            &&& group_text(more, Group::Added) == if delta is Added {
                group_text(scanned, Group::Added) + line
            } else {
                group_text(scanned, Group::Added)
            }
            &&& group_text(more, Group::Upgraded) == if delta is Upgraded {
                group_text(scanned, Group::Upgraded) + line
            } else {
                group_text(scanned, Group::Upgraded)
            }
            &&& group_text(more, Group::Removed) == if delta is Removed {
                group_text(scanned, Group::Removed) + line
            } else {
                group_text(scanned, Group::Removed)
            }
        }),
{
    reveal_strlit("");
    assert(scanned.push((delta, result)).drop_last() =~= scanned);
    let line = delta_line(delta, result) + "\n"@;
    let g = group_of(delta);
    assert(group_text(scanned, g) + delta_line(delta, result) + "\n"@ =~= group_text(scanned, g)
        + line);
}

proof fn lemma_changes_remove_nothing(
    old: Seq<(Text, Text)>,
    new: Seq<(Text, Text)>,
    names: Seq<Text>,
    i: int,
)
    ensures
        0 <= i < changes(old, new, names).len() ==> !(changes(old, new, names)[i] is Removed),
        0 <= i < removals(old, new, names).len() ==> removals(old, new, names)[i] is Removed,
    decreases names.len(),
{
    if names.len() > 0 {
        lemma_changes_remove_nothing(old, new, names.drop_last(), i);
    }
}

/// Removals come after everything else.
pub proof fn law_removals_come_last(
    old: Seq<(Text, Text)>,
    new: Seq<(Text, Text)>,
    i: int,
    j: int,
)
    requires
        0 <= i < j < diff(old, new).len(),
        diff(old, new)[i] is Removed,
    ensures
        diff(old, new)[j] is Removed,
{
    let a = changes(old, new, distinct(keys(new)));
    lemma_changes_remove_nothing(old, new, distinct(keys(new)), i);
    lemma_changes_remove_nothing(old, new, distinct(keys(old)), j - a.len());
}

/// The title above a change.
pub open spec fn title_of(delta: DeltaView) -> Text {
    match delta {
        DeltaView::Added(_, _) => "🟢 Added:"@,
        DeltaView::Upgraded(_, _, _) => "🔵 Upgraded:"@,
        DeltaView::Removed(_, _) => "🔴 Removed:"@,
    }
}

/// What the line of a change says, up to white space at its end, stands below
/// the title of its kind.
pub proof fn law_changes_stand_below_their_title(
    eco: Text,
    scanned: Seq<(DeltaView, Option<PackageView>)>,
    unchanged: nat,
    i: int,
    x: Text,
)
    requires
        0 <= i < scanned.len(),
        holds(delta_line(scanned[i].0, scanned[i].1), x),
        x.len() > 0,
        !is_space(x.last()),
    ensures
        exists|k: int|
            0 <= k < diff_lines(eco, scanned, unchanged).len() && begins(
                #[trigger] diff_lines(eco, scanned, unchanged)[k],
                "\x1b[1m"@ + title_of(scanned[i].0),
            ) && holds(diff_lines(eco, scanned, unchanged)[k], x),
{
    broadcast use group_holds;

    let group = group_of(scanned[i].0);
    law_every_change_is_shown(scanned, i);
    let text = group_text(scanned, group);
    let line = delta_line(scanned[i].0, scanned[i].1);
    lemma_holds_transitive(text, line, x);
    law_trimming_keeps_what_is_written(text, x);
    assert(text.len() > 0) by {
        let a = choose|a: int| occurs_at(text, x, a);
        assert(a + x.len() <= text.len());
    }
    let all = diff_lines(eco, scanned, unchanged);
    let a = section("🟢 Added:"@, group_text(scanned, Group::Added));
    let b = section("🔵 Upgraded:"@, group_text(scanned, Group::Upgraded));
    let k: int = match group {
        Group::Added => 3,
        Group::Upgraded => 3 + a.len() as int,
        Group::Removed => 3 + a.len() as int + b.len() as int,
    };
    let shown = "\x1b[1m"@ + title_of(scanned[i].0) + "\x1b[0m"@ + "\n"@ + trimmed_end(text);
    assert(all[k] == shown);
    assert(begins(shown, "\x1b[1m"@ + title_of(scanned[i].0)));
    assert(holds(shown, x));
}

/// Every scanned addition or upgrade with vulnerabilities shows them: some
/// line of the display, below the title of the kind of change, counts and
/// names them.
pub proof fn law_vulnerabilities_of_changes_are_shown(
    eco: Text,
    scanned: Seq<(DeltaView, Option<PackageView>)>,
    unchanged: nat,
    i: int,
)
    requires
        0 <= i < scanned.len(),
        !(scanned[i].0 is Removed),
        scanned[i].1 is Some,
        scanned[i].1->0.vulns.len() > 0,
    ensures
        exists|k: int|
            0 <= k < diff_lines(eco, scanned, unchanged).len() && begins(
                #[trigger] diff_lines(eco, scanned, unchanged)[k],
                "\x1b[1m"@ + title_of(scanned[i].0),
            ) && names_vulns(diff_lines(eco, scanned, unchanged)[k], scanned[i].1->0.vulns),
{
    broadcast use group_holds;

    let vulns = scanned[i].1->0.vulns;
    let note = vulns_note(vulns);
    law_scanned_change_is_described(scanned[i].0, scanned[i].1->0);
    law_note_names_the_vulnerabilities(vulns);
    reveal_strlit("\x1b[0m");
    let line = delta_line(scanned[i].0, scanned[i].1);
    assert(holds(line, note)) by {
        let at = line.len() - note.len();
        assert(occurs_at(line, note, at));
    }
    assert(note.last() == 'm') by {
        let e = note.subrange(note.len() - "\x1b[0m"@.len(), note.len() as int);
        assert(e[3] == 'm');
    }
    law_changes_stand_below_their_title(eco, scanned, unchanged, i, note);
    let all = diff_lines(eco, scanned, unchanged);
    let k = choose|k: int|
        0 <= k < all.len() && begins(
            #[trigger] all[k],
            "\x1b[1m"@ + title_of(scanned[i].0),
        ) && holds(all[k], note);
    lemma_names_through(all[k], note, vulns);
}

/// The display is headed by the ecosystem, the number of changes and that of
/// the unchanged dependencies, and has a section for each kind of change that
/// occurs, and for no other.
pub proof fn law_display_is_headed(
    eco: Text,
    scanned: Seq<(DeltaView, Option<PackageView>)>,
    unchanged: nat,
)
    ensures
        ({
            let l = diff_lines(eco, scanned, unchanged);
            &&& holds(l[1], "📦 "@ + eco + " dependency diff"@)
            &&& holds(l[1], decimal(scanned.len()) + " changed, "@ + decimal(unchanged))
            &&& ends(l[1], decimal(unchanged) + " unchanged"@)
            &&& scanned.len() == 0 ==> l.len() == 3
        }),
{
    broadcast use group_holds;

    let l = diff_lines(eco, scanned, unchanged);
    reveal_strlit(" dependency diff — ");
    reveal_strlit(" dependency diff");
    reveal_strlit(" — ");
    reveal_strlit("");
    assert(" dependency diff — "@ =~= " dependency diff"@ + " — "@);
    let n = decimal(scanned.len());
    let m = decimal(unchanged);
    let t = l[1];
    assert(t == "📦 "@ + eco + " dependency diff — "@ + n + " changed, "@ + m + " unchanged"@);
    let first = "📦 "@ + eco + " dependency diff"@;
    assert(t =~= first + " — "@ + n + " changed, "@ + m + " unchanged"@);
    assert(holds(first + " — "@ + n + " changed, "@ + m + " unchanged"@, first));
    let front = "📦 "@ + eco + " dependency diff — "@ + n + " changed, "@;
    assert(t =~= front + (m + " unchanged"@));
    assert(ends(front + (m + " unchanged"@), m + " unchanged"@));
    if scanned.len() == 0 {
        assert(group_text(scanned, Group::Added).len() == 0);
    }
}

// ── What is scanned and compared ─────────────────────────────────────

/// Every addition and every upgrade is scanned, in its new version; a removal
/// is not.
pub proof fn law_every_change_is_scanned(delta: DeltaView)
    ensures
        delta matches DeltaView::Added(name, v) ==> scanned_of(delta) == Some((name, v)),
        delta matches DeltaView::Upgraded(name, old, new) ==> scanned_of(delta) == Some(
            (name, new),
        ),
        delta is Removed ==> scanned_of(delta) is None,
{
}

/// A comparison is refused for the first thing that fails, which it names:
/// having the old file, reading it, having the current file, reading it.
pub proof fn law_comparison_is_refused(
    old_ref: Text,
    lockfile: Text,
    old_deps: Deps,
    new_deps: Deps,
)
    ensures
        ({
            let p = comparison(old_ref, lockfile, old_deps, new_deps);
            let old_bad = old_deps is Err || old_deps->Ok_0 is Err;
            let new_bad = new_deps is Err || new_deps->Ok_0 is Err;
            &&& p is Refuse <==> old_bad || new_bad
            &&& old_deps is Err ==> ends(p->Refuse_0, old_deps->Err_0@)
            &&& old_deps is Ok && old_deps->Ok_0 is Err ==> ends(
                p->Refuse_0,
                lockfile + ": "@ + old_deps->Ok_0->Err_0@,
            ) && holds(p->Refuse_0, "parse old"@)
            &&& !old_bad && new_deps is Err ==> ends(
                p->Refuse_0,
                lockfile + ": "@ + new_deps->Err_0@,
            ) && holds(p->Refuse_0, "read"@)
            &&& !old_bad && new_deps is Ok && new_deps->Ok_0 is Err ==> ends(
                p->Refuse_0,
                lockfile + ": "@ + new_deps->Ok_0->Err_0@,
            ) && holds(p->Refuse_0, "parse"@)
        }),
{
    broadcast use group_holds;

    reveal_strlit("❌ Failed to parse old ");
    reveal_strlit("❌ Failed to parse ");
    reveal_strlit("❌ Failed to read ");
    reveal_strlit("parse old");
    reveal_strlit("parse");
    reveal_strlit("read");
    assert("❌ Failed to parse old "@.subrange(12, 21) =~= "parse old"@);
    assert(occurs_at("❌ Failed to parse old "@, "parse old"@, 12));
    assert("❌ Failed to parse "@.subrange(12, 17) =~= "parse"@);
    assert(occurs_at("❌ Failed to parse "@, "parse"@, 12));
    assert("❌ Failed to read "@.subrange(12, 16) =~= "read"@);
    assert(occurs_at("❌ Failed to read "@, "read"@, 12));
    if old_deps is Ok && old_deps->Ok_0 is Err {
        lemma_tail("❌ Failed to parse old "@, lockfile, old_deps->Ok_0->Err_0@);
    } else if new_deps is Err {
        lemma_tail("❌ Failed to read "@, lockfile, new_deps->Err_0@);
    } else if new_deps->Ok_0 is Err {
        lemma_tail("❌ Failed to parse "@, lockfile, new_deps->Ok_0->Err_0@);
    }
}

proof fn lemma_tail(what: Text, file: Text, why: Text)
    ensures
        ends(what + file + ": "@ + why, file + ": "@ + why),
{
    broadcast use group_holds;

    assert(what + file + ": "@ + why =~= what + (file + ": "@ + why));
    assert(ends(what + (file + ": "@ + why), file + ": "@ + why));
}

/// A comparison of two lists shows their differences, or says that there are
/// none since the old revision, exactly where there are none.
pub proof fn law_comparison_shows_the_diff(
    old_ref: Text,
    lockfile: Text,
    old_deps: Deps,
    new_deps: Deps,
)
    requires
        old_deps is Ok && old_deps->Ok_0 is Ok,
        new_deps is Ok && new_deps->Ok_0 is Ok,
    ensures
        ({
            let before = old_deps->Ok_0->Ok_0.deep_view();
            let after = new_deps->Ok_0->Ok_0.deep_view();
            let p = comparison(old_ref, lockfile, old_deps, new_deps);
            let same = forall|name: Text| #[trigger]
                value_of(before, name) == value_of(after, name);
            &&& p is Nothing <==> same
            &&& p is Nothing ==> ends(p->Nothing_0, old_ref)
            &&& !same ==> p is Show && p->Show_0 == diff(before, after)
            &&& !same ==> p->Show_1 == (if before.len() > after.len() {
                before.len() as int
            } else {
                after.len() as int
            }) - places(p->Show_0.len(), |i: int| p->Show_0[i] is Removed)
        }),
{
    broadcast use group_holds;

    let before = old_deps->Ok_0->Ok_0.deep_view();
    let after = new_deps->Ok_0->Ok_0.deep_view();
    let d = diff(before, after);
    lemma_removed_places(d);
    if d.len() > 0 {
        assert(d.contains(d[0]));
        law_diff_holds_every_change(before, after, d[0]);
        assert(value_of(before, about(d[0])) != value_of(after, about(d[0])));
    } else {
        assert forall|name: Text| #[trigger] value_of(before, name) == value_of(after, name) by {
            if value_of(before, name) != value_of(after, name) {
                let x = match (value_of(before, name), value_of(after, name)) {
                    (Some(o), Some(n)) => DeltaView::Upgraded(name, o, n),
                    (None, Some(n)) => DeltaView::Added(name, n),
                    (Some(o), None) => DeltaView::Removed(name, o),
                    (None, None) => d[0],
                };
                law_diff_holds_every_change(before, after, x);
                assert(d.contains(x));
            }
        }
    }
}

proof fn lemma_removed_places(d: Seq<DeltaView>)
    ensures
        removed_count(d) == places(d.len(), |i: int| d[i] is Removed),
    decreases d.len(),
{
    if d.len() > 0 {
        let init = d.drop_last();
        lemma_removed_places(init);
        lemma_places_agree(init.len(), |i: int| init[i] is Removed, |i: int| d[i] is Removed);
    }
}

/// A file that git cannot show because it or the commit is not there is
/// reported as such, with both names; any other failure with what git said.
pub proof fn law_git_failures(commit: Text, path: Text, stderr: GitShow)
    requires
        stderr is Failed,
    ensures
        ({
            let said = stderr->Failed_0@;
            let r = file_at(commit, path, stderr);
            let gone = holds(said, "does not exist"@) || holds(said, "not found"@) || holds(
                said,
                "bad object"@,
            ) || holds(said, "invalid object name"@);
            &&& r is Err
            &&& gone ==> holds(r->Err_0, "'"@ + path + "' does not exist at commit '"@) && holds(
                r->Err_0,
                commit,
            )
            &&& !gone ==> ends(r->Err_0, trimmed(said))
        }),
{
    broadcast use group_holds;

    reveal_strlit("Path '");
    reveal_strlit("Path ");
    reveal_strlit("'");
    assert("Path '"@ =~= "Path "@ + "'"@);
}

/// What git printed is the file, if it is text; what kept git from running, or
/// its output from being text, is reported.
pub proof fn law_git_output(commit: Text, path: Text, shown: GitShow)
    ensures
        shown matches GitShow::Printed(Ok(text)) ==> file_at(commit, path, shown) == Ok::<
            Text,
            Text,
        >(text@),
        shown matches GitShow::Printed(Err(e)) ==> file_at(commit, path, shown) is Err && ends(
            file_at(commit, path, shown)->Err_0,
            e@,
        ),
        shown matches GitShow::NotRun(e) ==> file_at(commit, path, shown) is Err && ends(
            file_at(commit, path, shown)->Err_0,
            e@,
        ),
{
    broadcast use group_holds;

}

/// An ecosystem that is asked for is compared in its own lockfile; without one
/// the first lockfile that there is decides, in the order Cargo, npm, Python,
/// Go.
pub proof fn law_target(ecosystem: Option<Text>, files: Present)
    ensures
        ({
            let t = target(ecosystem, files);
            &&& ecosystem == Some("cargo"@) ==> t == Ok::<(Text, Text), Text>(
                ("cargo"@, "Cargo.lock"@),
            )
            &&& ecosystem == Some("npm"@) ==> t == Ok::<(Text, Text), Text>(
                ("npm"@, "package-lock.json"@),
            )
            &&& ecosystem == Some("go"@) ==> t == Ok::<(Text, Text), Text>(("go"@, "go.mod"@))
            &&& ecosystem == Some("pypi"@) ==> (t is Ok <==> files.poetry_lock
                || files.pipfile_lock)
            &&& ecosystem is None ==> (t is Ok <==> files.cargo_lock || files.package_lock
                || files.poetry_lock || files.pipfile_lock || files.go_mod)
            &&& ecosystem is None && files.cargo_lock ==> t->Ok_0.1 == "Cargo.lock"@
            &&& ecosystem is None && !files.cargo_lock && files.package_lock ==> t->Ok_0.1
                == "package-lock.json"@
            &&& (ecosystem == Some("pypi"@) || (ecosystem is None && !files.cargo_lock
                && !files.package_lock)) && files.poetry_lock ==> t->Ok_0.1 == "poetry.lock"@
            &&& (ecosystem == Some("pypi"@) || (ecosystem is None && !files.cargo_lock
                && !files.package_lock)) && !files.poetry_lock && files.pipfile_lock ==> t->Ok_0.1
                == "Pipfile.lock"@
            &&& ecosystem is None && !files.cargo_lock && !files.package_lock && !files.poetry_lock
                && !files.pipfile_lock && files.go_mod ==> t->Ok_0.1 == "go.mod"@
            &&& t is Ok ==> {
                &&& t->Ok_0.1 == "Cargo.lock"@ ==> t->Ok_0.0 == "cargo"@
                &&& t->Ok_0.1 == "package-lock.json"@ ==> t->Ok_0.0 == "npm"@
                &&& t->Ok_0.1 == "poetry.lock"@ ==> t->Ok_0.0 == "pypi"@
                &&& t->Ok_0.1 == "Pipfile.lock"@ ==> t->Ok_0.0 == "pypi"@
                &&& t->Ok_0.1 == "go.mod"@ ==> t->Ok_0.0 == "go"@
            }
            &&& ecosystem == Some("pypi"@) && t is Err
                ==> t->Err_0 == "❌ No poetry.lock or Pipfile.lock found in current directory"@
            &&& (ecosystem matches Some(eco) && eco != "cargo"@ && eco != "npm"@ && eco != "pypi"@
                && eco != "go"@) ==> t is Err && holds(
                t->Err_0,
                "Unknown ecosystem: "@ + ecosystem->0 + " (try cargo, npm, pypi, or go)"@,
            )
            &&& t is Err ==> begins(t->Err_0, "❌ "@)
        }),
{
    reveal_strlit("cargo");
    reveal_strlit("npm");
    reveal_strlit("pypi");
    reveal_strlit("go");
    assert("cargo"@.len() == 5 && "npm"@.len() == 3 && "pypi"@.len() == 4 && "go"@.len() == 2);
    lemma_lockfiles_differ();
    lemma_refusals(ecosystem);
}

proof fn lemma_lockfiles_differ()
    ensures
        "Cargo.lock"@.len() == 10,
        "package-lock.json"@.len() == 17,
        "poetry.lock"@.len() == 11,
        "Pipfile.lock"@.len() == 12,
        "go.mod"@.len() == 6,
{
    reveal_strlit("Cargo.lock");
    reveal_strlit("package-lock.json");
    reveal_strlit("poetry.lock");
    reveal_strlit("Pipfile.lock");
    reveal_strlit("go.mod");
}

proof fn lemma_refusals(ecosystem: Option<Text>)
    ensures
        begins("❌ No poetry.lock or Pipfile.lock found in current directory"@, "❌ "@),
        ecosystem matches Some(eco) ==> ({
            let t = "❌ Unknown ecosystem: "@ + eco + " (try cargo, npm, pypi, or go)"@;
            begins(t, "❌ "@) && holds(
                t,
                "Unknown ecosystem: "@ + eco + " (try cargo, npm, pypi, or go)"@,
            )
        }),
        begins("❌ "@ + NO_LOCKFILE@, "❌ "@),
{
    broadcast use group_holds;

    reveal_strlit("❌ No poetry.lock or Pipfile.lock found in current directory");
    reveal_strlit("❌ Unknown ecosystem: ");
    reveal_strlit("Unknown ecosystem: ");
    reveal_strlit("❌ ");
    let none = "❌ No poetry.lock or Pipfile.lock found in current directory"@;
    assert(none.subrange(0, 2) =~= "❌ "@);
    if ecosystem is Some {
        assert("❌ Unknown ecosystem: "@ =~= "❌ "@ + "Unknown ecosystem: "@);
    }
}

} // verus!
