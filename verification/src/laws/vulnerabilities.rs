//! What is said of vulnerabilities.

use crate::diff::vulns_note;
use crate::osv::{known_vulns, supported, vuln_of, OsvReply, OsvResponse, OsvVuln};
use crate::render::{decimal, joined};
use crate::scan::{alarm, last_severity, law_last_severity, shown_ids};
use crate::text::{begins, ends, group_holds, holds, not_after, not_after_from, Text};
use crate::types::VulnView;
use vstd::prelude::*;

verus! {

/// The text says how many vulnerabilities there are, and names the first three
/// of them, each by its first alias, else by its id.
pub open spec fn names_vulns(t: Text, vulns: Seq<VulnView>) -> bool {
    &&& holds(t, "🚨 "@ + decimal(vulns.len()) + " CVE"@)
    &&& forall|i: int|
        #![trigger vulns[i]]
        0 <= i < vulns.len() && i < 3 && vulns[i].aliases.len() > 0 ==> holds(
            t,
            vulns[i].aliases[0],
        )
    &&& forall|i: int|
        #![trigger vulns[i]]
        0 <= i < vulns.len() && i < 3 && vulns[i].aliases.len() == 0 ==> holds(t, vulns[i].id)
}

/// Every part of a joined list stands in it.
pub proof fn law_joined_holds_every_part(parts: Seq<Text>, sep: Text, i: int)
    requires
        0 <= i < parts.len(),
    ensures
        holds(joined(parts, sep), parts[i]),
    decreases parts.len(),
{
    broadcast use group_holds;

    if parts.len() > 1 {
        if i < parts.len() - 1 {
            assert(parts.drop_last()[i] == parts[i]);
            law_joined_holds_every_part(parts.drop_last(), sep, i);
            assert(holds(joined(parts.drop_last(), sep) + sep + parts.last(), parts[i]));
        } else {
            assert(parts.last() == parts[i]);
            assert(holds(joined(parts.drop_last(), sep) + sep + parts.last(), parts.last()));
        }
    }
}

/// A line names what it holds a text that names it.
pub proof fn lemma_names_through(t: Text, inner: Text, vulns: Seq<VulnView>)
    requires
        holds(t, inner),
        names_vulns(inner, vulns),
    ensures
        names_vulns(t, vulns),
{
    crate::text::lemma_holds_transitive(t, inner, "🚨 "@ + decimal(vulns.len()) + " CVE"@);
    assert forall|i: int|
        #![trigger vulns[i]]
        0 <= i < vulns.len() && i < 3 && vulns[i].aliases.len() > 0 implies holds(
        t,
        vulns[i].aliases[0],
    ) by {
        crate::text::lemma_holds_transitive(t, inner, vulns[i].aliases[0]);
    }
    assert forall|i: int|
        #![trigger vulns[i]]
        0 <= i < vulns.len() && i < 3 && vulns[i].aliases.len() == 0 implies holds(
        t,
        vulns[i].id,
    ) by {
        crate::text::lemma_holds_transitive(t, inner, vulns[i].id);
    }
}

proof fn lemma_ids_named(vulns: Seq<VulnView>, i: int)
    requires
        0 <= i < vulns.len(),
        i < 3,
    ensures
        vulns[i].aliases.len() > 0 ==> holds(
            joined(shown_ids(vulns), ", "@),
            vulns[i].aliases[0],
        ),
        vulns[i].aliases.len() == 0 ==> holds(joined(shown_ids(vulns), ", "@), vulns[i].id),
{
    law_joined_holds_every_part(shown_ids(vulns), ", "@, i);
}

/// The alarm of a package with vulnerabilities counts and names them; without
/// any it says nothing.
pub proof fn law_alarm_names_the_vulnerabilities(vulns: Seq<VulnView>)
    ensures
        vulns.len() > 0 ==> names_vulns(alarm(vulns), vulns),
        vulns.len() == 0 ==> alarm(vulns).len() == 0,
        vulns.len() == 1 ==> holds(alarm(vulns), " CVE: "@),
        vulns.len() > 1 ==> holds(alarm(vulns), " CVEs: "@),
        vulns.len() > 3 ==> ends(alarm(vulns), ", ..."@ + "\x1b[0m"@),
{
    broadcast use group_holds;

    reveal_strlit("");
    reveal_strlit("s");
    reveal_strlit(" CVE");
    reveal_strlit(": ");
    reveal_strlit(" CVE: ");
    reveal_strlit(" CVEs: ");
    let n = decimal(vulns.len());
    let ids = joined(shown_ids(vulns), ", "@);
    if vulns.len() > 0 {
        let t = alarm(vulns);
        let color = crate::scan::alarm_color(last_severity(vulns));
        let plural = if vulns.len() == 1 {
            ""@
        } else {
            "s"@
        };
        let more = if vulns.len() > 3 {
            ", ..."@
        } else {
            ""@
        };
        let head = "\n   "@ + color;
        let middle = "🚨 "@ + n + " CVE"@;
        let tail = plural + ": "@ + ids + more + "\x1b[0m"@;
        assert(t =~= head + middle + tail);
        assert(holds(head + middle + tail, middle));
        let label = " CVE"@ + plural + ": "@;
        assert(vulns.len() == 1 ==> label =~= " CVE: "@);
        assert(vulns.len() > 1 ==> label =~= " CVEs: "@);
        let front = head + "🚨 "@ + n;
        let back = ids + more + "\x1b[0m"@;
        assert(t =~= front + label + back);
        assert(holds(front + label + back, label));
        let start = head + middle + plural + ": "@;
        let rest = more + "\x1b[0m"@;
        assert(t =~= start + ids + rest);
        assert(holds(start + ids + rest, ids));
        assert(ends(start + ids + rest, rest));
        assert forall|i: int|
            #![trigger vulns[i]]
            0 <= i < vulns.len() && i < 3 && vulns[i].aliases.len() > 0 implies holds(
            t,
            vulns[i].aliases[0],
        ) by {
            lemma_ids_named(vulns, i);
            crate::text::lemma_holds_transitive(t, ids, vulns[i].aliases[0]);
        }
        assert forall|i: int|
            #![trigger vulns[i]]
            0 <= i < vulns.len() && i < 3 && vulns[i].aliases.len() == 0 implies holds(
            t,
            vulns[i].id,
        ) by {
            lemma_ids_named(vulns, i);
            crate::text::lemma_holds_transitive(t, ids, vulns[i].id);
        }
    }
}

/// The note of a changed dependency with vulnerabilities counts and names
/// them, in red; without any it says nothing.
pub proof fn law_note_names_the_vulnerabilities(vulns: Seq<VulnView>)
    ensures
        vulns.len() > 0 ==> names_vulns(vulns_note(vulns), vulns),
        vulns.len() > 0 ==> begins(vulns_note(vulns), "  "@ + "\x1b[31m"@),
        vulns.len() > 0 ==> ends(vulns_note(vulns), "\x1b[0m"@),
        vulns.len() == 0 ==> vulns_note(vulns).len() == 0,
{
    broadcast use group_holds;

    reveal_strlit("");
    let n = decimal(vulns.len());
    let ids = joined(shown_ids(vulns), ", "@);
    if vulns.len() > 0 {
        let t = vulns_note(vulns);
        let plural = if vulns.len() == 1 {
            ""@
        } else {
            "s"@
        };
        let head = "  "@ + "\x1b[31m"@;
        let middle = "🚨 "@ + n + " CVE"@;
        let tail = plural + ": "@ + ids + "\x1b[0m"@;
        assert(t =~= head + middle + tail);
        assert(holds(head + middle + tail, middle));
        assert(begins(head + middle + tail, head));
        let start = head + middle + plural + ": "@;
        assert(t =~= start + ids + "\x1b[0m"@);
        assert(holds(start + ids + "\x1b[0m"@, ids));
        assert(ends(start + ids + "\x1b[0m"@, "\x1b[0m"@));
        assert forall|i: int|
            #![trigger vulns[i]]
            0 <= i < vulns.len() && i < 3 && vulns[i].aliases.len() > 0 implies holds(
            t,
            vulns[i].aliases[0],
        ) by {
            lemma_ids_named(vulns, i);
            crate::text::lemma_holds_transitive(t, ids, vulns[i].aliases[0]);
        }
        assert forall|i: int|
            #![trigger vulns[i]]
            0 <= i < vulns.len() && i < 3 && vulns[i].aliases.len() == 0 implies holds(
            t,
            vulns[i].id,
        ) by {
            lemma_ids_named(vulns, i);
            crate::text::lemma_holds_transitive(t, ids, vulns[i].id);
        }
    }
}

/// Of two texts that do not come after each other both are the same.
pub proof fn law_order_is_antisymmetric(a: Text, b: Text)
    requires
        not_after(a, b),
        not_after(b, a),
    ensures
        a == b,
{
    lemma_antisymmetric_from(a, b, 0);
    assert(a =~= b);
}

proof fn lemma_antisymmetric_from(a: Text, b: Text, i: int)
    requires
        0 <= i <= a.len(),
        i <= b.len(),
        not_after_from(a, b, i),
        not_after_from(b, a, i),
    ensures
        a.len() == b.len(),
        forall|k: int| i <= k < a.len() ==> a[k] == b[k],
    decreases a.len() - i,
{
    if i < a.len() && i < b.len() {
        lemma_antisymmetric_from(a, b, i + 1);
    }
}

/// A severity that one of the vulnerabilities has, and after which none of the
/// others comes, gives the color of the alarm: red for the worst two words,
/// yellow for the two below, gray for any other. Without a severity it is
/// gray.
pub proof fn law_alarm_color(vulns: Seq<VulnView>, k: int)
    requires
        0 <= k < vulns.len(),
        forall|i: int|
            0 <= i < vulns.len() && (#[trigger] vulns[i]).severity is Some ==> vulns[k].severity
                is Some && not_after(vulns[i].severity->0, vulns[k].severity->0),
    ensures
        ({
            let m = vulns[k].severity;
            let red = m == Some("CRITICAL"@) || m == Some("HIGH"@);
            let yellow = m == Some("MODERATE"@) || m == Some("MEDIUM"@);
            &&& red ==> begins(alarm(vulns), "\n   "@ + "\x1b[31m"@)
            &&& yellow ==> begins(alarm(vulns), "\n   "@ + "\x1b[33m"@)
            &&& !red && !yellow ==> begins(alarm(vulns), "\n   "@ + "\x1b[90m"@)
        }),
{
    broadcast use group_holds;

    law_last_severity(vulns);
    reveal_strlit("CRITICAL");
    reveal_strlit("HIGH");
    reveal_strlit("MODERATE");
    reveal_strlit("MEDIUM");
    assert("CRITICAL"@.len() == 8 && "HIGH"@.len() == 4 && "MODERATE"@[1] == 'O'
        && "CRITICAL"@[1] == 'R' && "MEDIUM"@.len() == 6);
    if vulns[k].severity is Some {
        let m = last_severity(vulns)->0;
        let i = choose|i: int| 0 <= i < vulns.len() && (#[trigger] vulns[i]).severity == Some(m);
        assert(not_after(vulns[k].severity->0, m));
        assert(not_after(m, vulns[k].severity->0));
        law_order_is_antisymmetric(m, vulns[k].severity->0);
    } else {
        assert(last_severity(vulns) is None) by {
            if last_severity(vulns) is Some {
                let m = last_severity(vulns)->0;
                let i = choose|i: int|
                    0 <= i < vulns.len() && (#[trigger] vulns[i]).severity == Some(m);
                assert(vulns[i].severity is Some);
            }
        }
    }
}

// ── OSV ──────────────────────────────────────────────────────────────

/// Where the database gives a word for the severity, that is kept, whatever
/// scores there are; only where it gives none is it the first score, and none
/// where there is no score either.
pub proof fn law_word_before_score(v: OsvVuln)
    ensures
        v.database_specific is Some && v.database_specific->0.severity is Some ==> vuln_of(
            v,
        ).severity == Some(v.database_specific->0.severity->0@),
        (v.database_specific is None || v.database_specific->0.severity is None) && v.severity is Some
            && v.severity->0@.len() > 0 ==> vuln_of(v).severity == Some(v.severity->0@[0].score@),
        (v.database_specific is None || v.database_specific->0.severity is None) && (
        v.severity is None || v.severity->0@.len() == 0) ==> vuln_of(v).severity is None,
{
}

/// What is kept of a vulnerability is its id, its summary and its aliases as
/// they are.
pub proof fn law_vulnerability_is_kept(v: OsvVuln)
    ensures
        vuln_of(v).id == v.id@,
        v.summary is None ==> vuln_of(v).summary is None,
        v.summary is Some ==> vuln_of(v).summary == Some(v.summary->0@),
        v.aliases is None ==> vuln_of(v).aliases.len() == 0,
        v.aliases is Some ==> vuln_of(v).aliases.len() == v.aliases->0@.len() && forall|i: int|
            0 <= i < v.aliases->0@.len() ==> #[trigger] vuln_of(v).aliases[i]
                == v.aliases->0@[i]@,
{
}

/// Of a package in an ecosystem that OSV.dev knows every vulnerability of its
/// answer is known, in order, as it is kept; of any other package none is, and
/// none where there is no answer.
pub proof fn law_answered_vulnerabilities_are_known(ecosystem: Text, resp: OsvResponse)
    ensures
        supported(ecosystem) && resp.vulns is Some ==> ({
            let known = known_vulns(ecosystem, OsvReply::Answered(Some(resp)));
            known.len() == resp.vulns->0@.len() && forall|i: int|
                0 <= i < known.len() ==> #[trigger] known[i] == vuln_of(resp.vulns->0@[i])
        }),
        !supported(ecosystem) ==> known_vulns(ecosystem, OsvReply::Answered(Some(resp))).len() == 0,
        known_vulns(ecosystem, OsvReply::Unreachable).len() == 0,
        known_vulns(ecosystem, OsvReply::Answered(None)).len() == 0,
{
}

/// What was kept from an earlier query is what is known.
pub proof fn law_cached_vulnerabilities_are_known(ecosystem: Text, reply: OsvReply)
    requires
        supported(ecosystem),
        reply is Cached,
    ensures
        known_vulns(ecosystem, reply) == reply->Cached_0.deep_view(),
{
}

/// The four registries that are scanned are known to OSV.dev, the AUR is not.
pub proof fn law_scanned_registries_are_supported()
    ensures
        supported("crates.io"@),
        supported("npm"@),
        supported("PyPI"@),
        supported("Go"@),
        !supported("aur"@),
{
    reveal_strlit("aur");
    reveal_strlit("crates.io");
    reveal_strlit("npm");
    reveal_strlit("PyPI");
    reveal_strlit("Go");
    reveal_strlit("RubyGems");
    reveal_strlit("NuGet");
    reveal_strlit("Maven");
    reveal_strlit("Packagist");
    reveal_strlit("Hex");
    assert("aur"@.len() == 3 && "aur"@[0] == 'a');
    assert("npm"@[0] == 'n' && "Hex"@[0] == 'H');
}

} // verus!
