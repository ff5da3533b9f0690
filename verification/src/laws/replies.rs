//! What services answer: the vulnerability database, the registry's
//! attestations, and the crates that depend on a crate.

use crate::api::{
    answer, answer_by_ref, body_or_error, first_chars, repository_had, GitHubRepo, GitHubView,
    Reply,
};
use crate::attestation::{
    attestations_in, bare_repository, base64_bytes, built_by, commit_of, first_provenance,
    provenance_payloads, provenance_text, AttestationReply, NpmProvenancePayload, NpmWorkflow,
};
use crate::display::downloads_text;
use crate::downstream::{
    dependent_line, dependent_lines, dependents, version_with, CrateRevDeps, RevDep, RevVersion,
};
use crate::laws::bills::says;
use crate::laws::texts::{law_ends_are_stripped, law_starts_are_stripped};
use crate::osv::{query_for, supported};
use crate::render::decimal;
use crate::scan::first_sentence;
use crate::table::value_of;
use crate::text::{begins, byte_prefix, ends, group_holds, holds, strip_starts, Text};
use vstd::prelude::*;

verus! {

// ── Responses ────────────────────────────────────────────────────────

/// The body of a response that reports success is taken; every other answer
/// is an error, which says what went wrong and, of a refusal, its status and
/// the first 200 characters of what came with it.
pub proof fn law_responses(e: String, status: String, body: String)
    ensures
        body_or_error(Reply::Received(true, status, body)) == Ok::<Text, Text>(body@),
        body_or_error(Reply::NetworkError(e)) == Err::<Text, Text>("Network error: "@ + e@),
        body_or_error(Reply::ReadError(e)) == Err::<Text, Text>("Read error: "@ + e@),
        body_or_error(Reply::Received(false, status, body)) matches Err(t) && begins(
            t,
            "HTTP "@ + status@ + " — "@,
        ) && ends(t, first_chars(body@, 200)),
        begins(body@, first_chars(body@, 200)),
        first_chars(body@, 200).len() == if body@.len() < 200 {
            body@.len() as int
        } else {
            200
        },
{
    broadcast use group_holds;

    assert(body@.subrange(0, body@.len() as int) =~= body@);
    if 200 < body@.len() {
        assert(body@.subrange(0, 200) =~= body@.take(200));
    }
}

/// What GitHub answered about a repository is taken as it came, the repository
/// or the error.
pub proof fn law_answers_of_github(repo: GitHubRepo, e: String, t: &str)
    ensures
        answer(None) is None,
        answer(Some(Ok(repo))) == Some(Ok::<GitHubView, Text>(repo.deep_view())),
        answer(Some(Err(e))) == Some(Err::<GitHubView, Text>(e@)),
        answer_by_ref(None) is None,
        answer_by_ref(Some(Ok(&repo))) == answer(Some(Ok(repo))),
        answer_by_ref(Some(Err(t))) == Some(Err::<GitHubView, Text>(t@)),
        repository_had(answer(Some(Ok(repo)))) == Some(repo.deep_view()),
        repository_had(answer(Some(Err(e)))) is None,
        repository_had(answer(None)) is None,
{
}

/// The vulnerability database is asked about packages of the ecosystems that
/// it knows, by ecosystem, name and version, under which the answer is kept.
pub proof fn law_questions(ecosystem: Text, name: Text, version: Text)
    ensures
        query_for(ecosystem, name, version) is Some <==> {
            ||| ecosystem == "crates.io"@
            ||| ecosystem == "npm"@
            ||| ecosystem == "PyPI"@
            ||| ecosystem == "Go"@
            ||| ecosystem == "RubyGems"@
            ||| ecosystem == "NuGet"@
            ||| ecosystem == "Maven"@
            ||| ecosystem == "Packagist"@
            ||| ecosystem == "Hex"@
        },
        query_for(ecosystem, name, version) is Some <==> supported(ecosystem),
        query_for(ecosystem, name, version) matches Some(q) ==> q.ecosystem == ecosystem && q.name
            == name && q.version == version && q.cache_key == ecosystem + "/"@ + name + "/"@
            + version,
{
}

// ── Attestations ─────────────────────────────────────────────────────

/// The registry's answer is taken where it reports success; a refusal means
/// that there is no attestation.
pub proof fn law_attestations(e: String, status: String, body: String)
    ensures
        attestations_in(Reply::Received(true, status, body)) == Ok::<Text, AttestationReply>(body@),
        attestations_in(Reply::Received(false, status, body)) == Err::<Text, AttestationReply>(
            AttestationReply::NotFound,
        ),
        attestations_in(Reply::NetworkError(e)) == Err::<Text, AttestationReply>(
            AttestationReply::NetworkError,
        ),
        attestations_in(Reply::ReadError(e)) == Err::<Text, AttestationReply>(
            AttestationReply::Unreadable,
        ),
{
}

/// Of the attestations those of provenance are kept, in their order, if their
/// payload can be decoded.
pub proof fn law_provenance_is_kept(all: Seq<(Text, Text)>, kind: Text, payload: Text)
    ensures
        ({
            let before = provenance_payloads(all);
            let after = provenance_payloads(all.push((kind, payload)));
            &&& provenance_payloads(Seq::empty()).len() == 0
            &&& holds(kind, "slsa.dev/provenance"@) && base64_bytes(payload) is Some ==> after
                == before.push(base64_bytes(payload)->0)
            &&& !holds(kind, "slsa.dev/provenance"@) || base64_bytes(payload) is None ==> after
                == before
        }),
{
    assert(all.push((kind, payload)).drop_last() =~= all);
}

/// What is said of the provenance of a package where no attestation tells;
/// else it is what the attestations tell.
pub proof fn law_provenance_is_not_known(all: Vec<Option<NpmProvenancePayload>>)
    ensures
        provenance_text(AttestationReply::Payloads(all)) == first_provenance(all@, 0),
        provenance_text(AttestationReply::NetworkError) == "⚠️ Provenance: network error"@,
        provenance_text(AttestationReply::NotFound) == "Provenance: not available"@,
        provenance_text(AttestationReply::Unreadable) == "⚠️ Provenance: parse error"@,
        provenance_text(AttestationReply::Invalid) == "⚠️ Provenance: invalid response"@,
{
}

/// The first attestation that names a workflow tells the provenance; where
/// there is none, it is not available.
pub proof fn law_first_workflow_tells(all: Seq<Option<NpmProvenancePayload>>, i: int)
    ensures
        0 <= i < all.len() && all[i] is Some && all[i]->0.workflow is Some && (forall|k: int|
            0 <= k < i ==> (#[trigger] all[k]) is None || all[k]->0.workflow is None)
            ==> first_provenance(all, 0) == built_by(all[i]->0, all[i]->0.workflow->0),
        (forall|k: int|
            0 <= k < all.len() ==> (#[trigger] all[k]) is None || all[k]->0.workflow is None)
            ==> first_provenance(all, 0) == "Provenance: not available"@,
{
    if 0 <= i < all.len() && all[i] is Some && all[i]->0.workflow is Some && (forall|k: int|
        0 <= k < i ==> (#[trigger] all[k]) is None || all[k]->0.workflow is None) {
        lemma_workflow_at(all, 0, i);
    }
    if forall|k: int|
        0 <= k < all.len() ==> (#[trigger] all[k]) is None || all[k]->0.workflow is None {
        lemma_no_workflow(all, 0);
    }
}

proof fn lemma_workflow_at(all: Seq<Option<NpmProvenancePayload>>, k: int, i: int)
    requires
        0 <= k <= i < all.len(),
        all[i] is Some,
        all[i]->0.workflow is Some,
        forall|j: int| k <= j < i ==> (#[trigger] all[j]) is None || all[j]->0.workflow is None,
    ensures
        first_provenance(all, k) == built_by(all[i]->0, all[i]->0.workflow->0),
    decreases i - k,
{
    if k < i {
        assert(all[k] is None || all[k]->0.workflow is None);
        lemma_workflow_at(all, k + 1, i);
    }
}

proof fn lemma_no_workflow(all: Seq<Option<NpmProvenancePayload>>, k: int)
    requires
        0 <= k <= all.len(),
        forall|j: int|
            k <= j < all.len() ==> (#[trigger] all[j]) is None || all[j]->0.workflow is None,
    ensures
        first_provenance(all, k) == "Provenance: not available"@,
    decreases all.len() - k,
{
    if k < all.len() {
        assert(all[k] is None || all[k]->0.workflow is None);
        lemma_no_workflow(all, k + 1);
    }
}

/// What was built says its repository, the commit if that is known, and what
/// ran the workflow.
pub proof fn law_provenance_is_told(p: NpmProvenancePayload, w: NpmWorkflow)
    ensures
        ({
            let t = built_by(p, w);
            let repository = bare_repository(w.repository@);
            &&& begins(t, "🧾 Provenance: "@ + repository)
            &&& ends(t, " (built by "@ + strip_starts(p.builder_id@, "https://"@) + ")"@)
            &&& (commit_of(p) matches Some(c) ==> begins(
                t,
                "🧾 Provenance: "@ + repository + ("@"@ + c) + " (built by "@,
            ))
            &&& commit_of(p) is None ==> begins(
                t,
                "🧾 Provenance: "@ + repository + " (built by "@,
            )
        }),
{
    broadcast use group_holds;

    reveal_strlit("");
    let front = "🧾 Provenance: "@ + bare_repository(w.repository@);
    let by = strip_starts(p.builder_id@, "https://"@);
    let commit = match commit_of(p) {
        Some(c) => "@"@ + c,
        None => ""@,
    };
    let t = front + commit + " (built by "@ + by + ")"@;
    assert(built_by(p, w) == t);
    if commit_of(p) is None {
        assert(front + ""@ =~= front);
    }
    let tail = " (built by "@ + by + ")"@;
    assert(t =~= front + commit + tail);
    assert(ends(front + commit + tail, tail));
}

/// The commit is the one of the first thing that the package was built from:
/// its first seven bytes, or all of it where there are not so many.
pub proof fn law_commit(p: NpmProvenancePayload)
    ensures
        p.resolved_dependencies@.len() == 0 ==> commit_of(p) is None,
        p.resolved_dependencies@.len() > 0 ==> ({
            let commit = value_of(p.resolved_dependencies@[0].digest.deep_view(), "gitCommit"@);
            &&& commit is None ==> commit_of(p) is None
            &&& (commit matches Some(c) ==> (byte_prefix(c, 7) is Some ==> commit_of(p)
                == byte_prefix(c, 7)))
            &&& (commit matches Some(c) ==> (byte_prefix(c, 7) is None ==> commit_of(p) == Some(c)))
        }),
{
}

/// A repository is shown without its protocol, and without `.git` or a slash
/// at its end.
pub proof fn law_bare_repository(x: Text)
    requires
        !begins(x, "https://"@),
        !begins(x, "http://"@),
        !begins(x, "git@"@),
        !ends(x, ".git"@),
        !ends(x, "/"@),
    ensures
        bare_repository(x) == x,
        bare_repository("https://"@ + x) == x,
        bare_repository("http://"@ + x) == x,
        bare_repository("git@"@ + x) == x,
        bare_repository(x + "/"@) == x || begins(x + "/"@, "http"@) || begins(x + "/"@, "git@"@),
{
    reveal_strlit("https://");
    reveal_strlit("http://");
    reveal_strlit("git@");
    reveal_strlit(".git");
    reveal_strlit("/");
    reveal_strlit("http");
    law_starts_are_stripped(x, "https://"@);
    law_starts_are_stripped(x, "http://"@);
    law_starts_are_stripped(x, "git@"@);
    law_ends_are_stripped(x, ".git"@);
    law_ends_are_stripped(x, "/"@);
    let a = "http://"@ + x;
    if begins(a, "https://"@) {
        assert(a.subrange(0, 8)[4] == a[4]);
    }
    let b = "git@"@ + x;
    if begins(b, "https://"@) {
        assert(b.subrange(0, 8)[0] == b[0]);
    }
    if begins(b, "http://"@) {
        assert(b.subrange(0, 7)[0] == b[0]);
    }
    law_starts_are_stripped(a, "https://"@);
    law_starts_are_stripped(b, "https://"@);
    law_starts_are_stripped(b, "http://"@);
    let c = x + "/"@;
    if begins(c, "https://"@) {
        assert(c.subrange(0, 4) =~= c.subrange(0, 8).subrange(0, 4));
        assert("https://"@.subrange(0, 4) =~= "http"@);
    }
    if begins(c, "http://"@) {
        assert(c.subrange(0, 4) =~= c.subrange(0, 7).subrange(0, 4));
        assert("http://"@.subrange(0, 4) =~= "http"@);
    }
    if ends(c, ".git"@) {
        assert(c.subrange(c.len() - 4, c.len() as int)[3] == c.last());
    }
    law_starts_are_stripped(c, "https://"@);
    law_starts_are_stripped(c, "http://"@);
    law_starts_are_stripped(c, "git@"@);
    law_ends_are_stripped(c, ".git"@);
}

/// `.git` at the end of a repository is not shown.
pub proof fn law_bare_repository_without_ending(x: Text)
    requires
        !begins(x + ".git"@, "https://"@),
        !begins(x + ".git"@, "http://"@),
        !begins(x + ".git"@, "git@"@),
        !ends(x, ".git"@),
        !ends(x, "/"@),
    ensures
        bare_repository(x + ".git"@) == x,
        bare_repository("https://"@ + (x + ".git"@)) == x,
{
    reveal_strlit("https://");
    reveal_strlit("http://");
    reveal_strlit("git@");
    reveal_strlit(".git");
    reveal_strlit("/");
    let y = x + ".git"@;
    law_starts_are_stripped(y, "https://"@);
    law_starts_are_stripped(y, "http://"@);
    law_starts_are_stripped(y, "git@"@);
    law_ends_are_stripped(x, ".git"@);
    law_ends_are_stripped(x, "/"@);
}

// ── Crates that depend on a crate ────────────────────────────────────

/// The version with an id is the last one of those that have it; there is one
/// where any has it.
pub proof fn law_version_with_an_id(versions: Seq<RevVersion>, v: RevVersion, id: u64)
    ensures
        version_with(Seq::empty(), id) is None,
        v.id == id ==> version_with(versions.push(v), id) == Some(v),
        v.id != id ==> version_with(versions.push(v), id) == version_with(versions, id),
{
    assert(versions.push(v).drop_last() =~= versions);
}

/// Every dependent whose version is known has its line, in the order of the
/// answer.
pub proof fn law_dependents_in_order(deps: Seq<RevDep>, d: RevDep, versions: Seq<RevVersion>)
    ensures
        dependent_lines(Seq::empty(), versions).len() == 0,
        version_with(versions, d.version_id) is None ==> dependent_lines(deps.push(d), versions)
            == dependent_lines(deps, versions),
        version_with(versions, d.version_id) matches Some(v) ==> dependent_lines(
            deps.push(d),
            versions,
        ) == dependent_lines(deps, versions).push(dependent_line(d, v)),
{
    assert(deps.push(d).drop_last() =~= deps);
}

/// The line of a dependent says its name, its version, its downloads and the
/// first sentence of its description, and marks those with a repository on
/// GitHub.
pub proof fn law_line_of_a_dependent(d: RevDep, v: RevVersion)
    ensures
        ({
            let l = dependent_line(d, v);
            let on_github = v.repository is Some && holds(v.repository->0@, "github.com"@);
            let downloads = downloads_text(d.downloads as nat);
            &&& on_github ==> begins(l, "  "@ + "🐙"@ + " "@)
            &&& !on_github ==> begins(l, "  "@ + "📦"@ + " "@)
            &&& holds(l, "\x1b[1m"@ + v.crate_name@ + "\x1b[0m"@)
            &&& holds(l, " v"@ + v.num@)
            &&& holds(l, " — downloads: "@ + downloads)
            &&& v.description is None ==> ends(l, " — downloads: "@ + downloads)
            &&& (v.description matches Some(t) ==> first_sentence(Some(t@), ""@).len() > 0 ==> ends(
                l,
                " — "@ + first_sentence(Some(t@), ""@),
            ))
        }),
{
    broadcast use group_holds;

    reveal_strlit("");
    let l = dependent_line(d, v);
    let downloads = downloads_text(d.downloads as nat);
    if v.description is None {
        let sign = if v.repository matches Some(url) && holds(url@, "github.com"@) {
            "🐙"@
        } else {
            "📦"@
        };
        let a = "  "@ + sign + " "@ + "\x1b[1m"@ + v.crate_name@ + "\x1b[0m"@ + " v"@ + v.num@;
        let b = " — downloads: "@ + downloads;
        assert(l == a + " — downloads: "@ + downloads + ""@);
        assert(a + " — downloads: "@ + downloads + ""@ =~= a + b);
        assert(ends(a + b, b));
    }
}

/// It is said which crate was asked about; then that none depends on it, or
/// how many do and how many are shown, with the lines of these.
pub proof fn law_dependents_are_shown(package: Text, rev: CrateRevDeps, e: String, i: int)
    ensures
        ({
            let l = dependents(package, Ok(rev));
            let lines = dependent_lines(rev.dependencies@, rev.versions@);
            let total = decimal(rev.meta.total as nat);
            let shown = decimal(rev.dependencies@.len());
            &&& says(l, "'"@ + package + "'..."@)
            &&& says(dependents(package, Err(e)), "'"@ + package + "'..."@)
            &&& rev.dependencies@.len() == 0 ==> l.last() == "📦 No crates depend on '"@ + package
                + "'"@
            &&& rev.dependencies@.len() > 0 ==> {
                &&& says(l, "📦 Found "@ + total + " reverse dependencies (showing top "@)
                &&& says(l, "Showing "@ + shown + " of "@)
                &&& says(l, " of "@ + total + " total dependents"@)
                &&& 0 <= i < lines.len() ==> l.contains(lines[i])
                &&& l.len() == lines.len() + 6
            }
        }),
{
    broadcast use group_holds;

    let l = dependents(package, Ok(rev));
    reveal_strlit("🔍 Searching for crates that depend on '");
    reveal_strlit("🔍 Searching for crates that depend on ");
    reveal_strlit("'");
    assert("🔍 Searching for crates that depend on '"@
        =~= "🔍 Searching for crates that depend on "@ + "'"@);
    assert(holds(l[0], "'"@ + package + "'..."@));
    assert(holds(dependents(package, Err(e))[0], "'"@ + package + "'..."@));
    if rev.dependencies@.len() > 0 {
        let lines = dependent_lines(rev.dependencies@, rev.versions@);
        let total = decimal(rev.meta.total as nat);
        let shown = decimal(rev.dependencies@.len());
        assert(holds(l[2], "📦 Found "@ + total + " reverse dependencies (showing top "@));
        let last = l.len() - 1;
        assert(l[last] == "   "@ + "\x1b[90m"@ + "Showing "@ + shown + " of "@ + total
            + " total dependents"@ + "\x1b[0m"@);
        assert(holds(l[last], "Showing "@ + shown + " of "@));
        assert(holds(l[last], " of "@ + total + " total dependents"@));
        if 0 <= i < lines.len() {
            assert(l[4 + i] == lines[i]);
        }
    } else {
        assert(l.last() == l[2]);
    }
}

} // verus!
