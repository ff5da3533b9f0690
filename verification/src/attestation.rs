//! The provenance of npm packages: what is read out of the attestations that
//! the registry holds for a package.

use crate::api::Reply;
use crate::table::{lookup, value_of};
use crate::text::{
    byte_prefix, contains, get_prefix, holds, replace, replaced, strip_ends, strip_starts,
    trim_end_matches, trim_start_matches, Text,
};
use vstd::prelude::*;

verus! {

// ── Structs ──────────────────────────────────────────────────────────

/// An attestation: its kind, and its payload in Base64.
#[derive(Debug)]
pub struct NpmAttestation {
    pub predicate_type: String,
    pub payload: String,
}

/// The payload of an attestation of provenance: the workflow that built the
/// package, what it was built from, and what ran the workflow.
#[derive(Debug)]
pub struct NpmProvenancePayload {
    pub workflow: Option<NpmWorkflow>,
    pub resolved_dependencies: Vec<NpmResolvedDep>,
    pub builder_id: String,
}

#[derive(Debug)]
pub struct NpmWorkflow {
    pub repository: String,
    pub path: String,
}

/// Something a package was built from, with its digests by algorithm. No
/// algorithm occurs twice.
#[derive(Debug)]
pub struct NpmResolvedDep {
    pub uri: String,
    pub digest: Vec<(String, String)>,
}

/// What came of asking the registry for the attestations of a package.
#[derive(Debug)]
pub enum AttestationReply {
    /// The registry could not be reached.
    NetworkError,
    /// The registry refused: there are none.
    NotFound,
    /// The answer could not be read.
    Unreadable,
    /// The answer is not what it should be.
    Invalid,
    /// The payloads of the attestations of provenance, in order; none for one
    /// that is not what it should be.
    Payloads(Vec<Option<NpmProvenancePayload>>),
}

// ── Trusted: base64 ──────────────────────────────────────────────────

/// The bytes that `base64::Engine::decode` reads in a text with the engine
/// `base64::engine::general_purpose::STANDARD`; none where it gives an error.
pub uninterp spec fn base64_bytes(s: Seq<char>) -> Option<Seq<u8>>;

/// `base64::Engine::decode` with the engine
/// `base64::engine::general_purpose::STANDARD`, its error dropped: a function
/// of the text alone, which gives the bytes or nothing.
#[verifier::external_body]
fn decode_base64(s: &str) -> (r: Option<Vec<u8>>)
    ensures
        match r {
            Some(bytes) => base64_bytes(s@) == Some(bytes@),
            None => base64_bytes(s@) is None,
        },
{
    base64::Engine::decode(&base64::engine::general_purpose::STANDARD, s).ok()
}

// ── The registry ─────────────────────────────────────────────────────

/// The key under which what is known of the provenance is kept.
pub fn attestation_key(name: &str, version: &str) -> (r: String)
    ensures
        r@ == "npm-attest/"@ + name@ + "/"@ + version@,
{
    let mut key = "npm-attest/".to_owned();
    key.append(name);
    key.append("/");
    key.append(version);
    key
}

/// Where the registry is asked for the attestations of a package.
pub fn attestation_url(name: &str, version: &str) -> (r: String)
    ensures
        r@ == "https://registry.npmjs.org/-/npm/v1/attestations/"@ + replaced(name@, '/', "%2F"@)
            + "@"@ + version@,
{
    let mut url = "https://registry.npmjs.org/-/npm/v1/attestations/".to_owned();
    url.append(replace(name, '/', "%2F").as_str());
    url.append("@");
    url.append(version);
    url
}

/// The body of the registry's answer, or what came of asking for it: a
/// refusal means that there are no attestations, which is common.
pub open spec fn attestations_in(reply: Reply) -> Result<Text, AttestationReply> {
    match reply {
        Reply::NetworkError(_) => Err(AttestationReply::NetworkError),
        Reply::ReadError(_) => Err(AttestationReply::Unreadable),
        Reply::Received(success, _, body) => if success {
            Ok(body@)
        } else {
            Err(AttestationReply::NotFound)
        },
    }
}

/// The body of the registry's answer, or what came of asking for it.
pub fn attestations_body(reply: Reply) -> (r: Result<String, AttestationReply>)
    ensures
        match attestations_in(reply) {
            Ok(body) => r matches Ok(b) && b@ == body,
            Err(a) => r == Err::<String, AttestationReply>(a),
        },
{
    match reply {
        Reply::NetworkError(_) => Err(AttestationReply::NetworkError),
        Reply::ReadError(_) => Err(AttestationReply::Unreadable),
        Reply::Received(success, _, body) => if success {
            Ok(body)
        } else {
            Err(AttestationReply::NotFound)
        },
    }
}

// ── Payloads ─────────────────────────────────────────────────────────

impl DeepView for NpmAttestation {
    type V = (Text, Text);

    open spec fn deep_view(&self) -> (Text, Text) {
        (self.predicate_type@, self.payload@)
    }
}

/// What is kept of an attestation of the given kind whose payload was
/// decoded: the payload of one of provenance.
pub open spec fn kept(kind: Text, decoded: Option<Seq<u8>>) -> Option<Seq<u8>> {
    if holds(kind, "slsa.dev/provenance"@) {
        decoded
    } else {
        None
    }
}

/// The payloads, decoded, of the attestations of provenance among those
/// given (each its kind and its payload), in order; what cannot be decoded is
/// left out.
pub open spec fn provenance_payloads(all: Seq<(Text, Text)>) -> Seq<Seq<u8>>
    decreases all.len(),
{
    if all.len() == 0 {
        Seq::empty()
    } else {
        let rest = provenance_payloads(all.drop_last());
        match kept(all.last().0, base64_bytes(all.last().1)) {
            Some(bytes) => rest.push(bytes),
            None => rest,
        }
    }
}

/// What is kept of an attestation of the given kind whose payload was
/// decoded: the payload of one of provenance.
pub fn keep_payload(kind: &str, decoded: Option<Vec<u8>>) -> (r: Option<Vec<u8>>)
    ensures
        r.deep_view() == kept(kind@, decoded.deep_view()),
{
    if contains(kind, "slsa.dev/provenance") {
        decoded
    } else {
        None
    }
}

/// The decoded payloads of the attestations of provenance, in order.
pub fn slsa_payloads(all: &Vec<NpmAttestation>) -> (r: Vec<Vec<u8>>)
    ensures
        r.deep_view() == provenance_payloads(all.deep_view()),
{
    let mut out: Vec<Vec<u8>> = Vec::new();
    let mut i: usize = 0;
    let ghost seen = all.deep_view();
    assert(seen.take(0) =~= Seq::empty());
    assert(out.deep_view() =~= Seq::empty());
    while i < all.len()
        invariant
            i <= all.len(),
            seen == all.deep_view(),
            out.deep_view() == provenance_payloads(seen.take(i as int)),
        decreases all.len() - i,
    {
        proof {
            assert(seen.take(i + 1).drop_last() =~= seen.take(i as int));
            assert(seen.take(i + 1).last() == all[i as int].deep_view());
        }
        let decoded = decode_base64(all[i].payload.as_str());
        proof {
            if decoded is Some {
                assert(decoded->0.deep_view() =~= decoded->0@);
            }
        }
        if let Some(bytes) = keep_payload(all[i].predicate_type.as_str(), decoded) {
            let ghost before = out.deep_view();
            out.push(bytes);
            assert(out.deep_view() =~= before.push(bytes.deep_view()));
        }
        i = i + 1;
    }
    assert(seen.take(all.len() as int) =~= seen);
    out
}

// ── What is said ─────────────────────────────────────────────────────

/// The commit that a package was built from, in short.
pub open spec fn commit_of(p: NpmProvenancePayload) -> Option<Text> {
    if p.resolved_dependencies@.len() == 0 {
        None
    } else {
        match value_of(p.resolved_dependencies@[0].digest.deep_view(), "gitCommit"@) {
            Some(commit) => match byte_prefix(commit, 7) {
                Some(short) => Some(short),
                None => Some(commit),
            },
            None => None,
        }
    }
}

/// The address of a repository without protocol, `.git` and trailing slashes.
pub open spec fn bare_repository(url: Text) -> Text {
    strip_ends(
        strip_ends(
            strip_starts(strip_starts(strip_starts(url, "https://"@), "http://"@), "git@"@),
            ".git"@,
        ),
        "/"@,
    )
}

/// What is said of a package that the given workflow built.
pub open spec fn built_by(p: NpmProvenancePayload, workflow: NpmWorkflow) -> Text {
    "🧾 Provenance: "@ + bare_repository(workflow.repository@) + (match commit_of(p) {
        Some(commit) => "@"@ + commit,
        None => ""@,
    }) + " (built by "@ + strip_starts(p.builder_id@, "https://"@) + ")"@
}

/// What the first payload that names a workflow says, from position `i` on.
pub open spec fn first_provenance(all: Seq<Option<NpmProvenancePayload>>, i: int) -> Text
    decreases all.len() - i,
{
    if 0 <= i < all.len() {
        match all[i] {
            Some(p) => match p.workflow {
                Some(w) => built_by(p, w),
                None => first_provenance(all, i + 1),
            },
            None => first_provenance(all, i + 1),
        }
    } else {
        "Provenance: not available"@
    }
}

/// What is said of the provenance of a package.
pub open spec fn provenance_text(reply: AttestationReply) -> Text {
    match reply {
        AttestationReply::NetworkError => "⚠️ Provenance: network error"@,
        AttestationReply::NotFound => "Provenance: not available"@,
        AttestationReply::Unreadable => "⚠️ Provenance: parse error"@,
        AttestationReply::Invalid => "⚠️ Provenance: invalid response"@,
        AttestationReply::Payloads(all) => first_provenance(all@, 0),
    }
}

/// The commit that a package was built from, in short.
fn short_commit(p: &NpmProvenancePayload) -> (r: Option<String>)
    ensures
        r.deep_view() == commit_of(*p),
{
    if p.resolved_dependencies.len() == 0 {
        return None;
    }
    match lookup(p.resolved_dependencies[0].digest.as_slice(), "gitCommit") {
        Some(commit) => match get_prefix(commit.as_str(), 7) {
            Some(short) => Some(short.to_owned()),
            None => Some(commit.clone()),
        },
        None => None,
    }
}

/// What is said of a package that the given workflow built.
fn built_by_text(p: &NpmProvenancePayload, workflow: &NpmWorkflow) -> (r: String)
    ensures
        r@ == built_by(*p, *workflow),
{
    let repo = trim_start_matches(workflow.repository.as_str(), "https://");
    let repo = trim_start_matches(repo, "http://");
    let repo = trim_start_matches(repo, "git@");
    let repo = trim_end_matches(repo, ".git");
    let repo = trim_end_matches(repo, "/");
    let mut commit = "".to_owned();
    if let Some(c) = short_commit(p) {
        commit = "@".to_owned();
        commit.append(c.as_str());
    }
    let mut text = "🧾 Provenance: ".to_owned();
    text.append(repo);
    text.append(commit.as_str());
    text.append(" (built by ");
    text.append(trim_start_matches(p.builder_id.as_str(), "https://"));
    text.append(")");
    text
}

/// What the first payload that names a workflow says.
fn first_built_by(all: &Vec<Option<NpmProvenancePayload>>) -> (r: String)
    ensures
        r@ == first_provenance(all@, 0),
{
    let mut i: usize = 0;
    while i < all.len()
        invariant
            i <= all.len(),
            first_provenance(all@, 0) == first_provenance(all@, i as int),
        decreases all.len() - i,
    {
        if let Some(p) = &all[i] {
            if let Some(w) = &p.workflow {
                return built_by_text(p, w);
            }
        }
        i = i + 1;
    }
    "Provenance: not available".to_owned()
}

/// What is said of the provenance of a package, and whether that is kept for
/// the next time: not where the answer could not be made sense of.
pub fn provenance_message(reply: &AttestationReply) -> (r: (String, bool))
    ensures
        r.0@ == provenance_text(*reply),
        r.1 <==> !(reply is Unreadable) && !(reply is Invalid),
{
    match reply {
        AttestationReply::NetworkError => ("⚠️ Provenance: network error".to_owned(), true),
        AttestationReply::NotFound => ("Provenance: not available".to_owned(), true),
        AttestationReply::Unreadable => ("⚠️ Provenance: parse error".to_owned(), false),
        AttestationReply::Invalid => ("⚠️ Provenance: invalid response".to_owned(), false),
        AttestationReply::Payloads(all) => (first_built_by(all), true),
    }
}

// ── Laws ─────────────────────────────────────────────────────────────

/// A package counts as verified, and is shown so, exactly where some payload
/// names the workflow that built it.
pub proof fn law_verified_iff_workflow(all: Seq<Option<NpmProvenancePayload>>)
    ensures
        crate::text::begins(first_provenance(all, 0), "🧾"@) <==> exists|i: int|
            0 <= i < all.len() && (#[trigger] all[i]) is Some && all[i]->0.workflow is Some,
{
    lemma_verified_from(all, 0);
}

proof fn lemma_verified_from(all: Seq<Option<NpmProvenancePayload>>, i: int)
    requires
        0 <= i <= all.len(),
    ensures
        crate::text::begins(first_provenance(all, i), "🧾"@) <==> exists|k: int|
            i <= k < all.len() && (#[trigger] all[k]) is Some && all[k]->0.workflow is Some,
    decreases all.len() - i,
{
    reveal_strlit("🧾");
    reveal_strlit("🧾 Provenance: ");
    reveal_strlit("Provenance: not available");
    if i < all.len() {
        if all[i] is Some && all[i]->0.workflow is Some {
            let text = built_by(all[i]->0, all[i]->0.workflow->0);
            assert(text.subrange(0, 1) =~= "🧾"@);
        } else {
            lemma_verified_from(all, i + 1);
        }
    } else {
        let text = "Provenance: not available"@;
        if text.subrange(0, 1) == "🧾"@ {
            assert(text.subrange(0, 1)[0] == 'P');
        }
    }
}

} // verus!
