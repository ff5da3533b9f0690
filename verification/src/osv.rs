//! OSV.dev: the open source vulnerability database.
//!
//! Query endpoint: `POST https://api.osv.dev/v1/query`
//!
//! Supports ecosystems: crates.io, npm, PyPI, Go, and many more.

use crate::api::Reply;
use crate::text::{same, Text};
use crate::types::{copy_text, copy_texts, VulnInfo, VulnView};
use vstd::prelude::*;

verus! {

/// Where OSV.dev is asked.
pub const OSV_URL: &'static str = "https://api.osv.dev/v1/query";

/// What OSV.dev answers to a query.
#[derive(Debug)]
pub struct OsvResponse {
    pub vulns: Option<Vec<OsvVuln>>,
}

/// A vulnerability, as OSV.dev has it.
#[derive(Debug)]
pub struct OsvVuln {
    pub id: String,
    pub summary: Option<String>,
    pub aliases: Option<Vec<String>>,
    pub database_specific: Option<OsvDatabaseSpecific>,
    pub severity: Option<Vec<OsvSeverity>>,
}

#[derive(Debug)]
pub struct OsvDatabaseSpecific {
    pub severity: Option<String>,
}

#[derive(Debug)]
pub struct OsvSeverity {
    pub kind: String,
    pub score: String,
}

/// The ecosystems that OSV.dev knows.
pub open spec fn supported(eco: Text) -> bool {
    eco == "crates.io"@ || eco == "npm"@ || eco == "PyPI"@ || eco == "Go"@ || eco == "RubyGems"@
        || eco == "NuGet"@ || eco == "Maven"@ || eco == "Packagist"@ || eco == "Hex"@
}

/// Map an internal ecosystem name to OSV's expected ecosystem string: the
/// same one, where OSV.dev knows it. The AUR is not among them.
pub fn osv_ecosystem(eco: &str) -> (r: Option<&'static str>)
    ensures
        r.deep_view() == if supported(eco@) {
            Some(eco@)
        } else {
            None
        },
{
    if same(eco, "crates.io") {
        Some("crates.io")
    } else if same(eco, "npm") {
        Some("npm")
    } else if same(eco, "PyPI") {
        Some("PyPI")
    } else if same(eco, "Go") {
        Some("Go")
    } else if same(eco, "RubyGems") {
        Some("RubyGems")
    } else if same(eco, "NuGet") {
        Some("NuGet")
    } else if same(eco, "Maven") {
        Some("Maven")
    } else if same(eco, "Packagist") {
        Some("Packagist")
    } else if same(eco, "Hex") {
        Some("Hex")
    } else {
        None
    }
}

// ── Responses ────────────────────────────────────────────────────────

/// The severity of a vulnerability: the word of the database, else the first
/// score.
pub open spec fn severity_of(v: OsvVuln) -> Option<Text> {
    let word = match v.database_specific {
        Some(d) => d.severity.deep_view(),
        None => None,
    };
    if word is Some {
        word
    } else {
        match v.severity {
            Some(all) => if all@.len() > 0 {
                Some(all@[0].score@)
            } else {
                None
            },
            None => None,
        }
    }
}

/// What is kept of a vulnerability.
pub open spec fn vuln_of(v: OsvVuln) -> VulnView {
    VulnView {
        id: v.id@,
        summary: v.summary.deep_view(),
        severity: severity_of(v),
        aliases: match v.aliases {
            Some(a) => a.deep_view(),
            None => Seq::empty(),
        },
    }
}

/// The vulnerabilities in a response; none where there is no response that
/// could be made sense of.
pub open spec fn vulns_in(resp: Option<OsvResponse>) -> Seq<VulnView> {
    match resp {
        Some(r) => match r.vulns {
            Some(all) => all@.map_values(|v: OsvVuln| vuln_of(v)),
            None => Seq::empty(),
        },
        None => Seq::empty(),
    }
}

/// The severity of a vulnerability.
fn find_severity(v: &OsvVuln) -> (r: Option<String>)
    ensures
        r.deep_view() == severity_of(*v),
{
    if let Some(d) = &v.database_specific {
        if d.severity.is_some() {
            return copy_text(&d.severity);
        }
    }
    match &v.severity {
        Some(all) => if all.len() > 0 {
            Some(all[0].score.clone())
        } else {
            None
        },
        None => None,
    }
}

/// What is kept of a vulnerability.
fn keep_vuln(v: &OsvVuln) -> (r: VulnInfo)
    ensures
        r.deep_view() == vuln_of(*v),
{
    let aliases: Vec<String> = match &v.aliases {
        Some(a) => copy_texts(a),
        None => Vec::new(),
    };
    proof {
        if v.aliases is None {
            assert(aliases.deep_view() =~= Seq::empty());
        }
    }
    VulnInfo {
        id: v.id.clone(),
        summary: copy_text(&v.summary),
        severity: find_severity(v),
        aliases,
    }
}

/// The vulnerabilities in a response of OSV.dev; `None` stands for a response
/// that could not be made sense of.
pub fn parse_osv_response(resp: &Option<OsvResponse>) -> (r: Vec<VulnInfo>)
    ensures
        r.deep_view() == vulns_in(*resp),
{
    let mut out: Vec<VulnInfo> = Vec::new();
    assert(out.deep_view() =~= Seq::empty());
    let all = match resp {
        Some(r) => match &r.vulns {
            Some(all) => all,
            None => {
                return out;
            },
        },
        None => {
            return out;
        },
    };
    let mut i: usize = 0;
    let ghost keep = |v: OsvVuln| vuln_of(v);
    while i < all.len()
        invariant
            i <= all.len(),
            keep == (|v: OsvVuln| vuln_of(v)),
            out.deep_view() == all@.take(i as int).map_values(keep),
        decreases all.len() - i,
    {
        let ghost before = out.deep_view();
        out.push(keep_vuln(&all[i]));
        assert(out.deep_view() =~= before.push(vuln_of(all[i as int])));
        assert(out.deep_view() =~= all@.take(i + 1).map_values(keep));
        i = i + 1;
    }
    assert(all@.take(all.len() as int) =~= all@);
    out
}

// ── Queries ──────────────────────────────────────────────────────────

/// A query: what is sent to OSV.dev, and the key under which its result is
/// kept.
#[derive(Debug)]
pub struct OsvQuery {
    pub cache_key: String,
    pub ecosystem: String,
    pub name: String,
    pub version: String,
}

/// What a query holds.
pub struct OsvQueryView {
    pub cache_key: Text,
    pub ecosystem: Text,
    pub name: Text,
    pub version: Text,
}

impl DeepView for OsvQuery {
    type V = OsvQueryView;

    open spec fn deep_view(&self) -> OsvQueryView {
        OsvQueryView {
            cache_key: self.cache_key@,
            ecosystem: self.ecosystem@,
            name: self.name@,
            version: self.version@,
        }
    }
}

/// The query for a package at a version; none for an ecosystem that OSV.dev
/// does not know.
pub open spec fn query_for(ecosystem: Text, name: Text, version: Text) -> Option<OsvQueryView> {
    if supported(ecosystem) {
        Some(
            OsvQueryView {
                cache_key: ecosystem + "/"@ + name + "/"@ + version,
                ecosystem,
                name,
                version,
            },
        )
    } else {
        None
    }
}

/// The query for a package at a version; none for an ecosystem that OSV.dev
/// does not know.
pub fn osv_query(ecosystem: &str, name: &str, version: &str) -> (r: Option<OsvQuery>)
    ensures
        r.deep_view() == query_for(ecosystem@, name@, version@),
{
    match osv_ecosystem(ecosystem) {
        Some(eco) => {
            let mut cache_key = eco.to_owned();
            cache_key.append("/");
            cache_key.append(name);
            cache_key.append("/");
            cache_key.append(version);
            Some(
                OsvQuery {
                    cache_key,
                    ecosystem: eco.to_owned(),
                    name: name.to_owned(),
                    version: version.to_owned(),
                },
            )
        },
        None => None,
    }
}

/// What is known of the vulnerabilities of a package.
#[derive(Debug)]
pub enum OsvReply {
    /// Those that were kept from an earlier query.
    Cached(Vec<VulnInfo>),
    /// OSV.dev could not be asked.
    Unreachable,
    /// What OSV.dev answered; nothing where no sense could be made of it.
    Answered(Option<OsvResponse>),
}

/// What OSV.dev sent back, whatever its status; nothing on an error.
pub fn osv_body(reply: Reply) -> (r: Option<String>)
    ensures
        r.deep_view() == match reply {
            Reply::Received(_, _, body) => Some(body@),
            _ => None,
        },
{
    match reply {
        Reply::Received(_, _, body) => Some(body),
        _ => None,
    }
}

/// The vulnerabilities of a package; none on an error.
pub open spec fn known_vulns(ecosystem: Text, reply: OsvReply) -> Seq<VulnView> {
    if !supported(ecosystem) {
        Seq::empty()
    } else {
        match reply {
            OsvReply::Cached(vulns) => vulns.deep_view(),
            OsvReply::Unreachable => Seq::empty(),
            OsvReply::Answered(resp) => vulns_in(resp),
        }
    }
}

/// The vulnerabilities of a package, and whether they are kept for the next
/// query: whatever OSV.dev answered is, an empty list too, so that it is not
/// asked again. Never fails: the list is empty on an error.
pub fn query_package(ecosystem: &str, reply: OsvReply) -> (r: (Vec<VulnInfo>, bool))
    ensures
        r.0.deep_view() == known_vulns(ecosystem@, reply),
        r.1 <==> supported(ecosystem@) && reply is Answered,
{
    let none: Vec<VulnInfo> = Vec::new();
    assert(none.deep_view() =~= Seq::empty());
    if osv_ecosystem(ecosystem).is_none() {
        return (none, false);
    }
    match reply {
        OsvReply::Cached(vulns) => (vulns, false),
        OsvReply::Unreachable => (none, false),
        OsvReply::Answered(resp) => (parse_osv_response(&resp), true),
    }
}

// ── Laws ─────────────────────────────────────────────────────────────

/// Every vulnerability of a response is kept, in its place and under its id.
pub proof fn law_no_vulnerability_is_lost(resp: OsvResponse)
    requires
        resp.vulns is Some,
    ensures
        vulns_in(Some(resp)).len() == resp.vulns->0@.len(),
        forall|i: int|
            0 <= i < resp.vulns->0@.len() ==> (#[trigger] vulns_in(Some(resp))[i]).id
                == resp.vulns->0@[i].id@,
{
}

} // verus!
