//! Reverse dependencies: the crates that depend on a given crate.

use crate::display::{downloads_text, fmt_downloads, BOLD, GRAY, RESET};
use crate::render::{add_line, add_lines, decimal, number};
use crate::scan::{first_sentence, opening};
use crate::text::{contains, holds, Text};
use vstd::prelude::*;

verus! {

// ── Structs ──────────────────────────────────────────────────────────

/// What crates.io answers to the query for reverse dependencies.
#[derive(Debug)]
pub struct CrateRevDeps {
    pub dependencies: Vec<RevDep>,
    pub versions: Vec<RevVersion>,
    pub meta: RevMeta,
}

/// A reverse dependency: the version that depends, and its downloads.
#[derive(Debug)]
pub struct RevDep {
    pub version_id: u64,
    pub downloads: u64,
}

/// A version of a crate.
#[derive(Debug)]
pub struct RevVersion {
    pub id: u64,
    pub crate_name: String,
    pub description: Option<String>,
    pub repository: Option<String>,
    pub downloads: u64,
    pub num: String,
}

#[derive(Debug)]
pub struct RevMeta {
    pub total: u32,
}

// ── crates.io reverse deps API ───────────────────────────────────────

/// Where crates.io is asked for the reverse dependencies of a crate.
pub fn rev_deps_url(name: &str) -> (r: String)
    ensures
        r@ == "https://crates.io/api/v1/crates/"@ + name@ + "/reverse_dependencies?per_page=50"@,
{
    let mut url = "https://crates.io/api/v1/crates/".to_owned();
    url.append(name);
    url.append("/reverse_dependencies?per_page=50");
    url
}

// ── Text ─────────────────────────────────────────────────────────────

/// The version with the given id; of several, the last.
pub open spec fn version_with(versions: Seq<RevVersion>, id: u64) -> Option<RevVersion>
    decreases versions.len(),
{
    if versions.len() == 0 {
        None
    } else if versions.last().id == id {
        Some(versions.last())
    } else {
        version_with(versions.drop_last(), id)
    }
}

/// The line of a reverse dependency.
pub open spec fn dependent_line(dep: RevDep, ver: RevVersion) -> Text {
    let desc = first_sentence(ver.description.deep_view(), ""@);
    "  "@ + (if ver.repository matches Some(url) && holds(url@, "github.com"@) {
        "🐙"@
    } else {
        "📦"@
    }) + " "@ + BOLD@ + ver.crate_name@ + RESET@ + " v"@ + ver.num@ + " — downloads: "@
        + downloads_text(dep.downloads as nat) + (if desc.len() == 0 {
        ""@
    } else {
        " — "@ + desc
    })
}

/// The lines of the reverse dependencies whose version is known, in order.
pub open spec fn dependent_lines(deps: Seq<RevDep>, versions: Seq<RevVersion>) -> Seq<Text>
    decreases deps.len(),
{
    if deps.len() == 0 {
        Seq::empty()
    } else {
        let rest = dependent_lines(deps.drop_last(), versions);
        match version_with(versions, deps.last().version_id) {
            Some(ver) => rest.push(dependent_line(deps.last(), ver)),
            None => rest,
        }
    }
}

/// What is shown of the reverse dependencies of a crate, before and after they
/// are known.
pub open spec fn dependents(package: Text, result: Result<CrateRevDeps, String>) -> Seq<Text> {
    seq!["🔍 Searching for crates that depend on '"@ + package + "'..."@, ""@] + (match result {
        Err(_) => Seq::empty(),
        Ok(rev) => if rev.dependencies@.len() == 0 {
            seq!["📦 No crates depend on '"@ + package + "'"@]
        } else {
            let total = decimal(rev.meta.total as nat);
            let shown = decimal(rev.dependencies@.len());
            seq![
                "📦 Found "@ + total + " reverse dependencies (showing top "@ + shown + ")"@,
                ""@,
            ] + dependent_lines(rev.dependencies@, rev.versions@) + seq![
                ""@,
                "   "@ + GRAY@ + "Showing "@ + shown + " of "@ + total + " total dependents"@
                    + RESET@,
            ]
        },
    })
}

/// The version with the given id; of several, the last.
fn find_version(versions: &Vec<RevVersion>, id: u64) -> (r: Option<&RevVersion>)
    ensures
        match r {
            Some(v) => version_with(versions@, id) == Some(*v),
            None => version_with(versions@, id) is None,
        },
{
    let mut i: usize = versions.len();
    assert(versions@.take(versions.len() as int) =~= versions@);
    while i > 0
        invariant
            i <= versions.len(),
            version_with(versions@, id) == version_with(versions@.take(i as int), id),
        decreases i,
    {
        assert(versions@.take(i as int).last() == versions[i - 1]);
        assert(versions@.take(i as int).drop_last() =~= versions@.take(i - 1));
        if versions[i - 1].id == id {
            return Some(&versions[i - 1]);
        }
        i = i - 1;
    }
    None
}

/// The line of a reverse dependency.
fn dependent_text(dep: &RevDep, ver: &RevVersion) -> (r: String)
    ensures
        r@ == dependent_line(*dep, *ver),
{
    let desc = opening(&ver.description, "");
    let on_github = match &ver.repository {
        Some(url) => contains(url.as_str(), "github.com"),
        None => false,
    };
    let mut note = "".to_owned();
    if !desc.as_str().is_empty() {
        note = " — ".to_owned();
        note.append(desc.as_str());
    }
    let mut line = "  ".to_owned();
    line.append(
        if on_github {
            "🐙"
        } else {
            "📦"
        },
    );
    line.append(" ");
    line.append(BOLD);
    line.append(ver.crate_name.as_str());
    line.append(RESET);
    line.append(" v");
    line.append(ver.num.as_str());
    line.append(" — downloads: ");
    line.append(fmt_downloads(dep.downloads).as_str());
    line.append(note.as_str());
    line
}

/// The lines of the reverse dependencies whose version is known, in order.
fn dependent_texts(deps: &Vec<RevDep>, versions: &Vec<RevVersion>) -> (r: Vec<String>)
    ensures
        r.deep_view() == dependent_lines(deps@, versions@),
{
    let mut out: Vec<String> = Vec::new();
    let mut i: usize = 0;
    assert(deps@.take(0) =~= Seq::empty());
    assert(out.deep_view() =~= Seq::empty());
    while i < deps.len()
        invariant
            i <= deps.len(),
            out.deep_view() == dependent_lines(deps@.take(i as int), versions@),
        decreases deps.len() - i,
    {
        assert(deps@.take(i + 1).drop_last() =~= deps@.take(i as int));
        assert(deps@.take(i + 1).last() == deps[i as int]);
        if let Some(ver) = find_version(versions, deps[i].version_id) {
            add_line(&mut out, dependent_text(&deps[i], ver));
        }
        i = i + 1;
    }
    assert(deps@.take(deps.len() as int) =~= deps@);
    out
}

// ── Public entry point ───────────────────────────────────────────────

/// What is shown of the reverse dependencies of a crate, and what is
/// complained about where they could not be had.
pub fn who_depends_crates(package: &str, result: &Result<CrateRevDeps, String>) -> (r: (
    Vec<String>,
    Option<String>,
))
    ensures
        r.0.deep_view() == dependents(package@, *result),
        match result {
            Ok(_) => r.1 is None,
            Err(e) => r.1 matches Some(m) && m@ == "❌ Failed to fetch reverse dependencies: "@ + e@,
        },
{
    let mut out: Vec<String> = Vec::new();
    let mut title = "🔍 Searching for crates that depend on '".to_owned();
    title.append(package);
    title.append("'...");
    let ghost first = title@;
    add_line(&mut out, title);
    add_line(&mut out, "".to_owned());
    let ghost head = out.deep_view();
    assert(head =~= seq![first, ""@]);
    match result {
        Err(e) => {
            let mut text = "❌ Failed to fetch reverse dependencies: ".to_owned();
            text.append(e.as_str());
            assert(head + Seq::<Text>::empty() =~= head);
            (out, Some(text))
        },
        Ok(rev) => {
            if rev.dependencies.len() == 0 {
                let mut text = "📦 No crates depend on '".to_owned();
                text.append(package);
                text.append("'");
                let ghost line = text@;
                add_line(&mut out, text);
                assert(out.deep_view() =~= head + seq![line]);
                return (out, None);
            }
            let total = number(rev.meta.total as u64);
            let shown = number(rev.dependencies.len() as u64);
            let mut text = "📦 Found ".to_owned();
            text.append(total.as_str());
            text.append(" reverse dependencies (showing top ");
            text.append(shown.as_str());
            text.append(")");
            let ghost found_line = text@;
            add_line(&mut out, text);
            add_line(&mut out, "".to_owned());
            add_lines(&mut out, dependent_texts(&rev.dependencies, &rev.versions));
            let mut last = "   ".to_owned();
            last.append(GRAY);
            last.append("Showing ");
            last.append(shown.as_str());
            last.append(" of ");
            last.append(total.as_str());
            last.append(" total dependents");
            last.append(RESET);
            let ghost last_line = last@;
            add_line(&mut out, "".to_owned());
            add_line(&mut out, last);
            assert(out.deep_view() =~= head + (seq![found_line, ""@] + dependent_lines(
                rev.dependencies@,
                rev.versions@,
            ) + seq![""@, last_line]));
            (out, None)
        },
    }
}

} // verus!
