//! The record and the line of one dependency, over what was fetched for it.

use crate::api::{answer, github_repo, repository_had, GitHubRepo};
use crate::cargo::{
    crate_health, crate_line, crate_reason, crate_record, crate_repository, registry_packages,
    CrateData, CrateScan, LockPackageView,
};
use crate::clock::age;
use crate::display::downloads_text;
use crate::golang::{go_line, go_reason, go_record, hijack, module_health, GoProxyResponse, GoScan};
use crate::laws::registries::{go_at_risk, go_pushed, pushed};
use crate::laws::scoring::{
    fits, gives_reason, law_health_bands, law_reason_names_the_silence, law_silence_is_named,
    names_silence,
};
use crate::laws::vulnerabilities::{
    law_alarm_names_the_vulnerabilities, lemma_names_through, names_vulns,
};
use crate::npm::{
    npm_health, npm_line, npm_reason, npm_record, npm_release_age, npm_repository, provenance_note,
    NpmRegistryResponse, NpmScan,
};
use crate::pypi::{
    first_repository, pypi_health, pypi_line, pypi_reason, pypi_record, pypi_release_age,
    pypi_repository, PyPIInfo, PyPIResponse, PyPIUrl, PypiScan,
};
use crate::render::signed;
use crate::scan::{alarm, first_sentence, heading, or_none_given, Options};
use crate::table::{lemma_value_of, lemma_value_of_entry, unique, value_of};
use crate::text::{begins, ends, group_holds, holds, strip_ends, strip_starts, Text};
use crate::types::{lemma_words, Health, PackageView};
use vstd::prelude::*;

verus! {

/// The record of a dependency that could not be asked about.
pub open spec fn is_unknown(r: PackageView, name: Text, version: Text, error: Text) -> bool {
    &&& r.name == name
    &&& r.version == version
    &&& r.health == "unknown"@
    &&& r.stale_reason == Some(error)
    &&& r.description is None
    &&& r.latest_version is None
    &&& r.vulns.len() == 0
    &&& r.provenance is None
}

/// A line that starts with the sign of a health by the given ages, with the
/// name and with the version.
pub open spec fn starts_by_age(
    l: Text,
    name: Text,
    version: Text,
    release: Option<i64>,
    commit: Option<i64>,
) -> bool {
    exists|h: Health| #[trigger]
        fits(h.word(), release, commit) && begins(l, heading(h, name, version))
}

// ── crates.io ────────────────────────────────────────────────────────

/// The reason for the health of a crate: of a release 181 to 365 days old only
/// the days are said, of an older one the state too, and where the release is
/// fresh the commit is spoken of.
pub open spec fn gives_crate_reason(
    r: Option<Text>,
    release: Option<i64>,
    commit: Option<i64>,
) -> bool {
    let old_release = release matches Some(d) && d > 180;
    let old_commit = commit matches Some(c) && c > 180;
    &&& r is Some <==> old_release || old_commit
    &&& old_release ==> begins(r->0, "No release on crates.io"@) && holds(
        r->0,
        " in "@ + signed(release->0 as int) + " days"@,
    )
    &&& old_release && release->0 <= 365 ==> ends(r->0, signed(release->0 as int) + " days"@)
    &&& old_release && release->0 > 365 ==> names_silence(
        r->0,
        "No release on crates.io"@,
        release->0 as int,
    )
    &&& !old_release && old_commit ==> names_silence(
        r->0,
        "No GitHub activity"@,
        commit->0 as int,
    )
}

/// The reason of a crate is given by the ages of its release and its commit.
pub proof fn law_crate_reason(data: CrateData, gh: Option<GitHubRepo>, today: i32)
    ensures
        gives_crate_reason(
            crate_reason(data, gh.deep_view(), today),
            age(data.updated_at@, today),
            pushed(gh, today),
        ),
{
    broadcast use group_holds;

    let release = age(data.updated_at@, today);
    let commit = pushed(gh, today);
    if release is Some {
        law_silence_is_named("No release on crates.io"@, release->0 as int);
        if 180 < release->0 <= 365 {
            let d = signed(release->0 as int);
            let t = crate_reason(data, gh.deep_view(), today)->0;
            assert(t == "No release on crates.io"@ + " in "@ + d + " days"@);
            assert(t =~= "No release on crates.io"@ + " in "@ + (d + " days"@));
            assert(ends("No release on crates.io"@ + " in "@ + (d + " days"@), d + " days"@));
        }
    }
    if commit is Some {
        law_silence_is_named("No GitHub activity"@, commit->0 as int);
    }
}

/// The record of a crate holds what was fetched for it: its own data, exactly
/// the vulnerabilities that were found, and the health and the reason by its
/// ages.
pub proof fn law_crate_record(s: CrateScan, today: i32)
    ensures
        s.fetched matches Ok(resp) ==> ({
            let r = crate_record(s, today);
            let data = resp.crate_data;
            let release = age(data.updated_at@, today);
            let commit = pushed(s.github, today);
            &&& r.name == s.name@ && r.version == s.version@
            &&& r.vulns == s.vulns.deep_view()
            &&& fits(r.health, release, commit)
            &&& gives_crate_reason(r.stale_reason, release, commit)
            &&& r.latest_version == Some(data.max_stable_version@)
            &&& r.description == data.description.deep_view()
            &&& r.provenance is None
        }),
        s.fetched matches Err(e) ==> is_unknown(crate_record(s, today), s.name@, s.version@, e@),
{
    if let Ok(resp) = s.fetched {
        law_health_bands(age(resp.crate_data.updated_at@, today), pushed(s.github, today));
        law_crate_reason(resp.crate_data, s.github, today);
    }
}

/// The line of a crate starts with its sign, name and version, says its
/// downloads and the first sentence of its description, names its
/// vulnerabilities, and, where only packages worth a look are shown, its
/// reason.
pub proof fn law_crate_line(opts: Options, s: CrateScan, data: CrateData, today: i32)
    ensures
        ({
            let l = crate_line(opts, s, data, today);
            let release = age(data.updated_at@, today);
            let commit = pushed(s.github, today);
            &&& starts_by_age(l, s.name@, s.version@, release, commit)
            &&& holds(l, ", downloads: "@ + downloads_text(data.downloads as nat))
            &&& data.description is Some ==> holds(
                l,
                " — "@ + first_sentence(Some(data.description->0@), ""@),
            )
            &&& data.description is None ==> holds(l, " — "@ + "no description"@)
            &&& s.vulns@.len() > 0 ==> names_vulns(l, s.vulns.deep_view())
            &&& opts.stale_only && crate_reason(data, s.github.deep_view(), today) is Some ==> holds(
                l,
                "└─ "@ + crate_reason(data, s.github.deep_view(), today)->0,
            )
            &&& !opts.stale_only && (release matches Some(d) && d > 180) ==> holds(
                l,
                "— "@ + signed(release->0 as int) + " days ago"@,
            )
            &&& opts.stale_only && (release matches Some(d) && d > 365) ==> holds(
                l,
                "— "@ + signed(release->0 as int) + " days ago"@,
            )
        }),
{
    broadcast use group_holds;

    let l = crate_line(opts, s, data, today);
    let release = age(data.updated_at@, today);
    let commit = pushed(s.github, today);
    let h = crate_health(data, s.github.deep_view(), today);
    law_health_bands(release, commit);
    assert(fits(h.word(), release, commit) && begins(l, heading(h, s.name@, s.version@)));
    assert(s.vulns.deep_view().len() == s.vulns@.len());
    law_alarm_names_the_vulnerabilities(s.vulns.deep_view());
    if s.vulns@.len() > 0 {
        assert(holds(l, alarm(s.vulns.deep_view())));
        lemma_names_through(l, alarm(s.vulns.deep_view()), s.vulns.deep_view());
    }
}

/// The repository of a crate is the one that its address names.
pub proof fn law_crate_repository(data: CrateData)
    ensures
        data.repository is None ==> crate_repository(data) is None,
        data.repository is Some ==> crate_repository(data) == github_repo(data.repository->0@),
{
}

/// The dependencies of two parts of a `Cargo.lock` are those of the first
/// followed by those of the second, and a package is one exactly if its source
/// begins with `registry+`.
pub proof fn law_cargo_lock(
    a: Seq<LockPackageView>,
    b: Seq<LockPackageView>,
    p: LockPackageView,
)
    ensures
        registry_packages(a + b) == registry_packages(a) + registry_packages(b),
        (p.source matches Some(src) && begins(src, "registry+"@)) ==> registry_packages(seq![p])
            == seq![(p.name, p.version)],
        !(p.source matches Some(src) && begins(src, "registry+"@)) ==> registry_packages(
            seq![p],
        ).len() == 0,
    decreases b.len(),
{
    assert(seq![p].drop_last() =~= Seq::<LockPackageView>::empty());
    assert(registry_packages(seq![p].drop_last()) =~= Seq::<(Text, Text)>::empty());
    assert(seq![p].last() == p);
    if (p.source matches Some(src) && begins(src, "registry+"@)) {
        assert(registry_packages(seq![p]) =~= seq![(p.name, p.version)]);
    }
    if b.len() == 0 {
        assert(a + b =~= a);
        assert(registry_packages(a) + registry_packages(b) =~= registry_packages(a));
    } else {
        law_cargo_lock(a, b.drop_last(), p);
        assert((a + b).drop_last() =~= a + b.drop_last());
        let dep = (b.last().name, b.last().version);
        assert((registry_packages(a) + registry_packages(b.drop_last())).push(dep)
            =~= registry_packages(a) + registry_packages(b.drop_last()).push(dep));
    }
}

// ── npm ──────────────────────────────────────────────────────────────

/// The age of an npm package is that of the entry `modified`; without it there
/// is none.
pub proof fn law_npm_release_age(data: NpmRegistryResponse, today: i32, i: int)
    requires
        unique(data.time.deep_view()),
    ensures
        0 <= i < data.time@.len() && data.time@[i].0@ == "modified"@ ==> npm_release_age(data, today)
            == age(data.time@[i].1@, today),
        (forall|k: int| 0 <= k < data.time@.len() ==> (#[trigger] data.time@[k]).0@ != "modified"@)
            ==> npm_release_age(data, today) is None,
{
    let t = data.time.deep_view();
    if 0 <= i < data.time@.len() && data.time@[i].0@ == "modified"@ {
        assert(t[i] == (data.time@[i].0@, data.time@[i].1@));
        lemma_value_of_entry(t, i);
    }
    if forall|k: int| 0 <= k < data.time@.len() ==> (#[trigger] data.time@[k]).0@ != "modified"@ {
        lemma_value_of(t, "modified"@);
        if value_of(t, "modified"@) is Some {
            let w = value_of(t, "modified"@)->0;
            let k = choose|k: int| 0 <= k < t.len() && #[trigger] t[k] == ("modified"@, w);
            assert(data.time@[k].0@ == "modified"@);
        }
    }
}

/// The record of an npm package holds what was fetched for it: its own data,
/// the version under the tag `latest`, exactly the vulnerabilities that were
/// found, its provenance, and the health and the reason by its ages.
pub proof fn law_npm_record(s: NpmScan, today: i32, k: int)
    ensures
        s.fetched matches Ok(data) ==> ({
            let r = npm_record(s, today);
            let release = npm_release_age(data, today);
            let commit = pushed(s.github, today);
            &&& r.name == s.name@ && r.version == s.version@
            &&& r.vulns == s.vulns.deep_view()
            &&& fits(r.health, release, commit)
            &&& gives_reason(r.stale_reason, "No update on npm"@, release, commit)
            &&& r.description == data.description.deep_view()
            &&& r.provenance == Some(s.provenance@)
            &&& unique(data.dist_tags.deep_view()) && 0 <= k < data.dist_tags@.len()
                && data.dist_tags@[k].0@ == "latest"@ ==> r.latest_version == Some(
                data.dist_tags@[k].1@,
            )
        }),
        s.fetched matches Err(e) ==> is_unknown(npm_record(s, today), s.name@, s.version@, e@),
{
    if let Ok(data) = s.fetched {
        let release = npm_release_age(data, today);
        let commit = pushed(s.github, today);
        law_health_bands(release, commit);
        law_reason_names_the_silence("No update on npm"@, release, commit);
        let t = data.dist_tags.deep_view();
        if unique(t) && 0 <= k < data.dist_tags@.len() && data.dist_tags@[k].0@ == "latest"@ {
            assert(t[k] == (data.dist_tags@[k].0@, data.dist_tags@[k].1@));
            lemma_value_of_entry(t, k);
        }
    }
}

/// The line of an npm package starts with its sign, name and version, says its
/// latest version and its provenance, in green if that is verified, names its
/// vulnerabilities, and, where only packages worth a look are shown, its
/// reason.
pub proof fn law_npm_line(opts: Options, s: NpmScan, data: NpmRegistryResponse, today: i32)
    ensures
        ({
            let l = npm_line(opts, s, data, today);
            let release = npm_release_age(data, today);
            let commit = pushed(s.github, today);
            &&& starts_by_age(l, s.name@, s.version@, release, commit)
            &&& npm_record(s, today).latest_version is Some && s.fetched == Ok::<
                NpmRegistryResponse,
                String,
            >(data) ==> holds(l, " (latest: "@ + npm_record(s, today).latest_version->0 + ")"@)
            &&& begins(s.provenance@, "🧾"@) ==> holds(
                l,
                "\n   "@ + "\x1b[32m"@ + s.provenance@,
            )
            &&& !begins(s.provenance@, "🧾"@) ==> holds(
                l,
                "\n   "@ + "\x1b[90m"@ + s.provenance@,
            )
            &&& s.vulns@.len() > 0 ==> names_vulns(l, s.vulns.deep_view())
            &&& opts.stale_only && npm_reason(data, s.github.deep_view(), today) is Some ==> holds(
                l,
                "└─ "@ + npm_reason(data, s.github.deep_view(), today)->0,
            )
            &&& (release matches Some(d) && d > 180) ==> holds(
                l,
                "— "@ + signed(release->0 as int) + " days ago"@,
            )
            &&& holds(
                l,
                " — "@ + or_none_given(first_sentence(data.description.deep_view(), ""@)),
            )
        }),
{
    broadcast use group_holds;

    let l = npm_line(opts, s, data, today);
    let release = npm_release_age(data, today);
    let commit = pushed(s.github, today);
    let h = npm_health(data, s.github.deep_view(), today);
    law_health_bands(release, commit);
    assert(fits(h.word(), release, commit) && begins(l, heading(h, s.name@, s.version@)));
    assert(s.vulns.deep_view().len() == s.vulns@.len());
    law_alarm_names_the_vulnerabilities(s.vulns.deep_view());
    if s.vulns@.len() > 0 {
        assert(holds(l, alarm(s.vulns.deep_view())));
        lemma_names_through(l, alarm(s.vulns.deep_view()), s.vulns.deep_view());
    }
}

/// The repository of an npm package is the one that its address names.
pub proof fn law_npm_repository(data: NpmRegistryResponse)
    ensures
        data.repository is None ==> npm_repository(data) is None,
        data.repository is Some && data.repository->0.url is None ==> npm_repository(data) is None,
        data.repository is Some && data.repository->0.url is Some ==> npm_repository(data)
            == github_repo(data.repository->0.url->0@),
{
}

// ── PyPI ─────────────────────────────────────────────────────────────

/// The age of a PyPI package is that of the upload of its first file, a
/// trailing `Z` aside; without files or without that time there is none.
pub proof fn law_pypi_release_age(urls: Seq<PyPIUrl>, today: i32, t: Text)
    ensures
        urls.len() == 0 ==> pypi_release_age(urls, today) is None,
        urls.len() > 0 && urls[0].upload_time is None ==> pypi_release_age(urls, today) is None,
        urls.len() > 0 && urls[0].upload_time is Some && !ends(t, "Z"@) && (
        urls[0].upload_time->0@ == t || urls[0].upload_time->0@ == t + "Z"@) ==> pypi_release_age(
            urls,
            today,
        ) == age(t, today),
{
    reveal_strlit("Z");
    let z = t + "Z"@;
    assert(z.subrange(z.len() - 1, z.len() as int) =~= "Z"@);
    assert(z.take(z.len() - 1) =~= t);
    assert(!ends(t, "Z"@) ==> strip_ends(z, "Z"@) == strip_ends(t, "Z"@));
}

/// The record of a PyPI package holds what was fetched for it: its own data,
/// exactly the vulnerabilities that were found, and the health and the reason
/// by its ages.
pub proof fn law_pypi_record(s: PypiScan, today: i32)
    ensures
        s.fetched matches Ok(resp) ==> ({
            let r = pypi_record(s, today);
            let release = pypi_release_age(resp.urls@, today);
            let commit = pushed(s.github, today);
            &&& r.name == s.name@ && r.version == s.version@
            &&& r.vulns == s.vulns.deep_view()
            &&& fits(r.health, release, commit)
            &&& gives_reason(r.stale_reason, "No release on PyPI"@, release, commit)
            &&& r.latest_version == Some(resp.info.version@)
            &&& r.description == resp.info.summary.deep_view()
            &&& r.provenance is None
        }),
        s.fetched matches Err(e) ==> is_unknown(pypi_record(s, today), s.name@, s.version@, e@),
{
    if let Ok(resp) = s.fetched {
        let release = pypi_release_age(resp.urls@, today);
        law_health_bands(release, pushed(s.github, today));
        law_reason_names_the_silence("No release on PyPI"@, release, pushed(s.github, today));
    }
}

/// The line of a PyPI package starts with its sign, name and version, says its
/// summary and its latest version, names its vulnerabilities, and, where only
/// packages worth a look are shown, its reason.
pub proof fn law_pypi_line(opts: Options, s: PypiScan, resp: PyPIResponse, today: i32)
    ensures
        ({
            let l = pypi_line(opts, s, resp, today);
            let release = pypi_release_age(resp.urls@, today);
            let commit = pushed(s.github, today);
            &&& starts_by_age(l, s.name@, s.version@, release, commit)
            &&& holds(l, " (latest: "@ + resp.info.version@ + ")"@)
            &&& resp.info.summary is Some && resp.info.summary->0@.len() > 0 ==> holds(
                l,
                " — "@ + resp.info.summary->0@,
            )
            &&& resp.info.summary is None ==> holds(l, " — "@ + "no description"@)
            &&& s.vulns@.len() > 0 ==> names_vulns(l, s.vulns.deep_view())
            &&& opts.stale_only && pypi_reason(resp.urls@, s.github.deep_view(), today) is Some
                ==> holds(l, "└─ "@ + pypi_reason(resp.urls@, s.github.deep_view(), today)->0)
        }),
{
    broadcast use group_holds;

    reveal_strlit("");
    let l = pypi_line(opts, s, resp, today);
    let release = pypi_release_age(resp.urls@, today);
    let commit = pushed(s.github, today);
    let h = pypi_health(resp.urls@, s.github.deep_view(), today);
    law_health_bands(release, commit);
    assert(fits(h.word(), release, commit) && begins(l, heading(h, s.name@, s.version@)));
    assert(s.vulns.deep_view().len() == s.vulns@.len());
    law_alarm_names_the_vulnerabilities(s.vulns.deep_view());
    if s.vulns@.len() > 0 {
        assert(holds(l, alarm(s.vulns.deep_view())));
        lemma_names_through(l, alarm(s.vulns.deep_view()), s.vulns.deep_view());
    }
}

/// The repository of a PyPI package is the one that the first of the project's
/// addresses names that names any, else the one that the home page names.
pub proof fn law_pypi_repository(info: PyPIInfo, i: int)
    ensures
        info.project_urls matches Some(urls) ==> (0 <= i < urls@.len() && github_repo(
            urls@[i].1@,
        ) is Some && (forall|k: int|
            0 <= k < i ==> github_repo((#[trigger] urls@[k]).1@) is None) ==> pypi_repository(info)
            == github_repo(urls@[i].1@)),
        (info.project_urls is None || forall|k: int|
            0 <= k < info.project_urls->0@.len() ==> github_repo(
                (#[trigger] info.project_urls->0@[k]).1@,
            ) is None) ==> pypi_repository(info) == match info.home_page {
            Some(url) => github_repo(url@),
            None => None,
        },
{
    if info.project_urls is Some {
        let urls = info.project_urls->0;
        let view = urls.deep_view();
        assert(view.len() == urls@.len());
        assert forall|k: int| 0 <= k < urls@.len() implies (#[trigger] view[k]).1
            == urls@[k].1@ by {
            assert(view[k] == (urls@[k].0@, urls@[k].1@));
        }
        if 0 <= i < urls@.len() && github_repo(urls@[i].1@) is Some && (forall|k: int|
            0 <= k < i ==> github_repo((#[trigger] urls@[k]).1@) is None) {
            assert forall|k: int| 0 <= k < i implies github_repo((#[trigger] view[k]).1) is None by {
                assert(urls@[k].1@ == view[k].1);
            }
            lemma_first_repository(view, 0, i);
        }
        if forall|k: int|
            0 <= k < urls@.len() ==> github_repo((#[trigger] urls@[k]).1@) is None {
            assert forall|k: int| 0 <= k < view.len() implies github_repo(
                (#[trigger] view[k]).1,
            ) is None by {
                assert(urls@[k].1@ == view[k].1);
            }
            lemma_no_repository(view, 0);
        }
    }
}

proof fn lemma_first_repository(urls: Seq<(Text, Text)>, k: int, i: int)
    requires
        0 <= k <= i < urls.len(),
        github_repo(urls[i].1) is Some,
        forall|j: int| k <= j < i ==> github_repo((#[trigger] urls[j]).1) is None,
    ensures
        first_repository(urls, k) == github_repo(urls[i].1),
    decreases i - k,
{
    if k < i {
        assert(github_repo(urls[k].1) is None);
        lemma_first_repository(urls, k + 1, i);
    }
}

proof fn lemma_no_repository(urls: Seq<(Text, Text)>, k: int)
    requires
        0 <= k <= urls.len(),
        forall|j: int| k <= j < urls.len() ==> github_repo((#[trigger] urls[j]).1) is None,
    ensures
        first_repository(urls, k) is None,
    decreases urls.len() - k,
{
    if k < urls.len() {
        assert(github_repo(urls[k].1) is None);
        lemma_no_repository(urls, k + 1);
    }
}

// ── Go ───────────────────────────────────────────────────────────────

/// The record of a Go module holds what was fetched for it: exactly the
/// vulnerabilities that were found, the latest version without its `v`, and,
/// where its repository is archived or not to be found, the risk of a hijack
/// with its reason, else the health and the reason by its ages.
pub proof fn law_go_record(s: GoScan, today: i32, v: Text)
    ensures
        s.fetched matches Ok(proxy) ==> ({
            let r = go_record(s, today);
            let release = age(proxy.time@, today);
            let commit = go_pushed(s.github, today);
            &&& r.name == s.name@ && r.version == s.version@
            &&& r.vulns == s.vulns.deep_view()
            &&& go_at_risk(s) <==> r.health == "hijack"@
            &&& go_at_risk(s) && s.github->0 is Ok ==> r.stale_reason == Some(
                "Repo is archived — may be hijacked"@,
            )
            &&& go_at_risk(s) && s.github->0 is Err ==> r.stale_reason == Some(
                "GitHub repo not found (404) — module path may be hijacked"@,
            )
            &&& !go_at_risk(s) ==> fits(r.health, release, commit)
            &&& !go_at_risk(s) ==> gives_reason(r.stale_reason, "No release"@, release, commit)
            &&& !begins(v, "v"@) && (proxy.version@ == v || proxy.version@ == "v"@ + v)
                ==> r.latest_version == Some(v)
            &&& r.description is None
            &&& r.provenance is None
        }),
        s.fetched matches Err(e) ==> is_unknown(go_record(s, today), s.name@, s.version@, e@),
{
    if let Ok(proxy) = s.fetched {
        let release = age(proxy.time@, today);
        let commit = go_pushed(s.github, today);
        law_health_bands(release, commit);
        law_reason_names_the_silence("No release"@, release, commit);
        reveal_strlit("v");
        let w = "v"@ + v;
        assert(w.subrange(0, 1) =~= "v"@);
        assert(w.skip(1) =~= v);
        assert(!begins(v, "v"@) ==> strip_starts(w, "v"@) == strip_starts(v, "v"@));
        lemma_words(module_health(s, proxy, today));
        lemma_words(Health::Hijack);
    }
}

/// The line of a Go module starts with its sign, name and version, says its
/// latest version and, always, the risk of a hijack, names its
/// vulnerabilities, and, where only packages worth a look are shown, its
/// reason.
pub proof fn law_go_line(opts: Options, s: GoScan, proxy: GoProxyResponse, today: i32)
    ensures
        ({
            let l = go_line(opts, s, proxy, today);
            let release = age(proxy.time@, today);
            let commit = go_pushed(s.github, today);
            &&& !go_at_risk(s) ==> starts_by_age(l, s.name@, s.version@, release, commit)
            &&& go_at_risk(s) ==> begins(l, heading(Health::Hijack, s.name@, s.version@))
            &&& go_at_risk(s) && s.github->0 is Ok ==> holds(
                l,
                "└─ 🚩 "@ + "Repo is archived — may be hijacked"@,
            )
            &&& go_at_risk(s) && s.github->0 is Err ==> holds(
                l,
                "└─ 🚩 "@ + "GitHub repo not found (404) — module path may be hijacked"@,
            )
            &&& holds(l, " (latest: "@ + strip_starts(proxy.version@, "v"@) + ")"@)
            &&& s.vulns@.len() > 0 ==> names_vulns(l, s.vulns.deep_view())
            &&& opts.stale_only && go_reason(proxy, repository_had(answer(s.github)), today) is Some
                ==> holds(
                l,
                "└─ "@ + go_reason(proxy, repository_had(answer(s.github)), today)->0,
            )
        }),
{
    broadcast use group_holds;

    let l = go_line(opts, s, proxy, today);
    let release = age(proxy.time@, today);
    let commit = go_pushed(s.github, today);
    let h = module_health(s, proxy, today);
    law_health_bands(release, commit);
    assert(begins(l, heading(h, s.name@, s.version@)));
    if !go_at_risk(s) {
        assert(fits(h.word(), release, commit));
    }
    assert(s.vulns.deep_view().len() == s.vulns@.len());
    law_alarm_names_the_vulnerabilities(s.vulns.deep_view());
    if s.vulns@.len() > 0 {
        assert(holds(l, alarm(s.vulns.deep_view())));
        lemma_names_through(l, alarm(s.vulns.deep_view()), s.vulns.deep_view());
    }
}

// ── Nothing more ─────────────────────────────────────────────────────

/// Of a healthy crate without vulnerabilities nothing more is said than its
/// downloads, unless only packages worth a look are shown.
pub proof fn law_healthy_crate_line_ends(
    opts: Options,
    s: CrateScan,
    data: CrateData,
    today: i32,
)
    requires
        !opts.stale_only,
        s.vulns@.len() == 0,
        fits("healthy"@, age(data.updated_at@, today), pushed(s.github, today)),
    ensures
        ends(
            crate_line(opts, s, data, today),
            ", downloads: "@ + downloads_text(data.downloads as nat),
        ),
{
    reveal_strlit("");
    let release = age(data.updated_at@, today);
    let commit = pushed(s.github, today);
    law_health_bands(release, commit);
    lemma_words(crate_health(data, s.github.deep_view(), today));
    lemma_words(Health::Healthy);
    assert(s.vulns.deep_view().len() == 0);
    let h = crate_health(data, s.github.deep_view(), today);
    assert(h == Health::Healthy);
    let front = heading(h, s.name@, s.version@) + " — "@ + first_sentence(
        data.description.deep_view(),
        "no description"@,
    );
    let n = downloads_text(data.downloads as nat);
    lemma_said_last(front, ", downloads: "@ + n);
    assert(crate_line(opts, s, data, today) =~= front + (", downloads: "@ + n));
}

proof fn lemma_said_last(a: Text, b: Text)
    ensures
        ends(a + b, b),
{
    broadcast use group_holds;

}

/// Of a Python package without vulnerabilities nothing more is said than its
/// latest version, unless only packages worth a look are shown.
pub proof fn law_pypi_line_ends(opts: Options, s: PypiScan, resp: PyPIResponse, today: i32)
    requires
        !opts.stale_only,
        s.vulns@.len() == 0,
    ensures
        ends(pypi_line(opts, s, resp, today), " (latest: "@ + resp.info.version@ + ")"@),
{
    reveal_strlit("");
    assert(s.vulns.deep_view().len() == 0);
    let h = pypi_health(resp.urls@, s.github.deep_view(), today);
    let front = heading(h, s.name@, s.version@) + " — "@ + or_none_given(
        match resp.info.summary {
            Some(summary) => summary@,
            None => ""@,
        },
    );
    let last = " (latest: "@ + resp.info.version@ + ")"@;
    lemma_said_last(front, last);
    assert(pypi_line(opts, s, resp, today) =~= front + last);
}

/// Of a Go module that is at no risk and without vulnerabilities nothing more
/// is said than its latest version, unless only packages worth a look are
/// shown.
pub proof fn law_go_line_ends(opts: Options, s: GoScan, proxy: GoProxyResponse, today: i32)
    requires
        !opts.stale_only,
        s.vulns@.len() == 0,
        !go_at_risk(s),
    ensures
        ends(
            go_line(opts, s, proxy, today),
            " (latest: "@ + strip_starts(proxy.version@, "v"@) + ")"@,
        ),
{
    reveal_strlit("");
    assert(s.vulns.deep_view().len() == 0);
    let front = heading(module_health(s, proxy, today), s.name@, s.version@);
    let last = " (latest: "@ + strip_starts(proxy.version@, "v"@) + ")"@;
    lemma_said_last(front, last);
    assert(go_line(opts, s, proxy, today) =~= front + last);
}

/// Of a healthy npm package without vulnerabilities nothing more is said than
/// its provenance, unless only packages worth a look are shown.
pub proof fn law_healthy_npm_line_ends(
    opts: Options,
    s: NpmScan,
    data: NpmRegistryResponse,
    today: i32,
)
    requires
        !opts.stale_only,
        s.vulns@.len() == 0,
        fits("healthy"@, npm_release_age(data, today), pushed(s.github, today)),
    ensures
        ends(npm_line(opts, s, data, today), s.provenance@ + "\x1b[0m"@),
{
    broadcast use group_holds;

    reveal_strlit("");
    law_health_bands(npm_release_age(data, today), pushed(s.github, today));
    let h = npm_health(data, s.github.deep_view(), today);
    lemma_words(h);
    lemma_words(Health::Healthy);
    assert(s.vulns.deep_view().len() == 0);
    assert(h == Health::Healthy);
    let note = provenance_note(s.provenance@);
    let said = "\n   "@ + (if begins(s.provenance@, "🧾"@) {
        "\x1b[32m"@
    } else {
        "\x1b[90m"@
    });
    let last = s.provenance@ + "\x1b[0m"@;
    assert(note =~= said + last);
    assert(ends(said + last, last));
    let l = npm_line(opts, s, data, today);
    let front = l.take(l.len() - note.len());
    assert(l =~= front + note);
}

} // verus!
