//! The services that are asked about packages: what is sent to them, and what
//! is read out of what they answer.

use crate::text::{
    chars_of, ends, find, find_from, holds, lemma_find_from, occurs_at, pieces, pieces_from,
    position_from, split, strip_ends, trim_end_matches, Text,
};
use vstd::prelude::*;

verus! {

// ── AUR types ────────────────────────────────────────────────────────

/// What the AUR answers to a query.
#[derive(Debug)]
pub struct AurResponse {
    pub resultcount: u32,
    pub results: Vec<AurPackage>,
}

/// How popular a package is on the AUR: the score rounded to one and to two
/// decimals, and whether it is low.
#[derive(Debug)]
pub struct Popularity {
    pub tenths: String,
    pub hundredths: String,
    pub low: bool,
}

/// A package on the AUR.
#[derive(Debug)]
pub struct AurPackage {
    pub name: String,
    pub version: String,
    pub description: Option<String>,
    pub url: Option<String>,
    pub maintainer: Option<String>,
    pub numvotes: u32,
    pub popularity: Popularity,
    pub lastmodified: u64,
    pub outofdate: Option<u32>,
}

// ── GitHub API ───────────────────────────────────────────────────────

/// A repository on GitHub.
#[derive(Debug)]
pub struct GitHubRepo {
    pub stars: u32,
    pub forks: u32,
    pub open_issues: u32,
    pub pushed_at: String,
    pub archived: bool,
    pub watchers: u32,
}

/// What a `GitHubRepo` holds.
pub struct GitHubView {
    pub stars: u32,
    pub forks: u32,
    pub open_issues: u32,
    pub pushed_at: Text,
    pub archived: bool,
    pub watchers: u32,
}

impl DeepView for GitHubRepo {
    type V = GitHubView;

    open spec fn deep_view(&self) -> GitHubView {
        GitHubView {
            stars: self.stars,
            forks: self.forks,
            open_issues: self.open_issues,
            pushed_at: self.pushed_at@,
            archived: self.archived,
            watchers: self.watchers,
        }
    }
}

/// What came of asking for a repository: what is known of it, or why it could
/// not be had.
pub open spec fn answer(gh: Option<Result<GitHubRepo, String>>) -> Option<
    Result<GitHubView, Text>,
> {
    match gh {
        Some(Ok(repo)) => Some(Ok(repo.deep_view())),
        Some(Err(e)) => Some(Err(e@)),
        None => None,
    }
}

/// What came of asking for a repository, by reference.
pub open spec fn answer_by_ref(gh: Option<Result<&GitHubRepo, &str>>) -> Option<
    Result<GitHubView, Text>,
> {
    match gh {
        Some(Ok(repo)) => Some(Ok(repo.deep_view())),
        Some(Err(e)) => Some(Err(e@)),
        None => None,
    }
}

/// The repository, where it could be had.
pub open spec fn repository_had(gh: Option<Result<GitHubView, Text>>) -> Option<GitHubView> {
    match gh {
        Some(Ok(repo)) => Some(repo),
        _ => None,
    }
}

/// What stands in `s` after the first `p`, where `p` stands in it.
pub open spec fn after_first(s: Text, p: Text) -> Option<Text> {
    match find(s, p) {
        Some(i) => Some(s.skip(i + p.len())),
        None => None,
    }
}

/// The part of a URL that follows the host name of GitHub.
pub open spec fn github_path(url: Text) -> Option<Text> {
    match after_first(url, "github.com/"@) {
        Some(rest) => Some(rest),
        None => after_first(url, "github.com:"@),
    }
}

/// The first two segments of `path`, once trailing `.git` and `/` are taken
/// off, where both are there and hold something.
pub open spec fn owner_and_repo(path: Text) -> Option<(Text, Text)> {
    let parts = pieces(strip_ends(strip_ends(path, ".git"@), "/"@), "/"@);
    if parts.len() >= 2 && parts[0].len() > 0 && parts[1].len() > 0 {
        Some((parts[0], parts[1]))
    } else {
        None
    }
}

/// The owner and the repository that a URL names on GitHub.
pub open spec fn github_repo(url: Text) -> Option<(Text, Text)> {
    match github_path(url) {
        Some(path) => owner_and_repo(path),
        None => None,
    }
}

/// The first `n` characters of a text.
pub open spec fn first_chars(s: Text, n: int) -> Text {
    if n < s.len() {
        s.take(n)
    } else {
        s
    }
}

/// Safely take the first `n` characters from a string, respecting UTF-8
/// boundaries.
pub fn safe_prefix(s: &str, n: usize) -> (r: &str)
    ensures
        r@ == first_chars(s@, n as int),
{
    let len = s.unicode_len();
    if n < len {
        assert(s@.subrange(0, n as int) =~= s@.take(n as int));
        s.substring_char(0, n)
    } else {
        s
    }
}

/// What stands in `s` after the first `p`, where `p` stands in it.
fn tail_after_first<'a>(s: &'a str, p: &str) -> (r: Option<&'a str>)
    ensures
        r.deep_view() == after_first(s@, p@),
{
    let cs = chars_of(s);
    let ps = chars_of(p);
    proof {
        lemma_find_from(s@, p@, 0);
    }
    match position_from(&cs, &ps, 0) {
        Some(i) => {
            let end = cs.len();
            assert(s@.subrange(i + p@.len(), s@.len() as int) =~= s@.skip(i + p@.len()));
            Some(s.substring_char(i + ps.len(), end))
        },
        None => None,
    }
}

/// Parse an `owner` / `repo` pair from common GitHub URL formats:
///
/// | Format                                | Result          |
/// |---------------------------------------|-----------------|
/// | `https://github.com/owner/repo`       | `(owner, repo)` |
/// | `https://github.com/owner/repo.git`   | `(owner, repo)` |
/// | `https://github.com/owner/repo/`      | `(owner, repo)` |
/// | `https://github.com/owner/repo/tree/…`| `(owner, repo)` |
/// | `git@github.com:owner/repo.git`       | `(owner, repo)` |
/// | `ssh://git@github.com/owner/repo`     | `(owner, repo)` |
/// | `git+https://github.com/owner/repo`   | `(owner, repo)` |
/// | `git://github.com/owner/repo.git`     | `(owner, repo)` |
pub fn parse_github_repo(url: &str) -> (r: Option<(String, String)>)
    ensures
        r.deep_view() == github_repo(url@),
{
    let path = match tail_after_first(url, "github.com/") {
        Some(rest) => rest,
        None => match tail_after_first(url, "github.com:") {
            Some(rest) => rest,
            None => {
                return None;
            },
        },
    };
    let path = trim_end_matches(trim_end_matches(path, ".git"), "/");
    proof {
        reveal_strlit("/");
    }
    let mut parts = split(path, "/");
    if parts.len() < 2 {
        return None;
    }
    assert(parts.deep_view()[0] == parts[0]@);
    assert(parts.deep_view()[1] == parts[1]@);
    if parts[0].as_str().is_empty() || parts[1].as_str().is_empty() {
        return None;
    }
    let repo = parts.swap_remove(1);
    let owner = parts.swap_remove(0);
    Some((owner, repo))
}

/// Where the GitHub API describes a repository.
pub fn github_url(owner: &str, repo: &str) -> (r: String)
    ensures
        r@ == "https://api.github.com/repos/"@ + owner@ + "/"@ + repo@,
{
    let mut s = "https://api.github.com/repos/".to_owned();
    s.append(owner);
    s.append("/");
    s.append(repo);
    s
}

/// The value of the authorization header that goes with a token; none
/// without a token.
pub fn authorization(token: &str) -> (r: Option<String>)
    ensures
        token@.len() == 0 ==> r is None,
        token@.len() > 0 ==> r.deep_view() == Some("Bearer "@ + token@),
{
    if token.is_empty() {
        None
    } else {
        let mut s = "Bearer ".to_owned();
        s.append(token);
        Some(s)
    }
}

/// Where the AUR describes the package `name`.
pub fn aur_info_url(name: &str) -> (r: String)
    ensures
        r@ == "https://aur.archlinux.org/rpc/v5/info/"@ + name@,
{
    let mut s = "https://aur.archlinux.org/rpc/v5/info/".to_owned();
    s.append(name);
    s
}

/// Where the AUR answers the search for `query`.
pub fn aur_search_url(query: &str) -> (r: String)
    ensures
        r@ == "https://aur.archlinux.org/rpc/v5/search/"@ + query@,
{
    let mut s = "https://aur.archlinux.org/rpc/v5/search/".to_owned();
    s.append(query);
    s
}

/// What came of a request.
#[derive(Debug)]
pub enum Reply {
    /// No response came.
    NetworkError(String),
    /// The body of the response could not be read.
    ReadError(String),
    /// A response: whether it reports success, its status, and its body.
    Received(bool, String, String),
}

/// The body of a successful response, or what is reported of anything else:
/// of another response its status and the start of its body.
pub open spec fn body_or_error(reply: Reply) -> Result<Text, Text> {
    match reply {
        Reply::NetworkError(e) => Err("Network error: "@ + e@),
        Reply::ReadError(e) => Err("Read error: "@ + e@),
        Reply::Received(success, status, body) => if success {
            Ok(body@)
        } else {
            Err("HTTP "@ + status@ + " — "@ + first_chars(body@, 200))
        },
    }
}

/// The body of a successful response, or what is reported of anything else.
pub fn accepted_body(reply: Reply) -> (r: Result<String, String>)
    ensures
        match body_or_error(reply) {
            Ok(body) => r matches Ok(b) && b@ == body,
            Err(error) => r matches Err(e) && e@ == error,
        },
{
    match reply {
        Reply::NetworkError(e) => {
            let mut text = "Network error: ".to_owned();
            text.append(e.as_str());
            Err(text)
        },
        Reply::ReadError(e) => {
            let mut text = "Read error: ".to_owned();
            text.append(e.as_str());
            Err(text)
        },
        Reply::Received(success, status, body) => {
            if success {
                return Ok(body);
            }
            let mut text = "HTTP ".to_owned();
            text.append(status.as_str());
            text.append(" — ");
            text.append(safe_prefix(body.as_str(), 200));
            Err(text)
        },
    }
}

/// The message for a body that is no JSON of the kind asked for.
pub fn json_error(why: &str) -> (r: String)
    ensures
        r@ == "JSON error: "@ + why@,
{
    let mut text = "JSON error: ".to_owned();
    text.append(why);
    text
}

/// The message for a body that could not be read as what was asked for:
/// what was tried, why it failed, and the start of the body.
pub fn unreadable_body(what: &str, why: &str, body: &str) -> (r: String)
    ensures
        r@ == what@ + ": "@ + why@ + " — body: "@ + first_chars(body@, 200),
{
    let mut s = what.to_owned();
    s.append(": ");
    s.append(why);
    s.append(" — body: ");
    s.append(safe_prefix(body, 200));
    s
}

// ── Laws ─────────────────────────────────────────────────────────────

/// `s` holds no slash.
pub open spec fn slashless(s: Text) -> bool {
    forall|k: int| 0 <= k < s.len() ==> s[k] != '/'
}

proof fn lemma_next_slash(s: Text, i: int, j: int)
    requires
        0 <= i <= j <= s.len(),
        forall|k: int| i <= k < j ==> s[k] != '/',
        j < s.len() ==> s[j] == '/',
    ensures
        j < s.len() ==> find_from(s, "/"@, i) == Some(j),
        j == s.len() ==> find_from(s, "/"@, i) is None,
{
    reveal_strlit("/");
    lemma_find_from(s, "/"@, i);
    assert forall|k: int| i <= k < j implies !occurs_at(s, "/"@, k) by {
        if occurs_at(s, "/"@, k) {
            assert(s.subrange(k, k + 1)[0] == "/"@[0]);
        }
    }
    if j < s.len() {
        assert(s.subrange(j, j + 1) =~= "/"@);
        assert(occurs_at(s, "/"@, j));
    }
}

/// Taking `p` off the end of `head + rest` takes it off the end of `rest`,
/// where the last character of `head` does not stand in `p`.
proof fn lemma_strip_tail(head: Text, rest: Text, p: Text)
    requires
        head.len() > 0,
        p.len() > 0,
        forall|k: int| 0 <= k < p.len() ==> p[k] != head.last(),
    ensures
        strip_ends(head + rest, p) == head + strip_ends(rest, p),
    decreases rest.len(),
{
    let all = head + rest;
    if rest.len() >= p.len() {
        assert(all.subrange(all.len() - p.len(), all.len() as int) =~= rest.subrange(
            rest.len() - p.len(),
            rest.len() as int,
        ));
        if ends(rest, p) {
            assert(all.take(all.len() - p.len()) =~= head + rest.take(rest.len() - p.len()));
            lemma_strip_tail(head, rest.take(rest.len() - p.len()), p);
        }
    } else if ends(all, p) {
        let at = head.len() - 1 - (all.len() - p.len());
        assert(all.subrange(all.len() - p.len(), all.len() as int)[at] == head.last());
    }
}

/// The first two segments of a path, where more than a trailing `.git` or
/// `/` may follow them.
proof fn lemma_two_segments(owner: Text, repo: Text, tail: Text)
    requires
        owner.len() > 0,
        repo.len() > 0,
        slashless(owner),
        slashless(repo),
        tail.len() > 0 ==> tail[0] == '/',
    ensures
        pieces(owner + "/"@ + repo + tail, "/"@).len() >= 2,
        pieces(owner + "/"@ + repo + tail, "/"@)[0] == owner,
        pieces(owner + "/"@ + repo + tail, "/"@)[1] == repo,
{
    reveal_strlit("/");
    let s = owner + "/"@ + repo + tail;
    let a = owner.len() as int;
    let b = a + 1 + repo.len();
    assert(s[a] == "/"@[0]);
    lemma_next_slash(s, 0, a);
    assert forall|k: int| a + 1 <= k < b implies s[k] != '/' by {
        assert(s[k] == repo[k - a - 1]);
    }
    if tail.len() > 0 {
        assert(s[b] == tail[0]);
    }
    lemma_next_slash(s, a + 1, b);
    assert(s.subrange(0, a) =~= owner);
    assert(s.subrange(a + 1, b) =~= repo);
    if tail.len() == 0 {
        assert(s.skip(a + 1) =~= repo);
    }
    let later = pieces_from(s, "/"@, a + 1);
    assert(later.len() >= 1 && later[0] == repo);
    assert(pieces(s, "/"@) == seq![owner] + later);
}

/// Taking slashes off the end of a text that does not begin with a slash
/// leaves a prefix of it, and takes only slashes.
proof fn lemma_strip_slashes(head: Text, rest: Text)
    requires
        head.len() > 0,
        head.last() != '/',
    ensures
        exists|k: int|
            0 <= k <= rest.len() && strip_ends(head + rest, "/"@) == head + #[trigger] rest.take(k),
    decreases rest.len(),
{
    reveal_strlit("/");
    let all = head + rest;
    if rest.len() == 0 {
        if ends(all, "/"@) {
            assert(all.subrange(all.len() - 1, all.len() as int)[0] == '/');
        }
        assert(all =~= head + rest.take(0));
    } else if ends(all, "/"@) {
        let shorter = rest.take(rest.len() - 1);
        assert(all.take(all.len() - 1) =~= head + shorter);
        lemma_strip_slashes(head, shorter);
        let k = choose|k: int|
            0 <= k <= shorter.len() && strip_ends(head + shorter, "/"@) == head
                + #[trigger] shorter.take(k);
        assert(shorter.take(k) =~= rest.take(k));
    } else {
        assert(rest.take(rest.len() as int) =~= rest);
    }
}

/// A path `owner/repo`, with a trailing `.git`, or followed by a slash and
/// anything at all, names that owner and that repository. Without what
/// follows, the repository's own name must not end with `.git`.
pub proof fn law_path_names_repo(owner: Text, repo: Text, tail: Text)
    requires
        owner.len() > 0,
        repo.len() > 0,
        slashless(owner),
        slashless(repo),
        tail == ".git"@ || tail.len() == 0 ==> !ends(repo, ".git"@),
        tail == ".git"@ || tail.len() == 0 || tail[0] == '/',
    ensures
        owner_and_repo(owner + "/"@ + repo + tail) == Some((owner, repo)),
{
    reveal_strlit("/");
    reveal_strlit(".git");
    let path = owner + "/"@ + repo + tail;
    if tail == ".git"@ || tail.len() == 0 {
        let head = owner + "/"@;
        assert(path =~= head + (repo + tail));
        lemma_strip_tail(head, repo + tail, ".git"@);
        if tail.len() > 0 {
            let all = repo + tail;
            assert(all.subrange(all.len() - 4, all.len() as int) =~= tail);
            assert(all.take(all.len() - 4) =~= repo);
            assert(strip_ends(all, ".git"@) == strip_ends(repo, ".git"@));
        } else {
            assert(repo + tail =~= repo);
        }
        let bare = head + repo;
        assert(strip_ends(path, ".git"@) == bare);
        assert(!ends(bare, "/"@)) by {
            if ends(bare, "/"@) {
                assert(bare.subrange(bare.len() - 1, bare.len() as int)[0] == '/');
                assert(bare.last() == repo.last());
            }
        }
        assert(strip_ends(bare, "/"@) == bare);
        lemma_two_segments(owner, repo, Seq::empty());
        assert(owner + "/"@ + repo + Seq::<char>::empty() =~= bare);
    } else {
        let head = owner + "/"@ + repo + "/"@;
        let rest = tail.skip(1);
        assert(path =~= head + rest);
        lemma_strip_tail(head, rest, ".git"@);
        let kept = strip_ends(rest, ".git"@);
        let core = owner + "/"@ + repo;
        assert(head + kept =~= core + ("/"@ + kept));
        assert(core.last() == repo.last());
        lemma_strip_slashes(core, "/"@ + kept);
        let rest_of_path = "/"@ + kept;
        let k = choose|k: int|
            0 <= k <= rest_of_path.len() && strip_ends(core + rest_of_path, "/"@) == core
                + #[trigger] rest_of_path.take(k);
        let left = rest_of_path.take(k);
        lemma_two_segments(owner, repo, left);
    }
}

/// What follows a host does not move the first place where it stands.
proof fn lemma_host_at(prefix: Text, host: Text, path: Text)
    requires
        find(prefix + host, host) == Some(prefix.len() as int),
    ensures
        find(prefix + host + path, host) == Some(prefix.len() as int),
{
    let short = prefix + host;
    let long = prefix + host + path;
    let n = prefix.len() as int;
    lemma_find_from(short, host, 0);
    lemma_find_from(long, host, 0);
    assert forall|j: int| 0 <= j <= n implies occurs_at(long, host, j) == occurs_at(
        short,
        host,
        j,
    ) by {
        assert(long.subrange(j, j + host.len()) =~= short.subrange(j, j + host.len()));
    }
    assert(occurs_at(long, host, n));
}

/// Whatever protocol stands before it, the host name of GitHub, a slash and
/// a path are read as that path; with a colon in place of the slash too,
/// where the URL has no such slash. What stands before the host must only not
/// hold it itself.
pub proof fn law_protocol_is_ignored(prefix: Text, path: Text)
    ensures
        find(prefix + "github.com/"@, "github.com/"@) == Some(prefix.len() as int) ==> github_repo(
            prefix + "github.com/"@ + path,
        ) == owner_and_repo(path),
        find(prefix + "github.com:"@, "github.com:"@) == Some(prefix.len() as int) && !holds(
            prefix + "github.com:"@ + path,
            "github.com/"@,
        ) ==> github_repo(prefix + "github.com:"@ + path) == owner_and_repo(path),
{
    let a = prefix + "github.com/"@ + path;
    assert(a.skip((prefix.len() + "github.com/"@.len()) as int) =~= path);
    if find(prefix + "github.com/"@, "github.com/"@) == Some(prefix.len() as int) {
        lemma_host_at(prefix, "github.com/"@, path);
    }
    let b = prefix + "github.com:"@ + path;
    assert(b.skip((prefix.len() + "github.com:"@.len()) as int) =~= path);
    if find(prefix + "github.com:"@, "github.com:"@) == Some(prefix.len() as int) {
        lemma_host_at(prefix, "github.com:"@, path);
        lemma_find_from(b, "github.com/"@, 0);
    }
}

/// A prefix in which no `g` can be the start of the host.
proof fn lemma_plain_prefix(prefix: Text, host: Text)
    requires
        host == "github.com/"@ || host == "github.com:"@,
        forall|j: int|
            0 <= j < prefix.len() ==> (#[trigger] prefix[j] == 'g' ==> j + 3 < prefix.len()
                && prefix[j + 3] != 'h'),
    ensures
        find(prefix + host, host) == Some(prefix.len() as int),
{
    reveal_strlit("github.com/");
    reveal_strlit("github.com:");
    let all = prefix + host;
    let n = prefix.len() as int;
    lemma_find_from(all, host, 0);
    assert(all.subrange(n, n + host.len()) =~= host);
    assert(occurs_at(all, host, n));
    assert forall|j: int| 0 <= j < n implies !occurs_at(all, host, j) by {
        if occurs_at(all, host, j) {
            let part = all.subrange(j, j + host.len());
            assert(part[0] == 'g' && part[3] == 'h');
            assert(all[j] == prefix[j]);
            assert(all[j + 3] == prefix[j + 3]);
        }
    }
}

/// The formats in which a repository on GitHub is written down all name it:
/// over HTTPS, SSH and Git, with and without `.git`, with a slash at the end
/// and with a path below the repository.
pub proof fn law_documented_formats(owner: Text, repo: Text, below: Text)
    requires
        owner.len() > 0,
        repo.len() > 0,
        slashless(owner),
        slashless(repo),
        !ends(repo, ".git"@),
        !holds("git@"@ + "github.com:"@ + (owner + "/"@ + repo + ".git"@), "github.com/"@),
    ensures
        github_repo("https://"@ + "github.com/"@ + (owner + "/"@ + repo + ""@)) == Some(
            (owner, repo),
        ),
        github_repo("https://"@ + "github.com/"@ + (owner + "/"@ + repo + ".git"@)) == Some(
            (owner, repo),
        ),
        github_repo("https://"@ + "github.com/"@ + (owner + "/"@ + repo + "/"@)) == Some(
            (owner, repo),
        ),
        github_repo("https://"@ + "github.com/"@ + (owner + "/"@ + repo + ("/tree/"@ + below)))
            == Some((owner, repo)),
        github_repo("git@"@ + "github.com:"@ + (owner + "/"@ + repo + ".git"@)) == Some(
            (owner, repo),
        ),
        github_repo("ssh://git@"@ + "github.com/"@ + (owner + "/"@ + repo + ""@)) == Some(
            (owner, repo),
        ),
        github_repo("git+https://"@ + "github.com/"@ + (owner + "/"@ + repo + ""@)) == Some(
            (owner, repo),
        ),
        github_repo("git://"@ + "github.com/"@ + (owner + "/"@ + repo + ".git"@)) == Some(
            (owner, repo),
        ),
{
    reveal_strlit("");
    reveal_strlit("/");
    reveal_strlit("/tree/");
    reveal_strlit("https://");
    reveal_strlit("git@");
    reveal_strlit("ssh://git@");
    reveal_strlit("git+https://");
    reveal_strlit("git://");
    lemma_plain_prefix("https://"@, "github.com/"@);
    lemma_plain_prefix("git@"@, "github.com:"@);
    lemma_plain_prefix("ssh://git@"@, "github.com/"@);
    lemma_plain_prefix("git+https://"@, "github.com/"@);
    lemma_plain_prefix("git://"@, "github.com/"@);
    law_path_names_repo(owner, repo, ""@);
    law_path_names_repo(owner, repo, ".git"@);
    law_path_names_repo(owner, repo, "/"@);
    law_path_names_repo(owner, repo, "/tree/"@ + below);
    let base = owner + "/"@ + repo;
    law_protocol_is_ignored("https://"@, base + ""@);
    law_protocol_is_ignored("https://"@, base + ".git"@);
    law_protocol_is_ignored("https://"@, base + "/"@);
    law_protocol_is_ignored("https://"@, base + ("/tree/"@ + below));
    law_protocol_is_ignored("git@"@, base + ".git"@);
    law_protocol_is_ignored("ssh://git@"@, base + ""@);
    law_protocol_is_ignored("git+https://"@, base + ""@);
    law_protocol_is_ignored("git://"@, base + ".git"@);
}

/// A URL that does not hold the host name of GitHub followed by a slash or a
/// colon names nothing there.
pub proof fn law_other_hosts_name_nothing(url: Text)
    requires
        !holds(url, "github.com/"@),
        !holds(url, "github.com:"@),
    ensures
        github_repo(url) is None,
{
    lemma_find_from(url, "github.com/"@, 0);
    lemma_find_from(url, "github.com:"@, 0);
}

/// Neither of the two parts that are read holds nothing.
pub proof fn law_names_hold_something(url: Text)
    ensures
        github_repo(url) matches Some(pair) ==> pair.0.len() > 0 && pair.1.len() > 0,
{
}

} // verus!
