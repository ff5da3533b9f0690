//! Lockfiles: which dependencies they name.

use crate::api::{slashless, GitHubView};
use crate::golang::{
    dep_in, hijack, law_requirement_is_read, meaningful, module_repository, requirement, writable,
    written,
};
use crate::laws::texts::{law_after_the_last, law_first_piece, law_starts_are_stripped, law_words};
use crate::npm::{lock_packages, npm_deps, NpmLock};
use crate::pypi::{pinned, poetry_packages, PoetryLock};
use crate::text::{after_last, begins, find_back, holds, is_space, occurs_at, words, Text};
use vstd::prelude::*;

verus! {

// ── npm ──────────────────────────────────────────────────────────────

/// The packages of an npm lockfile are listed in its order: a package comes to
/// those in front of it, unless it is the project itself, has no version, or
/// is already there.
pub proof fn law_npm_packages_in_order(all: Seq<(Text, Option<Text>)>, path: Text, version: Text)
    ensures
        ({
            let before = lock_packages(all);
            let dep = (after_last(path, "node_modules/"@), version);
            let after = lock_packages(all.push((path, Some(version))));
            &&& lock_packages(Seq::empty()).len() == 0
            &&& path.len() > 0 && !before.contains(dep) ==> after == before.push(dep)
            &&& path.len() == 0 || before.contains(dep) ==> after == before
            &&& lock_packages(all.push((path, None))) == before
        }),
{
    assert(all.push((path, Some(version))).drop_last() =~= all);
    assert(all.push((path, None::<Text>)).drop_last() =~= all);
}

proof fn lemma_found_back(s: Text, p: Text, at: int, i: int)
    requires
        0 <= at <= i,
        occurs_at(s, p, at),
        forall|j: int| at < j <= i ==> !occurs_at(s, p, j),
    ensures
        find_back(s, p, i) == Some(at),
    decreases i - at,
{
    if at < i {
        assert(!occurs_at(s, p, i));
        lemma_found_back(s, p, at, i - 1);
    }
}

proof fn lemma_after_separator(front: Text, sep: Text, name: Text)
    requires
        sep.len() > 0,
        forall|k: int| 0 < k < sep.len() ==> #[trigger] sep[k] != sep[0],
        !holds(name, sep),
    ensures
        after_last(front + sep + name, sep) == name,
{
    let s = front + sep + name;
    let at = front.len() as int;
    let n = sep.len() as int;
    assert(s.subrange(at, at + n) =~= sep);
    assert forall|j: int| at < j <= s.len() - n implies !occurs_at(s, sep, j) by {
        if occurs_at(s, sep, j) {
            let x = s.subrange(j, j + n);
            if j < at + n {
                assert(x[0] == s[j]);
                assert(s[j] == sep[j - at]);
            } else {
                let k = j - at - n;
                assert(name.subrange(k, k + n) =~= x);
                assert(occurs_at(name, sep, k));
            }
        }
    }
    lemma_found_back(s, sep, at, s.len() - n);
    assert(s.skip(at + n) =~= name);
}

/// A package is named by what stands in its path after the last
/// `node_modules/`, wherever it is nested.
pub proof fn law_npm_path_names_the_package(nested: Text, name: Text)
    requires
        !holds(name, "node_modules/"@),
    ensures
        after_last(nested + "node_modules/"@ + name, "node_modules/"@) == name,
        after_last(name, "node_modules/"@) == name,
{
    let sep = "node_modules/"@;
    lemma_separator();
    lemma_after_separator(nested, sep, name);
    law_after_the_last(name, sep);
}

proof fn lemma_separator()
    ensures
        "node_modules/"@.len() == 13,
        forall|k: int| 0 < k < 13 ==> #[trigger] "node_modules/"@[k] != "node_modules/"@[0],
{
    reveal_strlit("node_modules/");
}

/// The packages of a lockfile are read from `packages` where it has them, else
/// from `dependencies`, where all count.
pub proof fn law_npm_lockfile(lock: NpmLock)
    ensures
        lock.packages is Some ==> npm_deps(lock) == lock_packages(lock.packages->0.deep_view()),
        lock.packages is None && lock.dependencies is Some ==> npm_deps(lock)
            == lock.dependencies->0.deep_view(),
        lock.packages is None && lock.dependencies is None ==> npm_deps(lock).len() == 0,
{
}

// ── Python ───────────────────────────────────────────────────────────

/// Every package of a `poetry.lock` is listed in its order, with its version.
pub proof fn law_poetry_lock(lock: PoetryLock, i: int)
    ensures
        lock.package is None ==> poetry_packages(lock).len() == 0,
        lock.package matches Some(all) ==> poetry_packages(lock).len() == all@.len() && (0 <= i
            < all@.len() ==> poetry_packages(lock)[i] == (all@[i].name@, all@[i].version@)),
{
}

/// Every package of a list of a `Pipfile.lock` is listed in its order, with the
/// version that it is pinned to.
pub proof fn law_pinned_packages(all: Seq<(Text, Text)>, name: Text, version: Text)
    requires
        !begins(version, "=="@),
    ensures
        pinned(None).len() == 0,
        pinned(Some(all)).len() == all.len(),
        pinned(Some(all.push((name, "=="@ + version)))) == pinned(Some(all)).push((name, version)),
        pinned(Some(all.push((name, version)))) == pinned(Some(all)).push((name, version)),
{
    reveal_strlit("==");
    law_starts_are_stripped(version, "=="@);
    assert(pinned(Some(all.push((name, "=="@ + version)))) =~= pinned(Some(all)).push(
        (name, version),
    ));
    assert(pinned(Some(all.push((name, version)))) =~= pinned(Some(all)).push((name, version)));
}

// ── Go ───────────────────────────────────────────────────────────────

/// Of a `go.mod`, empty lines, comments, and the lines that name the module
/// and the version of Go require nothing.
pub proof fn law_lines_without_requirements(line: Text, in_block: bool)
    ensures
        line.len() == 0 ==> dep_in(line, in_block) is None,
        begins(line, "//"@) ==> dep_in(line, in_block) is None,
        begins(line, "module "@) ==> dep_in(line, in_block) is None,
        begins(line, "go "@) ==> dep_in(line, in_block) is None,
        !in_block && !begins(line, "require "@) ==> dep_in(line, in_block) is None,
{
}

proof fn lemma_meaningful_parts(a: Seq<Text>, b: Seq<Text>)
    ensures
        meaningful(a + b) == meaningful(a) + meaningful(b),
    decreases b.len(),
{
    if b.len() == 0 {
        assert(a + b =~= a);
        assert(meaningful(a) + meaningful(b) =~= meaningful(a));
    } else {
        lemma_meaningful_parts(a, b.drop_last());
        assert((a + b).drop_last() =~= a + b.drop_last());
        assert(meaningful(a + b) =~= meaningful(a) + meaningful(b));
    }
}

/// A line that requires one module is read as that module and its version, in
/// front of a comment too.
pub proof fn law_single_requirement(name: Text, version: Text, rest: Text, in_block: bool)
    requires
        writable(name, version),
        rest.len() > 0 ==> is_space(rest[0]),
    ensures
        dep_in("require"@ + " "@ + written(name, version, rest), in_block) == Some((name, version)),
{
    reveal_strlit("require");
    reveal_strlit(" ");
    reveal_strlit(" v");
    reveal_strlit("require ");
    reveal_strlit("require (");
    reveal_strlit(")");
    reveal_strlit("//");
    reveal_strlit("module ");
    reveal_strlit("go ");
    let line = written(name, version, rest);
    let s = "require"@ + " "@ + line;
    assert(s[0] == 'r');
    assert(s.subrange(0, 8) =~= "require "@);
    if begins(s, "//"@) {
        assert(s.subrange(0, 2)[0] == s[0]);
    }
    if begins(s, "module "@) {
        assert(s.subrange(0, 7)[0] == s[0]);
    }
    if begins(s, "go "@) {
        assert(s.subrange(0, 3)[0] == s[0]);
    }
    assert(s.len() > 9);
    assert(" "@ =~= seq![' ']);
    law_words("require"@, ' ', line);
    let first = seq!["require"@];
    lemma_meaningful_parts(first, words(line));
    assert(first.drop_last() =~= Seq::<Text>::empty());
    assert(meaningful(Seq::empty()) =~= Seq::<Text>::empty());
    assert(first.last() == "require"@);
    assert(meaningful(first) =~= Seq::<Text>::empty());
    assert(meaningful(first) + meaningful(words(line)) =~= meaningful(words(line)));
    law_requirement_is_read(name, version, rest);
    assert(requirement(s) == requirement(line));
}

/// A repository on GitHub is named by the path of a module: the owner and the
/// repository are the two parts after the host.
pub proof fn law_module_names_its_repository(owner: Text, repo: Text, below: Text)
    requires
        slashless(owner),
        slashless(repo),
    ensures
        module_repository("github.com"@ + "/"@ + (owner + "/"@ + repo)) == Some((owner, repo)),
        module_repository("github.com"@ + "/"@ + (owner + "/"@ + (repo + "/"@ + below))) == Some(
            (owner, repo),
        ),
{
    reveal_strlit("/");
    reveal_strlit("github.com");
    reveal_strlit("github.com/");
    lemma_no_slash(owner);
    lemma_no_slash(repo);
    lemma_no_slash("github.com"@);
    assert("github.com/"@ =~= "github.com"@ + "/"@);
    let short = owner + "/"@ + repo;
    let long = owner + "/"@ + (repo + "/"@ + below);
    law_first_piece("github.com"@, "/"@, short);
    law_first_piece(owner, "/"@, repo);
    law_first_piece(repo, "/"@, below);
    law_first_piece("github.com"@, "/"@, long);
    law_first_piece(owner, "/"@, repo + "/"@ + below);
    assert(("github.com"@ + "/"@ + short).subrange(0, 11) =~= "github.com/"@);
    assert(("github.com"@ + "/"@ + long).subrange(0, 11) =~= "github.com/"@);
}

proof fn lemma_no_slash(s: Text)
    requires
        slashless(s),
    ensures
        !holds(s, "/"@),
{
    reveal_strlit("/");
    if holds(s, "/"@) {
        let i = choose|i: int| occurs_at(s, "/"@, i);
        assert(s.subrange(i, i + 1)[0] == s[i]);
    }
}

/// A module on GitHub may be hijacked where its repository is archived or not
/// found, and for no other answer; a module elsewhere never counts as such.
pub proof fn law_hijacked_modules(path: Text, repo: GitHubView, error: Text)
    ensures
        ({
            let on_github = module_repository(path) is Some;
            &&& hijack(path, None) is None
            &&& hijack(path, Some(Ok(repo))) is Some <==> on_github && repo.archived
            &&& hijack(path, Some(Err(error))) is Some <==> on_github && holds(error, "404"@)
            &&& hijack(path, Some(Ok(repo))) is Some ==> hijack(path, Some(Ok(repo)))->0
                == "Repo is archived — may be hijacked"@
            &&& hijack(path, Some(Err(error))) is Some ==> hijack(path, Some(Err(error)))->0
                == "GitHub repo not found (404) — module path may be hijacked"@
        }),
{
}

} // verus!
