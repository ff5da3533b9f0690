//! How the age of a release and the age of a commit become a state of health
//! and the reason for it.

use crate::api::{GitHubRepo, GitHubView};
use crate::clock::{age, days_since_on};
use crate::render::{signed, signed_number};
use crate::text::Text;
use crate::types::{grade, score, severity, Health};
use vstd::prelude::*;

verus! {

/// The days from the last push to a repository to `today`, where the
/// repository is known and its date can be read.
pub open spec fn push_age(gh: Option<GitHubView>, today: i32) -> Option<i64> {
    match gh {
        Some(repo) => age(repo.pushed_at, today),
        None => None,
    }
}

/// The health of a package by the days since its last release and since the
/// last commit: unknown without a release date, else that of the release;
/// only where that is good does the commit, where its date is known, decide.
pub open spec fn combined(release: Option<i64>, commit: Option<i64>) -> Health {
    match release {
        None => Health::Unknown,
        Some(d) => if score(d as int) != Health::Healthy {
            score(d as int)
        } else {
            match commit {
                Some(c) => score(c as int),
                None => Health::Healthy,
            }
        },
    }
}

/// What is said of a silence of `days` days: nothing up to 180 of them.
pub open spec fn silence(phrase: Text, days: int) -> Option<Text> {
    if days > 730 {
        Some(phrase + " in "@ + signed(days) + " days — DEAD"@)
    } else if days > 365 {
        Some(phrase + " in "@ + signed(days) + " days — INACTIVE"@)
    } else if days > 180 {
        Some(phrase + " in "@ + signed(days) + " days — STALE"@)
    } else {
        None
    }
}

/// What is said of the release, where anything is, else the silence since the
/// commit.
pub open spec fn release_or_commit(of_release: Option<Text>, commit: Option<i64>) -> Option<Text> {
    if of_release is Some {
        of_release
    } else {
        match commit {
            Some(c) => silence("No GitHub activity"@, c as int),
            None => None,
        }
    }
}

/// The silence since the release if it is too long, else that since the
/// commit.
pub open spec fn reason(phrase: Text, release: Option<i64>, commit: Option<i64>) -> Option<Text> {
    release_or_commit(
        match release {
            Some(d) => silence(phrase, d as int),
            None => None,
        },
        commit,
    )
}

/// The days from the last push to a repository to `today`, where the
/// repository is known and its date can be read.
pub fn days_since_push(gh: Option<&GitHubRepo>, today: i32) -> (r: Option<i64>)
    ensures
        r == push_age(gh.deep_view(), today),
{
    match gh {
        Some(repo) => days_since_on(repo.pushed_at.as_str(), today),
        None => None,
    }
}

/// The health of a package by the days since its last release and since the
/// last commit.
pub fn combine(release: Option<i64>, commit: Option<i64>) -> (r: Health)
    ensures
        r == combined(release, commit),
{
    match release {
        None => Health::Unknown,
        Some(d) => {
            let of_release = grade(d);
            if of_release != Health::Healthy {
                return of_release;
            }
            match commit {
                Some(c) => grade(c),
                None => Health::Healthy,
            }
        },
    }
}

/// What is said of a silence of `days` days: nothing up to 180 of them.
pub fn too_quiet(phrase: &str, days: i64) -> (r: Option<String>)
    ensures
        r.deep_view() == silence(phrase@, days as int),
{
    let mut text = phrase.to_owned();
    text.append(" in ");
    text.append(signed_number(days).as_str());
    if days > 730 {
        text.append(" days — DEAD");
    } else if days > 365 {
        text.append(" days — INACTIVE");
    } else if days > 180 {
        text.append(" days — STALE");
    } else {
        return None;
    }
    Some(text)
}

/// What is said of the release, where anything is, else the silence since the
/// commit.
pub fn first_reason(of_release: Option<String>, commit: Option<i64>) -> (r: Option<String>)
    ensures
        r.deep_view() == release_or_commit(of_release.deep_view(), commit),
{
    if of_release.is_some() {
        return of_release;
    }
    match commit {
        Some(c) => too_quiet("No GitHub activity", c),
        None => None,
    }
}

/// Why a package is not healthy: the silence since the release if it is too
/// long, else that since the commit.
pub fn why_stale(phrase: &str, release: Option<i64>, commit: Option<i64>) -> (r: Option<String>)
    ensures
        r.deep_view() == reason(phrase@, release, commit),
{
    let of_release = match release {
        Some(d) => too_quiet(phrase, d),
        None => None,
    };
    first_reason(of_release, commit)
}

// ── Laws ─────────────────────────────────────────────────────────────

/// Where the date of the release is known, a reason is given exactly for a
/// package that is not healthy.
pub proof fn law_reason_iff_not_healthy(phrase: Text, release: Option<i64>, commit: Option<i64>)
    requires
        release is Some,
    ensures
        reason(phrase, release, commit) is Some <==> combined(release, commit) != Health::Healthy,
{
}

/// A healthy package never has a reason, and one without a commit date is
/// as healthy as its release: no repository is not a problem.
pub proof fn law_no_repository_is_no_problem(phrase: Text, release: Option<i64>)
    ensures
        release matches Some(d) ==> combined(release, None) == score(d as int),
        combined(release, None) == Health::Healthy ==> reason(phrase, release, None) is None,
{
}

/// Of two packages with the same release the one with the older commit is
/// never in better health, nor, where no commit is known, the one with the
/// older release.
pub proof fn law_older_is_never_healthier(release: Option<i64>, a: i64, b: i64)
    requires
        a <= b,
    ensures
        severity(combined(release, Some(a))) <= severity(combined(release, Some(b))),
        severity(combined(Some(a), None)) <= severity(combined(Some(b), None)),
{
}

} // verus!
