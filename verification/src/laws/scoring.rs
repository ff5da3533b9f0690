//! How ages become a health and a reason.

use crate::health::{combined, reason, silence};
use crate::render::signed;
use crate::text::{begins, ends, group_holds, holds, Text};
use crate::types::{lemma_words, score, Health};
use vstd::prelude::*;

verus! {

/// Something of the given age has been quiet for over 730 days.
pub open spec fn over_two_years(age: Option<i64>) -> bool {
    age matches Some(d) && d > 730
}

/// Something of the given age has been quiet for 366 to 730 days.
pub open spec fn over_one_year(age: Option<i64>) -> bool {
    age matches Some(d) && 365 < d && d <= 730
}

/// Something of the given age has been quiet for 181 to 365 days.
pub open spec fn over_half_a_year(age: Option<i64>) -> bool {
    age matches Some(d) && 180 < d && d <= 365
}

/// Something of the given age was touched within 180 days.
pub open spec fn fresh_enough(age: Option<i64>) -> bool {
    age matches Some(d) && d <= 180
}

/// The word for the health of a package by the ages of its release and of its
/// last commit: unknown without a release date, by the release unless that is
/// fresh, and by the commit, where its date is known, if it is.
pub open spec fn fits(word: Text, release: Option<i64>, commit: Option<i64>) -> bool {
    &&& word == "unknown"@ <==> release is None
    &&& word == "dead"@ <==> over_two_years(release) || (fresh_enough(release) && over_two_years(
        commit,
    ))
    &&& word == "inactive"@ <==> over_one_year(release) || (fresh_enough(release) && over_one_year(
        commit,
    ))
    &&& word == "warning"@ <==> over_half_a_year(release) || (fresh_enough(release)
        && over_half_a_year(commit))
    &&& word == "healthy"@ <==> fresh_enough(release) && (commit is None || fresh_enough(commit))
    &&& word != "hijack"@
}

/// A text that says for how many days it has been quiet, and how bad that is.
pub open spec fn names_silence(t: Text, phrase: Text, days: int) -> bool {
    &&& begins(t, phrase)
    &&& holds(t, " in "@ + signed(days) + " days"@)
    &&& days > 730 ==> ends(t, " days — DEAD"@)
    &&& 365 < days <= 730 ==> ends(t, " days — INACTIVE"@)
    &&& days <= 365 ==> ends(t, " days — STALE"@)
}

/// A reason that speaks of the release unless that is fresh, else of the
/// commit, and is none where neither is old.
pub open spec fn gives_reason(
    r: Option<Text>,
    phrase: Text,
    release: Option<i64>,
    commit: Option<i64>,
) -> bool {
    let old_release = release matches Some(d) && d > 180;
    let old_commit = commit matches Some(c) && c > 180;
    &&& r is Some <==> old_release || old_commit
    &&& old_release ==> r is Some && names_silence(r->0, phrase, release->0 as int)
    &&& !old_release && old_commit ==> r is Some && names_silence(
        r->0,
        "No GitHub activity"@,
        commit->0 as int,
    )
}

/// Days become a health in four bands: up to 180, to 365, to 730, and beyond.
pub proof fn law_score_bands(days: int)
    ensures
        score(days) == Health::Dead <==> days > 730,
        score(days) == Health::Inactive <==> 365 < days <= 730,
        score(days) == Health::Warning <==> 180 < days <= 365,
        score(days) == Health::Healthy <==> days <= 180,
{
}

/// The health by release and commit is that of the documented bands.
pub proof fn law_health_bands(release: Option<i64>, commit: Option<i64>)
    ensures
        fits(combined(release, commit).word(), release, commit),
        combined(release, commit) == Health::Dead <==> over_two_years(release) || (fresh_enough(
            release,
        ) && over_two_years(commit)),
{
    lemma_words(combined(release, commit));
    lemma_words(Health::Healthy);
    lemma_words(Health::Warning);
    lemma_words(Health::Hijack);
    lemma_words(Health::Inactive);
    lemma_words(Health::Dead);
    lemma_words(Health::Unknown);
}

proof fn lemma_silence(phrase: Text, days: int)
    ensures
        silence(phrase, days) is Some <==> days > 180,
        silence(phrase, days) matches Some(t) ==> names_silence(t, phrase, days),
{
    broadcast use group_holds;

    let middle = " in "@ + signed(days) + " days"@;
    reveal_strlit(" days");
    reveal_strlit(" days — DEAD");
    reveal_strlit(" days — INACTIVE");
    reveal_strlit(" days — STALE");
    if days > 180 {
        let t = silence(phrase, days)->0;
        let tail = if days > 730 {
            " days — DEAD"@
        } else if days > 365 {
            " days — INACTIVE"@
        } else {
            " days — STALE"@
        };
        assert(tail =~= " days"@ + tail.skip(5));
        assert(t =~= phrase + middle + tail.skip(5));
        assert(holds(phrase + middle + tail.skip(5), middle));
        assert(t == phrase + " in "@ + signed(days) + tail);
    }
}

/// The reason by release and commit names the phrase, the days and the state.
pub proof fn law_reason_names_the_silence(
    phrase: Text,
    release: Option<i64>,
    commit: Option<i64>,
)
    ensures
        gives_reason(reason(phrase, release, commit), phrase, release, commit),
{
    if release is Some {
        lemma_silence(phrase, release->0 as int);
    }
    if commit is Some {
        lemma_silence("No GitHub activity"@, commit->0 as int);
    }
}

/// A silence is named where it lasts over 180 days, with the phrase, the days
/// and the state.
pub proof fn law_silence_is_named(phrase: Text, days: int)
    ensures
        silence(phrase, days) is Some <==> days > 180,
        silence(phrase, days) matches Some(t) ==> names_silence(t, phrase, days),
{
    lemma_silence(phrase, days);
}

} // verus!
