use gravedigger::health::{combine, too_quiet, why_stale};
use gravedigger::types::{grade, health_of_sign, score_from_days, Health};

#[test]
fn days_are_graded() {
    assert_eq!(grade(-3), Health::Healthy);
    assert_eq!(grade(180), Health::Healthy);
    assert_eq!(grade(181), Health::Warning);
    assert_eq!(grade(365), Health::Warning);
    assert_eq!(grade(366), Health::Inactive);
    assert_eq!(grade(730), Health::Inactive);
    assert_eq!(grade(731), Health::Dead);
    assert_eq!(score_from_days(0), "✅");
    assert_eq!(score_from_days(200), "⚠️");
    assert_eq!(score_from_days(400), "🔴");
    assert_eq!(score_from_days(4000), "🪦");
}

#[test]
fn the_release_decides_before_the_commit() {
    assert_eq!(combine(None, Some(1)), Health::Unknown);
    assert_eq!(combine(Some(200), Some(1000)), Health::Warning);
    assert_eq!(combine(Some(1000), Some(1)), Health::Dead);
    assert_eq!(combine(Some(1), Some(400)), Health::Inactive);
    assert_eq!(combine(Some(1), Some(1)), Health::Healthy);
    assert_eq!(combine(Some(1), None), Health::Healthy);
}

#[test]
fn reasons_name_the_silence() {
    assert_eq!(too_quiet("No release", 180), None);
    assert_eq!(too_quiet("No release", 181).unwrap(), "No release in 181 days — STALE");
    assert_eq!(too_quiet("No release", 366).unwrap(), "No release in 366 days — INACTIVE");
    assert_eq!(too_quiet("No release", 731).unwrap(), "No release in 731 days — DEAD");
    assert_eq!(why_stale("No release", Some(1), Some(2)), None);
    assert_eq!(why_stale("No release", Some(1), None), None);
    assert_eq!(why_stale("No release", None, None), None);
    assert_eq!(
        why_stale("No release", Some(1), Some(999)).unwrap(),
        "No GitHub activity in 999 days — DEAD"
    );
    assert_eq!(
        why_stale("No release", Some(200), Some(999)).unwrap(),
        "No release in 200 days — STALE"
    );
}

#[test]
fn a_reason_is_given_exactly_for_bad_health() {
    for release in [-1, 180, 181, 365, 366, 730, 731, 5000] {
        for commit in [None, Some(0), Some(180), Some(181), Some(731)] {
            let bad = combine(Some(release), commit) != Health::Healthy;
            assert_eq!(why_stale("x", Some(release), commit).is_some(), bad);
        }
    }
}

#[test]
fn signs_and_words_belong_together() {
    for h in [
        Health::Healthy,
        Health::Warning,
        Health::Hijack,
        Health::Inactive,
        Health::Dead,
        Health::Unknown,
    ] {
        assert_eq!(health_of_sign(h.sign()), h);
        assert_eq!(gravedigger::diff::string_to_emoji(h.name()), h.sign());
    }
}
