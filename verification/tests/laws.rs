use gravedigger::cache::init;
use gravedigger::clock::{days_since_on, days_since_unix_at, Moment, EPOCH_DAY};
use gravedigger::report::{count, Output, Ecosystem, report};
use gravedigger::sbom::{render, Sbom};
use gravedigger::sbom_diff::{
    compute_diff, parse_file, Affect, ComponentDelta, ComponentRaw, Parsed, Property, Rating,
    SbomRoot, VulnDelta, VulnRaw,
};
use gravedigger::scan::{is_shown, Options, Outcome};
use gravedigger::types::{Health, PackageResult, Summary, VulnInfo};

const TEXT: Options = Options {
    stale_only: false,
    output_json: false,
    ci: false,
    licenses: false,
    verbose: false,
    sbom: false,
};

#[test]
fn a_day_later_every_date_is_a_day_older() {
    for s in ["2024-01-01", "1999-12-31T23:59:59Z", "2030-06-15"] {
        let today = EPOCH_DAY + 20_000;
        let age = days_since_on(s, today).unwrap();
        assert_eq!(days_since_on(s, today + 1), Some(age + 1));
    }
    let early = Moment { secs: 1_000_000, nanos: 0 };
    let late = Moment { secs: 2_000_000, nanos: 0 };
    for ts in [0, 999_999, 1_500_000, 3_000_000] {
        assert!(days_since_unix_at(early, ts) <= days_since_unix_at(late, ts));
    }
}

#[test]
fn keys_share_a_file_only_by_their_slashes() {
    let cache = init(Some("/c".into()), None);
    assert_eq!(cache.path("osv", "a/b"), cache.path("osv", "a_b"));
    assert_ne!(cache.path("osv", "a/b"), cache.path("osv", "a/c"));
    assert_ne!(cache.path("osv", "a"), cache.path("npm", "a"));
    assert_eq!(cache.path("osv", "../../etc/passwd"), "/c/gravedigger/osv/.._.._etc_passwd.json");
    let get = |hours| cache.get(Some(4_000), Some("x".to_string()), hours);
    assert_eq!(get(1), None);
    assert!(get(2).is_some() && get(3).is_some() && get(1_000_000).is_some());
}

fn outcome(health: Health, cves: usize) -> Outcome {
    Outcome { health, cves, license: None, result: None, line: None }
}

#[test]
fn counts_add_up_in_any_order() {
    let mut all = vec![
        outcome(Health::Dead, 2),
        outcome(Health::Healthy, 0),
        outcome(Health::Hijack, 1),
        outcome(Health::Dead, 0),
        outcome(Health::Unknown, 0),
    ];
    let sum = count(&all);
    assert_eq!(
        sum,
        Summary { healthy: 1, warning: 0, hijack: 1, inactive: 0, dead: 2, unknown: 1, cves: 3 }
    );
    all.rotate_left(2);
    assert_eq!(count(&all), sum);
    let total =
        sum.healthy + sum.warning + sum.hijack + sum.inactive + sum.dead + sum.unknown;
    assert_eq!(total as usize, all.len());
}

#[test]
fn ordering_keeps_every_line() {
    let healths = [
        Health::Unknown,
        Health::Dead,
        Health::Healthy,
        Health::Hijack,
        Health::Inactive,
        Health::Warning,
        Health::Healthy,
    ];
    let all: Vec<Outcome> = healths
        .iter()
        .enumerate()
        .map(|(i, h)| Outcome { line: Some(format!("{}", i)), ..outcome(*h, 0) })
        .collect();
    let opts = Options { verbose: true, ..TEXT };
    match report(Ecosystem::Cargo, opts, &all).output {
        Output::Text(l) => assert_eq!(l[..7], ["2", "6", "5", "3", "4", "1", "0"]),
        other => panic!("{:?}", other),
    }
    match report(Ecosystem::Go, opts, &all).output {
        Output::Text(l) => assert_eq!(l[..7], ["0", "1", "2", "3", "4", "5", "6"]),
        other => panic!("{:?}", other),
    }
}

#[test]
fn only_sound_packages_are_left_out() {
    let stale = Options { stale_only: true, ..TEXT };
    assert!(!is_shown(stale, Health::Healthy, 0));
    assert!(!is_shown(stale, Health::Hijack, 0));
    assert!(is_shown(stale, Health::Healthy, 1));
    assert!(is_shown(stale, Health::Warning, 0));
    assert!(is_shown(stale, Health::Unknown, 0));
    assert!(is_shown(TEXT, Health::Healthy, 0));
}

fn package(name: &str, health: &str, vulns: &[&str]) -> PackageResult {
    PackageResult {
        name: name.into(),
        version: "1.0".into(),
        health: health.into(),
        description: None,
        latest_version: None,
        stale_reason: None,
        vulns: vulns
            .iter()
            .map(|id| VulnInfo {
                id: id.to_string(),
                summary: None,
                severity: None,
                aliases: vec![],
            })
            .collect(),
        provenance: None,
    }
}

fn read_back(s: Sbom) -> Parsed {
    let root = SbomRoot {
        components: s
            .components
            .into_iter()
            .map(|c| ComponentRaw {
                bom_ref: c.bom_ref,
                name: c.name,
                version: c.version,
                purl: c.purl,
                properties: c
                    .properties
                    .into_iter()
                    .map(|p| Property { name: p.name, value: p.value })
                    .collect(),
            })
            .collect(),
        vulnerabilities: s
            .vulnerabilities
            .into_iter()
            .map(|v| VulnRaw {
                id: v.id,
                description: v.description,
                ratings: vec![Rating { severity: v.severity }],
                affects: vec![Affect { affects_ref: v.affects_ref }],
            })
            .collect(),
    };
    parse_file("f", &Ok(Ok(root)))
}

#[test]
fn a_bill_that_is_read_back_says_the_same() {
    let pkgs = vec![package("a", "dead", &["V"]), package("b", "healthy", &["W", "X"])];
    let (components, vulns) = read_back(render("npm", &pkgs)).unwrap();
    assert_eq!(components.get("pkg:npm/a@1.0").unwrap().health, "dead");
    assert_eq!(components.get("pkg:npm/b@1.0").unwrap().health, "healthy");
    assert_eq!(vulns.get("V").unwrap().purl, "pkg:npm/a@1.0");
    assert_eq!(vulns.get("X").unwrap().purl, "pkg:npm/b@1.0");
    assert_eq!(vulns.get("X").unwrap().severity, "UNKNOWN");
}

#[test]
fn exchanged_bills_swap_their_deltas() {
    let old = read_back(render("go", &[package("a", "dead", &["V", "K"])])).unwrap();
    let new = read_back(render("go", &[package("b", "dead", &["K", "W"])])).unwrap();
    let (c, v) = compute_diff(&old.0, &new.0, &old.1, &new.1);
    let (c2, v2) = compute_diff(&new.0, &old.0, &new.1, &old.1);
    let added = |d: &[ComponentDelta]| -> Vec<String> {
        d.iter()
            .filter_map(|d| if let ComponentDelta::Added(c) = d { Some(c.name.clone()) } else { None })
            .collect()
    };
    let removed = |d: &[ComponentDelta]| -> Vec<String> {
        d.iter()
            .filter_map(|d| if let ComponentDelta::Removed(c) = d { Some(c.name.clone()) } else { None })
            .collect()
    };
    assert_eq!(added(&c), vec!["b"]);
    assert_eq!(added(&c), removed(&c2));
    assert_eq!(removed(&c), added(&c2));
    let ids = |d: &[VulnDelta], fresh: bool| -> Vec<String> {
        d.iter()
            .filter_map(|d| match d {
                VulnDelta::New(v) if fresh => Some(v.id.clone()),
                VulnDelta::Resolved(v) if !fresh => Some(v.id.clone()),
                _ => None,
            })
            .collect()
    };
    assert_eq!(ids(&v, true), vec!["W"]);
    assert_eq!(ids(&v, true), ids(&v2, false));
    assert_eq!(ids(&v, false), ids(&v2, true));
    assert_eq!(v.len(), 3);
}
