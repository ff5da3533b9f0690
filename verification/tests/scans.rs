use gravedigger::api::GitHubRepo;
use gravedigger::cargo::{
    crate_stale_reason_on, crate_url, get_crate_health, get_crate_stale_reason, parse_cargo_lock, repository_of,
    scan_cargo_deps, scan_cargo_deps_on, scan_single, scan_single_on, CargoLock, CrateData,
    CrateResponse, CrateScan, LockPackage,
};
use gravedigger::clock::EPOCH_DAY;
use gravedigger::report::{Output, Report};
use gravedigger::scan::Options;
use gravedigger::types::VulnInfo;

/// 1 January 2024
const TODAY: i32 = EPOCH_DAY + 19_723;

const TEXT: Options = Options {
    stale_only: false,
    output_json: false,
    ci: false,
    licenses: false,
    verbose: false,
    sbom: false,
};

fn data(updated_at: &str) -> CrateData {
    CrateData {
        name: "x".into(),
        max_stable_version: "9.9.9".into(),
        updated_at: updated_at.into(),
        downloads: 658_400_000,
        recent_downloads: None,
        repository: Some("https://github.com/o/r".into()),
        description: Some("Does things. And more.".into()),
        license: Some("MIT".into()),
    }
}

fn github(pushed_at: &str) -> GitHubRepo {
    GitHubRepo {
        stars: 1,
        forks: 2,
        open_issues: 3,
        pushed_at: pushed_at.into(),
        archived: false,
        watchers: 4,
    }
}

fn scan(name: &str, updated_at: &str, pushed_at: Option<&str>, vulns: Vec<VulnInfo>) -> CrateScan {
    CrateScan {
        name: name.into(),
        version: "1.0.0".into(),
        fetched: Ok(CrateResponse { crate_data: data(updated_at) }),
        github: pushed_at.map(github),
        vulns,
    }
}

fn failed(name: &str) -> CrateScan {
    CrateScan {
        name: name.into(),
        version: "1.0.0".into(),
        fetched: Err("Network error: down".into()),
        github: None,
        vulns: vec![],
    }
}

fn vuln(id: &str, alias: Option<&str>, severity: Option<&str>) -> VulnInfo {
    VulnInfo {
        id: id.into(),
        summary: None,
        severity: severity.map(String::from),
        aliases: alias.map(String::from).into_iter().collect(),
    }
}

fn lines(r: &Report) -> Vec<String> {
    match &r.output {
        Output::Text(l) => l.clone(),
        _ => panic!("not text"),
    }
}

#[test]
fn only_registry_packages_are_dependencies() {
    let lock = CargoLock {
        version: 3,
        package: vec![
            LockPackage { name: "own".into(), version: "0.1.0".into(), source: None },
            LockPackage {
                name: "serde".into(),
                version: "1.0.0".into(),
                source: Some("registry+https://github.com/rust-lang/crates.io-index".into()),
            },
            LockPackage {
                name: "forked".into(),
                version: "2.0.0".into(),
                source: Some("git+https://github.com/o/r".into()),
            },
            LockPackage {
                name: "log".into(),
                version: "0.4.0".into(),
                source: Some("registry+x".into()),
            },
        ],
    };
    assert_eq!(
        parse_cargo_lock(Ok(lock)),
        Ok(vec![("serde".into(), "1.0.0".into()), ("log".into(), "0.4.0".into())])
    );
    assert_eq!(
        parse_cargo_lock(Err("no table".into())),
        Err("Failed to parse Cargo.lock: no table".into())
    );
}

#[test]
fn a_crate_names_its_repository() {
    assert_eq!(repository_of(&data("")), Some(("o".into(), "r".into())));
    let mut none = data("");
    none.repository = None;
    assert_eq!(repository_of(&none), None);
    assert_eq!(crate_url("serde"), "https://crates.io/api/v1/crates/serde");
}

#[test]
fn health_of_a_crate_as_of_today() {
    assert_eq!(get_crate_health(&data("2001-01-01"), None), "🪦");
    assert_eq!(get_crate_health(&data("someday"), None), "❓");
    assert_eq!(get_crate_health(&data("9999-01-01"), Some(&github("2001-01-01"))), "🪦");
    assert_eq!(get_crate_health(&data("9999-01-01"), Some(&github("?"))), "✅");
    assert_eq!(get_crate_health(&data("9999-01-01"), None), "✅");
    assert_eq!(get_crate_stale_reason(&data("9999-01-01"), None), None);
    assert!(get_crate_stale_reason(&data("2001-01-01"), None)
        .unwrap()
        .starts_with("No release on crates.io in "));
}

#[test]
fn a_record_holds_what_was_found() {
    let r = scan_single_on(&scan("a", "2023-01-01", None, vec![vuln("V", None, None)]), TODAY);
    assert_eq!(r.name, "a");
    assert_eq!(r.version, "1.0.0");
    assert_eq!(r.health, "warning");
    assert_eq!(r.description.as_deref(), Some("Does things. And more."));
    assert_eq!(r.latest_version.as_deref(), Some("9.9.9"));
    assert_eq!(
        r.stale_reason.as_deref(),
        Some("No release on crates.io in 365 days")
    );
    assert_eq!(r.vulns.len(), 1);
    assert_eq!(r.provenance, None);

    let f = scan_single(&failed("b"));
    assert_eq!(f.health, "unknown");
    assert_eq!(f.stale_reason.as_deref(), Some("Network error: down"));
    assert_eq!(f.latest_version, None);
}

#[test]
fn text_is_ordered_by_health_and_summed_up() {
    let deps = vec![
        scan("dead", "2020-01-01", None, vec![]),
        failed("lost"),
        scan("fine", "2023-12-31", Some("2023-12-31"), vec![]),
        scan("slow", "2023-12-31", Some("2023-06-01"), vec![]),
        scan("idle", "2022-06-01", None, vec![]),
    ];
    let r = scan_cargo_deps_on(TEXT, &deps, TODAY);
    assert_eq!(r.exit_code, 0);
    assert_eq!(
        lines(&r),
        vec![
            "\x1b[32m✅\x1b[0m fine v1.0.0 — Does things, downloads: 658.4M".to_string(),
            "\x1b[33m⚠️\x1b[0m slow v1.0.0 — Does things, downloads: 658.4M \x1b[90m— 1 days ago\x1b[0m".into(),
            "\x1b[31m🔴\x1b[0m idle v1.0.0 — Does things, downloads: 658.4M \x1b[90m— 579 days ago\x1b[0m".into(),
            "\x1b[31m🪦\x1b[0m dead v1.0.0 — Does things, downloads: 658.4M \x1b[90m— 1461 days ago\x1b[0m".into(),
            "".into(),
            "\x1b[90m❓ 1 packages failed to fetch — run with --verbose to see details\x1b[0m".into(),
            "".into(),
            "\x1b[1m📊 Summary:\x1b[0m \x1b[32m✅ 1  \x1b[33m⚠️ 1  \x1b[33m🚩 0  \x1b[31m🔴 1  \x1b[31m🪦 1  \x1b[90m❓ 1\x1b[0m".into(),
        ]
    );
}

#[test]
fn verbose_shows_what_failed() {
    let mut opts = TEXT;
    opts.verbose = true;
    let deps = vec![failed("lost"), scan("fine", "2023-12-31", None, vec![])];
    let l = lines(&scan_cargo_deps_on(opts, &deps, TODAY));
    assert_eq!(l[1], "\x1b[90m❓ lost v1.0.0 — fetch failed: Network error: down\x1b[0m");
    // without anything else there is no notice either
    let l = lines(&scan_cargo_deps_on(TEXT, &vec![failed("lost")], TODAY));
    assert_eq!(l.len(), 2);
}

#[test]
fn stale_shows_only_what_is_worth_a_look() {
    let mut opts = TEXT;
    opts.stale_only = true;
    let deps = vec![
        scan("fine", "2023-12-31", None, vec![]),
        scan("holed", "2023-12-31", None, vec![vuln("GHSA-1", Some("CVE-1"), Some("HIGH"))]),
        scan("dead", "2020-01-01", None, vec![]),
        failed("lost"),
    ];
    let l = lines(&scan_cargo_deps_on(opts, &deps, TODAY));
    assert_eq!(
        l[..2],
        vec![
            "\x1b[32m✅\x1b[0m holed v1.0.0 — Does things, downloads: 658.4M\n   \x1b[31m🚨 1 CVE: CVE-1\x1b[0m".to_string(),
            "\x1b[31m🪦\x1b[0m dead v1.0.0 — Does things, downloads: 658.4M\n   \x1b[90m└─ No release on crates.io in 1461 days — DEAD\x1b[0m \x1b[90m— 1461 days ago\x1b[0m".into(),
        ]
    );
    assert_eq!(l.len(), 4);
}

#[test]
fn vulnerabilities_are_named_and_colored() {
    let four = vec![
        vuln("A", Some("CVE-1"), Some("LOW")),
        vuln("B", None, None),
        vuln("C", Some("CVE-3"), Some("MODERATE")),
        vuln("D", Some("CVE-4"), Some("HIGH")),
    ];
    // the last severity in the order of texts gives the color
    let l = lines(&scan_cargo_deps_on(TEXT, &vec![scan("x", "2023-12-31", None, four)], TODAY));
    assert!(l[0].ends_with("\n   \x1b[33m🚨 4 CVEs: CVE-1, B, CVE-3, ...\x1b[0m"));
    let plain = vec![vuln("B", None, None)];
    let l = lines(&scan_cargo_deps_on(TEXT, &vec![scan("x", "2023-12-31", None, plain)], TODAY));
    assert!(l[0].ends_with("\n   \x1b[90m🚨 1 CVE: B\x1b[0m"));
}

#[test]
fn ci_fails_on_dead_or_vulnerable() {
    let mut opts = TEXT;
    opts.ci = true;
    let code = |deps: Vec<CrateScan>| scan_cargo_deps_on(opts, &deps, TODAY).exit_code;
    assert_eq!(code(vec![]), 0);
    assert_eq!(code(vec![scan("a", "2022-06-01", None, vec![]), failed("b")]), 0);
    assert_eq!(code(vec![scan("a", "2020-01-01", None, vec![])]), 1);
    assert_eq!(code(vec![scan("a", "2023-12-31", None, vec![vuln("V", None, None)])]), 1);
    let dead = vec![scan("a", "2020-01-01", None, vec![])];
    assert_eq!(scan_cargo_deps_on(TEXT, &dead, TODAY).exit_code, 0);
}

#[test]
fn json_holds_records_and_counts() {
    let mut opts = TEXT;
    opts.output_json = true;
    opts.stale_only = true;
    let deps = vec![
        scan("fine", "2023-12-31", None, vec![]),
        scan("dead", "2020-01-01", None, vec![vuln("V", None, None), vuln("W", None, None)]),
        failed("lost"),
    ];
    match scan_cargo_deps_on(opts, &deps, TODAY).output {
        Output::Json(o) => {
            assert_eq!(o.ecosystem, "cargo");
            let names: Vec<&str> = o.packages.iter().map(|p| p.name.as_str()).collect();
            assert_eq!(names, vec!["dead", "lost"]);
            assert_eq!(o.summary.healthy, 1);
            assert_eq!(o.summary.dead, 1);
            assert_eq!(o.summary.unknown, 1);
            assert_eq!(o.summary.cves, 2);
            assert_eq!(o.summary.warning + o.summary.hijack + o.summary.inactive, 0);
        }
        _ => panic!("not JSON"),
    }
}

#[test]
fn a_bill_of_materials_comes_before_json() {
    let mut opts = TEXT;
    opts.output_json = true;
    opts.sbom = true;
    match scan_cargo_deps(opts, &vec![scan("a", "2023-12-31", None, vec![])]).output {
        Output::Sbom(p) => assert_eq!(p[0].name, "a"),
        _ => panic!("no bill of materials"),
    }
}

#[test]
fn licenses_are_counted() {
    let mut opts = TEXT;
    opts.licenses = true;
    let mut bare = scan("c", "2023-12-31", None, vec![]);
    if let Ok(r) = &mut bare.fetched {
        r.crate_data.license = None;
    }
    let deps = vec![
        scan("a", "2023-12-31", None, vec![]),
        bare,
        scan("b", "2023-12-31", None, vec![]),
        failed("d"),
    ];
    let l = lines(&scan_cargo_deps_on(opts, &deps, TODAY));
    let n = l.len();
    assert_eq!(l[n - 4..], ["", "📜 Licenses:", "   MIT: 2", "   Unknown: 1"]);
}

#[test]
fn a_reason_names_the_days_and_the_worse_states() {
    // 1 July 2024
    let today = EPOCH_DAY + 19_905;
    let why = |date: &str, gh: Option<&str>| {
        crate_stale_reason_on(&data(date), gh.map(github).as_ref(), today)
    };
    assert_eq!(
        why("2024-01-01T00:00:00Z", None).unwrap(),
        "No release on crates.io in 182 days"
    );
    assert_eq!(why("2024-01-03", None), None);
    assert_eq!(why("2024-01-02", None).unwrap(), "No release on crates.io in 181 days");
    assert_eq!(why("2023-07-02", None).unwrap(), "No release on crates.io in 365 days");
    assert_eq!(
        why("2023-07-01", None).unwrap(),
        "No release on crates.io in 366 days — INACTIVE"
    );
    assert_eq!(why("2022-07-01", None).unwrap(), "No release on crates.io in 731 days — DEAD");
    assert_eq!(
        why("2024-06-30", Some("2024-01-01")).unwrap(),
        "No GitHub activity in 182 days — STALE"
    );
}

#[test]
fn stale_crates_are_shown_with_their_reason_alone() {
    let opts = Options { stale_only: true, ..TEXT };
    let mut tracing = scan("tracing", "2024-01-01T00:00:00Z", None, vec![]);
    tracing.version = "0.1.44".into();
    if let Ok(r) = &mut tracing.fetched {
        r.crate_data.description = Some("Application-level tracing for Rust.".into());
    }
    let l = lines(&scan_cargo_deps_on(opts, &vec![tracing], EPOCH_DAY + 19_905));
    assert_eq!(
        l[0],
        "\x1b[33m⚠️\x1b[0m tracing v0.1.44 — Application-level tracing for Rust, downloads: 658.4M\n   \x1b[90m└─ No release on crates.io in 182 days\x1b[0m"
    );
}

#[test]
fn other_stale_lines_also_say_when() {
    let opts = Options { stale_only: true, ..TEXT };
    let deps = vec![
        scan("idle", "2022-06-01", None, vec![]),
        scan("quiet", "2023-12-31", Some("2023-06-01"), vec![]),
    ];
    let l = lines(&scan_cargo_deps_on(opts, &deps, TODAY));
    assert!(l[0].ends_with(
        "\n   \x1b[90m└─ No GitHub activity in 214 days — STALE\x1b[0m \x1b[90m— 1 days ago\x1b[0m"
    ));
    assert!(l[1].ends_with(
        "\n   \x1b[90m└─ No release on crates.io in 579 days — INACTIVE\x1b[0m \x1b[90m— 579 days ago\x1b[0m"
    ));
}

#[test]
fn stale_narrows_the_packages_and_not_the_summary() {
    let deps = vec![
        scan("fine", "2023-12-31", None, vec![]),
        scan("holed", "2023-12-31", None, vec![vuln("V", None, None), vuln("W", None, None)]),
        scan("slow", "2023-05-01", None, vec![]),
        scan("idle", "2022-06-01", None, vec![]),
        scan("dead", "2020-01-01", None, vec![]),
        scan("odd", "someday", None, vec![]),
        failed("lost"),
    ];
    let json = |stale_only| {
        let opts = Options { output_json: true, stale_only, ..TEXT };
        match scan_cargo_deps_on(opts, &deps, TODAY).output {
            Output::Json(o) => o,
            other => panic!("{:?}", other),
        }
    };
    let (all, few) = (json(false), json(true));
    assert_eq!(all.summary, few.summary);
    let s = all.summary;
    assert_eq!((s.healthy, s.warning, s.inactive, s.dead, s.unknown), (2, 1, 1, 1, 2));
    assert_eq!((s.hijack, s.cves), (0, 2));
    let worth: Vec<&str> = all
        .packages
        .iter()
        .filter(|p| p.health != "healthy" || !p.vulns.is_empty())
        .map(|p| p.name.as_str())
        .collect();
    let shown: Vec<&str> = few.packages.iter().map(|p| p.name.as_str()).collect();
    assert_eq!(shown, worth);
    assert_eq!(shown, vec!["holed", "slow", "idle", "dead", "odd", "lost"]);
}
