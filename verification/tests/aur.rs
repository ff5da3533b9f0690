use gravedigger::api::{AurPackage, AurResponse, GitHubRepo, Popularity};
use gravedigger::aur::{
    get_health, get_stale_reason, github_info_on, health_at, installed_packages,
    print_github_info, print_package_info, scan_installed, scan_installed_at, search_and_display,
    search_at, single_package_at, single_package_json, stale_reason_at, Answer, AurHit, AurLookup,
    AurScan,
};
use gravedigger::clock::Moment;
use gravedigger::report::Output;
use gravedigger::scan::Options;
use gravedigger::types::Health;

/// 1 January 2024, noon
const NOW: Moment = Moment { secs: 19_723 * 86_400 + 43_200, nanos: 0 };

const TEXT: Options = Options {
    stale_only: false,
    output_json: false,
    ci: false,
    licenses: false,
    verbose: false,
    sbom: false,
};

fn days_ago(n: u64) -> u64 {
    NOW.secs - n * 86_400
}

fn pkg(url: Option<&str>, changed: u64) -> AurPackage {
    AurPackage {
        name: "pipes.sh".into(),
        version: "1.3".into(),
        description: Some("Pipes".into()),
        url: url.map(String::from),
        maintainer: Some("Stefans".into()),
        numvotes: 7,
        popularity: Popularity { tenths: "1.6".into(), hundredths: "1.63".into(), low: false },
        lastmodified: changed,
        outofdate: None,
    }
}

fn github(pushed_at: &str) -> GitHubRepo {
    GitHubRepo {
        stars: 10,
        forks: 2,
        open_issues: 3,
        pushed_at: pushed_at.into(),
        archived: false,
        watchers: 4,
    }
}

const URL: Option<&str> = Some("https://github.com/o/r");

#[test]
fn health_goes_by_flag_then_repository_then_own_change() {
    let gh = github("2022-01-01T00:00:00Z");
    let mut p = pkg(URL, days_ago(1));
    assert_eq!(health_at(&p, Some(&gh), NOW), Health::Inactive);
    assert_eq!(health_at(&p, None, NOW), Health::Healthy);
    assert_eq!(health_at(&p, Some(&github("?")), NOW), Health::Healthy);
    p.outofdate = Some(1);
    assert_eq!(health_at(&p, Some(&gh), NOW), Health::Warning);
    assert_eq!(health_at(&pkg(None, days_ago(2916)), None, NOW), Health::Dead);
    assert_eq!(get_health(&pkg(None, 0), None), "🪦");
}

#[test]
fn fresh_orphans_that_few_use_may_be_hijacked() {
    let mut p = pkg(URL, days_ago(89));
    p.maintainer = None;
    p.popularity.low = true;
    assert_eq!(health_at(&p, Some(&github("2023-12-31")), NOW), Health::Hijack);
    assert_eq!(
        stale_reason_at(&p, None, NOW).unwrap(),
        "Hijack risk — recently updated but orphaned with low popularity"
    );
    p.maintainer = Some("".into());
    assert_eq!(health_at(&p, None, NOW), Health::Hijack);
    p.lastmodified = days_ago(90);
    assert_eq!(health_at(&p, None, NOW), Health::Healthy);
    p.lastmodified = days_ago(1);
    p.popularity.low = false;
    assert_eq!(health_at(&p, None, NOW), Health::Healthy);
    p.popularity.low = true;
    p.maintainer = Some("me".into());
    assert_eq!(health_at(&p, None, NOW), Health::Healthy);
    p.maintainer = None;
    p.outofdate = Some(0);
    assert_eq!(health_at(&p, None, NOW), Health::Warning);
}

#[test]
fn reasons_come_one_below_the_other() {
    let old = pkg(URL, days_ago(2916));
    assert_eq!(
        stale_reason_at(&old, Some(Err("HTTP 403 (rate limited)")), NOW).unwrap(),
        "GitHub fetch failed: HTTP 403 (rate limited)\n      PKGBUILD not updated in 2916 days — DEAD"
    );
    let young = pkg(URL, days_ago(1));
    assert_eq!(
        stale_reason_at(&young, Some(Err("x")), NOW).unwrap(),
        "GitHub fetch failed: x"
    );
    assert_eq!(
        stale_reason_at(&pkg(None, days_ago(200)), None, NOW).unwrap(),
        "No upstream URL\n      PKGBUILD not updated in 200 days — STALE"
    );
    assert_eq!(
        stale_reason_at(&pkg(Some("https://x.org"), days_ago(1)), None, NOW).unwrap(),
        "Not a GitHub repository"
    );
    let gh = github("2022-01-01");
    assert_eq!(
        stale_reason_at(&young, Some(Ok(&gh)), NOW).unwrap(),
        "No GitHub activity in 730 days — INACTIVE"
    );
    assert_eq!(stale_reason_at(&young, Some(Ok(&github("2023-12-31"))), NOW), None);
    assert_eq!(
        stale_reason_at(&old, Some(Ok(&github("?"))), NOW).unwrap(),
        "PKGBUILD not updated in 2916 days — DEAD"
    );
    let mut flagged = pkg(URL, days_ago(1));
    flagged.outofdate = Some(9);
    assert_eq!(get_stale_reason(&flagged, None).unwrap(), "Marked out-of-date on AUR");
}

fn installed(p: AurPackage, github: Option<Result<GitHubRepo, String>>) -> AurScan {
    AurScan {
        name: p.name.clone(),
        fetched: Some(AurResponse { resultcount: 1, results: vec![p] }),
        github,
    }
}

fn unknown(fetched: Option<AurResponse>) -> AurScan {
    AurScan { name: "gone".into(), fetched, github: None }
}

#[test]
fn the_first_word_of_each_line_is_a_package() {
    assert_eq!(installed_packages("yay 12.0\nparu-bin 2.0-1\n\n  \n"), vec!["yay", "paru-bin"]);
    assert!(installed_packages("").is_empty());
}

#[test]
fn installed_packages_are_scanned() {
    let mut orphan = pkg(None, days_ago(1));
    orphan.maintainer = None;
    let all = vec![
        installed(pkg(URL, days_ago(1)), Some(Ok(github("2023-12-31")))),
        unknown(None),
        installed(orphan, None),
        unknown(Some(AurResponse { resultcount: 0, results: vec![] })),
    ];
    let r = scan_installed_at(TEXT, &all, NOW);
    let l = match &r.output {
        Output::Text(l) => l.clone(),
        _ => panic!("not text"),
    };
    assert_eq!(
        l[..4],
        [
            "\x1b[32m✅\x1b[0m pipes.sh — maintainer: Stefans, popularity: 1.6",
            "\x1b[90m❓ gone — \x1b[90mfetch failed\x1b[0m",
            "\x1b[32m✅\x1b[0m pipes.sh — maintainer: \x1b[31m\x1b[1m[ORPHANED]\x1b[0m, popularity: 1.6",
            "\x1b[90m❓ gone — \x1b[90mfetch failed\x1b[0m",
        ]
    );

    let stale = Options { stale_only: true, ..TEXT };
    let dead = vec![installed(
        pkg(URL, days_ago(2916)),
        Some(Err("HTTP 403 (rate limited)".into())),
    )];
    match scan_installed_at(stale, &dead, NOW).output {
        Output::Text(l) => assert_eq!(
            l[0],
            "\x1b[31m🪦\x1b[0m pipes.sh — maintainer: Stefans, popularity: 1.6\n   \x1b[90m└─ GitHub fetch failed: HTTP 403 (rate limited)\n      PKGBUILD not updated in 2916 days — DEAD\x1b[0m"
        ),
        _ => panic!("not text"),
    }

    let json = Options { output_json: true, ..TEXT };
    match scan_installed(json, &all).output {
        Output::Json(o) => {
            assert_eq!(o.ecosystem, "aur");
            assert_eq!(o.packages.len(), 4);
            assert_eq!(o.packages[1].version, "?");
            assert_eq!(o.packages[1].stale_reason.as_deref(), Some("AUR API fetch failed"));
            assert_eq!(o.summary.unknown, 2);
        }
        _ => panic!("not JSON"),
    }
}

fn text(a: Answer) -> Vec<String> {
    match a {
        Answer::Text(l) => l,
        other => panic!("{:?}", other),
    }
}

#[test]
fn searches_are_answered() {
    let hits = || {
        Ok((
            2,
            vec![
                AurHit { package: pkg(URL, days_ago(1)), github: Some(github("2023-12-31")) },
                AurHit { package: pkg(None, days_ago(400)), github: None },
            ],
        ))
    };
    assert_eq!(
        text(search_at("pipes", false, &hits(), NOW)),
        vec![
            "🔍 Search results: pipes (2 found)",
            "",
            "\x1b[32m✅\x1b[0m pipes.sh (⭐ 10) Pipes",
            "\x1b[31m🔴\x1b[0m pipes.sh Pipes",
        ]
    );
    match search_at("pipes", true, &hits(), NOW) {
        Answer::Json(o) => {
            assert_eq!(o.ecosystem, "aur-search");
            assert_eq!(o.packages[1].health, "inactive");
            assert_eq!(o.packages[1].stale_reason, None);
            assert_eq!(o.summary.healthy, 0);
        }
        other => panic!("{:?}", other),
    }
    assert_eq!(
        text(search_and_display("pipes", false, &Ok((0, vec![])))),
        vec!["🔍 No results for 'pipes'"]
    );
    match search_and_display("pipes", true, &Ok((0, vec![]))) {
        Answer::Json(o) => assert!(o.packages.is_empty()),
        other => panic!("{:?}", other),
    }
    match search_and_display("pipes", false, &Err("down".into())) {
        Answer::Failure(e) => assert_eq!(e, "❌ Failed to search AUR: down"),
        other => panic!("{:?}", other),
    }
    match search_and_display("pipes", true, &Err("down".into())) {
        Answer::JsonError(w, e) => assert_eq!((w.as_str(), e.as_str()), ("aur-search", "down")),
        other => panic!("{:?}", other),
    }
}

#[test]
fn a_package_is_described() {
    let mut p = pkg(URL, 0);
    p.description = None;
    p.outofdate = Some(1);
    assert_eq!(
        print_package_info(&p),
        vec![
            "",
            "📦 Package: pipes.sh",
            "   Version: 1.3",
            "   Description: -",
            "   Upstream URL: https://github.com/o/r",
            "   Maintainer: Stefans",
            "   Votes: 7",
            "   Popularity: 1.63",
            "   Out of date: ⚠️ Yes",
            "   Last updated: 1970-01-01 00:00 UTC",
        ]
    );
}

#[test]
fn a_repository_is_described() {
    let mut gh = github("2023-12-31T01:02:03Z");
    let today = NOW.today();
    assert_eq!(
        github_info_on(&gh, today),
        vec![
            "   ⭐ Stars: 10",
            "   🍴 Forks: 2",
            "   🔥 Open issues: 3",
            "   👀 Watchers: 4",
            "   📅 Pushed at: 2023-12-31",
            "   \x1b[32m✅ Active (1 days ago)\x1b[0m",
        ]
    );
    gh.archived = true;
    gh.pushed_at = "2023-06-01".into();
    let l = github_info_on(&gh, today);
    assert_eq!(l[5], "   \x1b[33m⚠️ Last push > 6 months — check needed\x1b[0m");
    assert_eq!(l[6], "   🗄️ ARCHIVED — no longer maintained");
    gh.pushed_at = "2022-06-01".into();
    assert_eq!(github_info_on(&gh, today)[5], "   \x1b[31m🔴 Last push > 1 year — INACTIVE\x1b[0m");
    gh.pushed_at = "2002-06-01".into();
    assert_eq!(
        print_github_info(&gh)[5],
        "   \x1b[1m\x1b[31m🪦 Last push > 2 years — DEAD\x1b[0m"
    );
    gh.pushed_at = "no date at all".into();
    assert_eq!(github_info_on(&gh, today).len(), 6);
}

#[test]
fn one_package_is_answered() {
    let lookup = |p: AurPackage, github| AurLookup {
        fetched: Ok(AurResponse { resultcount: 1, results: vec![p] }),
        github,
    };
    let (a, code) =
        single_package_at("x", false, &lookup(pkg(URL, 0), Some(Ok(github("2023-12-31")))), NOW);
    let l = text(a);
    assert_eq!(code, 0);
    assert_eq!(l.len(), 10 + 2 + 6);
    assert_eq!(l[11], "🐙 GitHub: o/r");

    let (a, _) = single_package_at("x", false, &lookup(pkg(Some("u"), 0), None), NOW);
    assert_eq!(text(a)[11], "🐙 GitHub: not a GitHub repository");
    let (a, _) = single_package_at("x", false, &lookup(pkg(None, 0), None), NOW);
    assert_eq!(text(a).len(), 10);
    match single_package_at("x", false, &lookup(pkg(URL, 0), Some(Err("down".into()))), NOW).0 {
        Answer::Partial(l, e) => {
            assert_eq!(l.len(), 12);
            assert_eq!(e, "   ❌ Fetch failed: down");
        }
        other => panic!("{:?}", other),
    }

    match single_package_at("x", true, &lookup(pkg(URL, 0), Some(Ok(github("2023-12-31")))), NOW).0 {
        Answer::Package(p) => {
            assert_eq!(p.ecosystem, "aur");
            assert_eq!(p.health, "healthy");
            assert_eq!(p.numvotes, 7);
            let g = p.github.unwrap();
            assert_eq!((g.owner.as_str(), g.repo.as_str(), g.stars), ("o", "r", 10));
        }
        other => panic!("{:?}", other),
    }
}

#[test]
fn a_missing_package_is_reported() {
    let none = AurLookup {
        fetched: Ok(AurResponse { resultcount: 0, results: vec![] }),
        github: None,
    };
    match single_package_json("x", false, &none) {
        (Answer::Failure(e), 1) => assert_eq!(e, "❌ Package 'x' not found in AUR"),
        other => panic!("{:?}", other),
    }
    match single_package_json("x", true, &none) {
        (Answer::JsonError(w, e), 0) => {
            assert_eq!((w.as_str(), e.as_str()), ("aur", "Package 'x' not found in AUR"))
        }
        other => panic!("{:?}", other),
    }
    let down = AurLookup { fetched: Err("down".into()), github: None };
    match single_package_json("x", false, &down) {
        (Answer::Failure(e), 1) => assert_eq!(e, "❌ Failed to fetch AUR: down"),
        other => panic!("{:?}", other),
    }
    match single_package_json("x", true, &down) {
        (Answer::JsonError(_, e), 0) => assert_eq!(e, "Failed to fetch AUR: down"),
        other => panic!("{:?}", other),
    }
}

#[test]
fn a_record_needs_no_dates() {
    let mut p = pkg(URL, u64::MAX);
    p.outofdate = Some(1);
    let found = AurLookup {
        fetched: Ok(AurResponse { resultcount: 1, results: vec![p] }),
        github: Some(Ok(github("?"))),
    };
    match single_package_at("x", true, &found, NOW) {
        (Answer::Package(p), 0) => {
            assert_eq!(p.health, "warning");
            assert_eq!(p.lastmodified, u64::MAX);
            assert_eq!(p.github.unwrap().pushed_at, "?");
        }
        other => panic!("{:?}", other),
    }
}
