use gravedigger::cache::{init, join_path, MAX_AGE_HOURS};
use gravedigger::command::{decide, Action, DiffFlags, Flags, Subcommand};
use gravedigger::downstream::{
    rev_deps_url, who_depends_crates, CrateRevDeps, RevDep, RevMeta, RevVersion,
};
use gravedigger::plan::{announcement, lockfile_of, plan, warning, Lockfile, Plan};
use gravedigger::report::{Ecosystem, Output};
use gravedigger::scan::Options;

const TEXT: Options = Options {
    stale_only: false,
    output_json: false,
    ci: false,
    licenses: false,
    verbose: false,
    sbom: false,
};

fn deps(n: usize) -> Lockfile {
    Lockfile::Read(Ok((0..n).map(|i| (format!("d{}", i), "1".to_string())).collect()))
}

fn refused(kind: Ecosystem, file: &str, lock: Lockfile) -> String {
    match plan(kind, TEXT, file, lock) {
        Plan::Refuse(e) => e,
        other => panic!("{:?}", other),
    }
}

fn header(kind: Ecosystem, opts: Options, file: &str, n: usize) -> Vec<String> {
    match plan(kind, opts, file, deps(n)) {
        Plan::Scan(l, d) => {
            assert_eq!(d.len(), n);
            l
        }
        other => panic!("{:?}", other),
    }
}

#[test]
fn lockfiles_that_fail_are_reported() {
    assert_eq!(
        refused(Ecosystem::Cargo, "Cargo.lock", Lockfile::Missing),
        "❌ Cargo.lock not found in current directory"
    );
    assert_eq!(
        refused(Ecosystem::Pypi, "", Lockfile::Missing),
        "❌ No poetry.lock or Pipfile.lock found in current directory"
    );
    assert_eq!(
        refused(Ecosystem::Npm, "package-lock.json", Lockfile::Unreadable("denied".into())),
        "❌ Failed to read package-lock.json: denied"
    );
    assert_eq!(
        refused(Ecosystem::Cargo, "Cargo.lock", Lockfile::Read(Err("Failed to parse Cargo.lock: x".into()))),
        "❌ Failed to parse Cargo.lock: x"
    );
    assert_eq!(
        refused(Ecosystem::Go, "go.mod", Lockfile::Read(Err("Read error: x".into()))),
        "❌ Failed to parse go.mod: Read error: x"
    );
    assert_eq!(
        refused(Ecosystem::Pypi, "poetry.lock", Lockfile::Read(Err("Parse error: x".into()))),
        "❌ Failed to parse poetry.lock: Parse error: x"
    );
}

#[test]
fn scans_are_announced() {
    assert_eq!(
        header(Ecosystem::Cargo, TEXT, "Cargo.lock", 2),
        vec!["📦 Scanning 2 crate dependencies from Cargo.lock", ""]
    );
    assert_eq!(
        header(Ecosystem::Npm, TEXT, "package-lock.json", 1),
        vec!["📦 Scanning 1 npm packages from package-lock.json", ""]
    );
    assert_eq!(
        header(Ecosystem::Pypi, TEXT, "Pipfile.lock", 3),
        vec!["📦 Found Pipfile.lock", "📦 Scanning 3 Python packages from lockfile", ""]
    );
    assert_eq!(
        header(Ecosystem::Go, TEXT, "go.mod", 1),
        vec!["📦 Scanning 1 Go modules from go.mod", ""]
    );
    let json = Options { output_json: true, ..TEXT };
    assert!(header(Ecosystem::Pypi, json, "poetry.lock", 1).is_empty());
    let sbom = Options { sbom: true, ..TEXT };
    assert!(header(Ecosystem::Cargo, sbom, "Cargo.lock", 1).is_empty());
    assert_eq!(
        announcement(Ecosystem::Aur, TEXT, "", 5),
        vec!["📦 Scanning 5 AUR packages...", ""]
    );
    assert!(announcement(Ecosystem::Aur, json, "", 5).is_empty());
}

#[test]
fn empty_lockfiles_end_the_scan() {
    let empty = |kind, opts, file: &str| match plan(kind, opts, file, deps(0)) {
        Plan::Nothing(r) => {
            assert_eq!(r.exit_code, 0);
            r.output
        }
        other => panic!("{:?}", other),
    };
    match empty(Ecosystem::Cargo, TEXT, "Cargo.lock") {
        Output::Text(l) => assert_eq!(l, vec!["📦 No registry dependencies found in Cargo.lock"]),
        other => panic!("{:?}", other),
    }
    match empty(Ecosystem::Pypi, TEXT, "poetry.lock") {
        Output::Text(l) => assert_eq!(
            l,
            vec!["📦 Found poetry.lock", "📦 No dependencies found in Python lockfile"]
        ),
        other => panic!("{:?}", other),
    }
    match empty(Ecosystem::Go, TEXT, "go.mod") {
        Output::Text(l) => assert_eq!(l, vec!["📦 No dependencies found in go.mod"]),
        other => panic!("{:?}", other),
    }
    match empty(Ecosystem::Pypi, Options { sbom: true, ..TEXT }, "poetry.lock") {
        Output::Sbom(p) => assert!(p.is_empty()),
        other => panic!("{:?}", other),
    }
    match empty(Ecosystem::Npm, Options { output_json: true, ..TEXT }, "package-lock.json") {
        Output::Json(o) => {
            assert_eq!(o.ecosystem, "npm");
            assert!(o.packages.is_empty());
        }
        other => panic!("{:?}", other),
    }
}

#[test]
fn every_ecosystem_has_its_lockfile() {
    assert_eq!(lockfile_of(Ecosystem::Pypi, true, true), Some("poetry.lock"));
    assert_eq!(lockfile_of(Ecosystem::Pypi, false, true), Some("Pipfile.lock"));
    assert_eq!(lockfile_of(Ecosystem::Pypi, false, false), Some("poetry.lock"));
    assert_eq!(lockfile_of(Ecosystem::Cargo, true, true), Some("Cargo.lock"));
    assert_eq!(lockfile_of(Ecosystem::Npm, true, true), Some("package-lock.json"));
    assert_eq!(lockfile_of(Ecosystem::Go, true, true), Some("go.mod"));
    assert_eq!(lockfile_of(Ecosystem::Aur, true, true), None);
}

#[test]
fn go_modules_name_no_licenses() {
    let asked = Options { licenses: true, ..TEXT };
    assert_eq!(warning(Ecosystem::Go, TEXT, &deps(1)), None);
    assert_eq!(
        warning(Ecosystem::Go, asked, &deps(1)),
        Some("⚠️  --licenses is not supported for Go modules (go.mod has no license metadata)")
    );
    assert_eq!(warning(Ecosystem::Go, asked, &Lockfile::Missing), None);
    assert_eq!(warning(Ecosystem::Cargo, asked, &deps(1)), None);
    assert_eq!(warning(Ecosystem::Go, Options { output_json: true, ..asked }, &deps(1)), None);
}

// ── The cache ────────────────────────────────────────────────────────

#[test]
fn results_are_kept_below_the_cache_directory() {
    assert_eq!(init(Some("/c".into()), Some("/h".into())).base, "/c/gravedigger");
    assert_eq!(init(None, Some("/h/".into())).base, "/h/.cache/gravedigger");
    assert_eq!(init(None, None).base, "/tmp/gravedigger");
    assert_eq!(init(Some("".into()), None).base, "gravedigger");
    assert_eq!(join_path("/a", "/b"), "/b");
    assert_eq!(join_path("/a/", "b"), "/a/b");
}

#[test]
fn keys_become_file_names() {
    let cache = init(Some("/c".into()), None);
    assert_eq!(cache.path("osv", "npm/@s/p/1.0"), "/c/gravedigger/osv/npm_@s_p_1.0.json");
    let w = cache.set("osv", "a/b", 42);
    assert_eq!(w.dir, "/c/gravedigger/osv");
    assert_eq!(w.temporary, "/c/gravedigger/osv/a_b.tmp.42");
    assert_eq!(w.path, cache.path("osv", "a/b"));
    assert_eq!(cache.set("osv", "", 7).temporary, "/c/gravedigger/osv/.json.tmp.7");
    assert_ne!(cache.path("osv", "a"), cache.path("osv", "b"));
}

#[test]
fn results_grow_stale() {
    let cache = init(None, None);
    let get = |age| cache.get(age, Some("x".to_string()), MAX_AGE_HOURS);
    assert_eq!(get(Some(0)), Some("x".to_string()));
    assert_eq!(get(Some(21_600)), Some("x".to_string()));
    assert_eq!(get(Some(21_601)), None);
    assert_eq!(get(None), None);
    assert_eq!(cache.get(Some(0), None, 6), None);
}

// ── Reverse dependencies ─────────────────────────────────────────────

#[test]
fn dependents_are_listed() {
    let ver = |id: u64, name: &str, repo: Option<&str>, desc: Option<&str>| RevVersion {
        id,
        crate_name: name.into(),
        description: desc.map(String::from),
        repository: repo.map(String::from),
        downloads: 1,
        num: "1.0".into(),
    };
    let rev = CrateRevDeps {
        dependencies: vec![
            RevDep { version_id: 1, downloads: 2_500_000 },
            RevDep { version_id: 9, downloads: 1 },
            RevDep { version_id: 2, downloads: 12 },
        ],
        versions: vec![
            ver(1, "old", None, None),
            ver(2, "b", None, None),
            ver(1, "a", Some("https://github.com/x/a"), Some("First. Second.")),
        ],
        meta: RevMeta { total: 77 },
    };
    let (l, e) = who_depends_crates("serde", &Ok(rev));
    assert_eq!(e, None);
    assert_eq!(
        l,
        vec![
            "🔍 Searching for crates that depend on 'serde'...",
            "",
            "📦 Found 77 reverse dependencies (showing top 3)",
            "",
            "  🐙 \x1b[1ma\x1b[0m v1.0 — downloads: 2.5M — First",
            "  📦 \x1b[1mb\x1b[0m v1.0 — downloads: 12",
            "",
            "   \x1b[90mShowing 3 of 77 total dependents\x1b[0m",
        ]
    );
    let none =
        CrateRevDeps { dependencies: vec![], versions: vec![], meta: RevMeta { total: 0 } };
    assert_eq!(who_depends_crates("x", &Ok(none)).0[2], "📦 No crates depend on 'x'");
    let (l, e) = who_depends_crates("x", &Err("HTTP 500".into()));
    assert_eq!(l.len(), 2);
    assert_eq!(e.unwrap(), "❌ Failed to fetch reverse dependencies: HTTP 500");
    assert_eq!(
        rev_deps_url("x"),
        "https://crates.io/api/v1/crates/x/reverse_dependencies?per_page=50"
    );
}

// ── The command line ─────────────────────────────────────────────────

fn flags() -> Flags {
    Flags {
        aur: None,
        cargo: false,
        npm: false,
        pypi: false,
        go: false,
        json: false,
        stale: false,
        ci: false,
        licenses: false,
        verbose: false,
        sbom: false,
        package: None,
        command: None,
    }
}

#[test]
fn the_command_line_decides() {
    match decide(flags()) {
        Action::Scan(Ecosystem::Aur, o) => assert_eq!(o, TEXT),
        other => panic!("{:?}", other),
    }
    match decide(Flags { cargo: true, npm: true, json: true, ci: true, ..flags() }) {
        Action::Scan(Ecosystem::Cargo, o) => {
            assert_eq!(o, Options { output_json: true, ci: true, ..TEXT })
        }
        other => panic!("{:?}", other),
    }
    match decide(Flags { go: true, sbom: true, ..flags() }) {
        Action::Scan(Ecosystem::Go, o) => assert!(o.sbom),
        other => panic!("{:?}", other),
    }
    match decide(Flags { sbom: true, ..flags() }) {
        Action::Refuse(e) => assert_eq!(e, "❌ AUR scanning is not supported with --sbom"),
        other => panic!("{:?}", other),
    }
    match decide(Flags { stale: true, package: Some("x".into()), ..flags() }) {
        Action::Scan(Ecosystem::Aur, o) => assert!(o.stale_only),
        other => panic!("{:?}", other),
    }
    match decide(Flags { aur: Some("q".into()), stale: true, ..flags() }) {
        Action::Search(q) => assert_eq!(q, "q"),
        other => panic!("{:?}", other),
    }
    match decide(Flags { package: Some("yay".into()), ..flags() }) {
        Action::Package(p) => assert_eq!(p, "yay"),
        other => panic!("{:?}", other),
    }
}

#[test]
fn commands_come_first() {
    let none = DiffFlags { cargo: false, npm: false, pypi: false, go: false };
    let with = |c| Flags { cargo: true, command: Some(c), ..flags() };
    match decide(with(Subcommand::WhoDepends("serde".into()))) {
        Action::WhoDepends(n) => assert_eq!(n, "serde"),
        other => panic!("{:?}", other),
    }
    match decide(with(Subcommand::Diff(None, none))) {
        Action::Diff(r, None) => assert_eq!(r, "HEAD~1"),
        other => panic!("{:?}", other),
    }
    let go = DiffFlags { pypi: true, go: true, ..none };
    match decide(with(Subcommand::Diff(Some("v1.0".into()), go))) {
        Action::Diff(r, Some(e)) => assert_eq!((r.as_str(), e), ("v1.0", "pypi")),
        other => panic!("{:?}", other),
    }
    match decide(with(Subcommand::SbomDiff("a".into(), "b".into()))) {
        Action::SbomDiff(a, b) => assert_eq!((a.as_str(), b.as_str()), ("a", "b")),
        other => panic!("{:?}", other),
    }
}
