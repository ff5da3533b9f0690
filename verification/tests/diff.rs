use gravedigger::diff::{
    compute_diff, detect_ecosystem, display_diff, git_ref, git_show, run_diff, run_diff_standard,
    scan_deps, string_to_emoji, vulns_suffix, DepDelta, DiffPlan, GitShow, Present,
};
use gravedigger::types::{PackageResult, VulnInfo};

#[test]
fn test_compute_diff_empty() {
    let old: Vec<(String, String)> = vec![];
    let new: Vec<(String, String)> = vec![];
    let deltas = compute_diff(&old, &new);
    assert!(deltas.is_empty());
}

#[test]
fn test_compute_diff_added() {
    let old: Vec<(String, String)> = vec![];
    let new = vec![("foo".into(), "1.0.0".into())];
    let deltas = compute_diff(&old, &new);
    assert_eq!(deltas.len(), 1);
    assert_eq!(deltas[0], DepDelta::Added("foo".into(), "1.0.0".into()));
}

#[test]
fn test_compute_diff_removed() {
    let old = vec![("foo".into(), "1.0.0".into())];
    let new: Vec<(String, String)> = vec![];
    let deltas = compute_diff(&old, &new);
    assert_eq!(deltas.len(), 1);
    assert_eq!(deltas[0], DepDelta::Removed("foo".into(), "1.0.0".into()));
}

#[test]
fn test_compute_diff_upgraded() {
    let old = vec![("foo".into(), "1.0.0".into())];
    let new = vec![("foo".into(), "2.0.0".into())];
    let deltas = compute_diff(&old, &new);
    assert_eq!(deltas.len(), 1);
    assert_eq!(
        deltas[0],
        DepDelta::Upgraded("foo".into(), "1.0.0".into(), "2.0.0".into())
    );
}

#[test]
fn test_compute_diff_unchanged() {
    let old = vec![("foo".into(), "1.0.0".into())];
    let new = vec![("foo".into(), "1.0.0".into())];
    let deltas = compute_diff(&old, &new);
    assert!(deltas.is_empty());
}

#[test]
fn test_compute_diff_mixed() {
    let old = vec![
        ("keep".into(), "1.0.0".into()),
        ("remove".into(), "1.0.0".into()),
        ("upgrade".into(), "1.0.0".into()),
    ];
    let new = vec![
        ("keep".into(), "1.0.0".into()),
        ("upgrade".into(), "2.0.0".into()),
        ("add".into(), "1.0.0".into()),
    ];
    let deltas = compute_diff(&old, &new);
    assert_eq!(deltas.len(), 3);

    // Check all expected deltas are present (HashMap iteration order
    // is non-deterministic, so check membership, not position)
    assert!(deltas.contains(&DepDelta::Added("add".into(), "1.0.0".into())));
    assert!(deltas.contains(&DepDelta::Upgraded(
        "upgrade".into(),
        "1.0.0".into(),
        "2.0.0".into()
    )));
    assert!(deltas.contains(&DepDelta::Removed("remove".into(), "1.0.0".into())));
}

#[test]
fn test_compute_diff_multiple_versions_same_name() {
    // Same name with different versions should be treated as separate
    // (though this is unusual, compute_diff handles it)
    let old = vec![("foo".into(), "1.0.0".into())];
    let new = vec![("foo".into(), "1.0.0".into()), ("foo".into(), "2.0.0".into())];
    // HashMap deduplicates by name, so the second entry overwrites
    let deltas = compute_diff(&old, &new);
    assert!(deltas.is_empty() || deltas.len() == 1);
    // Either unchanged (if duplicate overwrites to same) or upgraded
}

#[test]
fn test_string_to_emoji_healthy() {
    assert_eq!(string_to_emoji("healthy"), "✅");
}

#[test]
fn test_string_to_emoji_warning() {
    assert_eq!(string_to_emoji("warning"), "⚠️");
}

#[test]
fn test_string_to_emoji_hijack() {
    assert_eq!(string_to_emoji("hijack"), "🚩");
}

#[test]
fn test_string_to_emoji_inactive() {
    assert_eq!(string_to_emoji("inactive"), "🔴");
}

#[test]
fn test_string_to_emoji_dead() {
    assert_eq!(string_to_emoji("dead"), "🪦");
}

#[test]
fn test_string_to_emoji_unknown() {
    assert_eq!(string_to_emoji("unknown"), "❓");
}

#[test]
fn test_string_to_emoji_fallback() {
    assert_eq!(string_to_emoji("something_else"), "❓");
}

#[test]
fn test_git_show_current_head() {
    match git_show("HEAD", "src/lib.rs", GitShow::Printed(Ok("pub mod api;\n".into()))) {
        Ok(content) => assert!(!content.is_empty()),
        Err(e) => assert!(e.contains("does not exist") || e.contains("not found")),
    }
}

#[test]
fn test_git_show_nonexistent_path() {
    let stderr = "fatal: path 'nonexistent/path/file.lock' does not exist in 'HEAD'\n";
    let result = git_show("HEAD", "nonexistent/path/file.lock", GitShow::Failed(stderr.into()));
    assert!(result.is_err());
    assert!(result.unwrap_err().contains("does not exist"));
}

#[test]
fn test_git_show_invalid_ref() {
    let stderr = "fatal: invalid object name 'nonexistent-ref-12345'.\n";
    let result = git_show("nonexistent-ref-12345", "Cargo.lock", GitShow::Failed(stderr.into()));
    assert!(result.is_err());
    let err = result.unwrap_err();
    assert!(
        err.contains("does not exist"),
        "expected error about ref not existing, got: {}",
        err
    );
}

#[test]
fn git_failures_are_reported() {
    let show = |s| git_show("v1", "go.mod", s).unwrap_err();
    assert_eq!(show(GitShow::NotRun("no git".into())), "Failed to run git show: no git");
    assert_eq!(show(GitShow::Failed("  odd \n".into())), "git show failed: odd");
    assert_eq!(
        show(GitShow::Failed("bad object".into())),
        "Path 'go.mod' does not exist at commit 'v1'"
    );
    assert_eq!(
        show(GitShow::Printed(Err("at 3".into()))),
        "Non-UTF8 output from git show: at 3"
    );
    assert_eq!(git_ref("HEAD~1", "go.mod"), "HEAD~1:go.mod");
}

const NONE: Present = Present {
    cargo_lock: false,
    package_lock: false,
    poetry_lock: false,
    pipfile_lock: false,
    go_mod: false,
};

fn pair(a: &str, b: &str) -> (String, String) {
    (a.into(), b.into())
}

#[test]
fn ecosystems_are_detected_in_order() {
    let found = |p| detect_ecosystem(p).unwrap();
    assert_eq!(found(Present { cargo_lock: true, go_mod: true, ..NONE }), pair("cargo", "Cargo.lock"));
    assert_eq!(found(Present { package_lock: true, ..NONE }), pair("npm", "package-lock.json"));
    assert_eq!(found(Present { poetry_lock: true, pipfile_lock: true, ..NONE }), pair("pypi", "poetry.lock"));
    assert_eq!(found(Present { pipfile_lock: true, ..NONE }), pair("pypi", "Pipfile.lock"));
    assert_eq!(found(Present { go_mod: true, ..NONE }), pair("go", "go.mod"));
    assert!(detect_ecosystem(NONE).unwrap_err().starts_with("No supported lockfile found ("));
}

#[test]
fn an_ecosystem_has_its_lockfile() {
    assert_eq!(run_diff(Some("cargo"), NONE).unwrap(), pair("cargo", "Cargo.lock"));
    assert_eq!(run_diff(Some("npm"), NONE).unwrap(), pair("npm", "package-lock.json"));
    assert_eq!(run_diff(Some("go"), NONE).unwrap(), pair("go", "go.mod"));
    let pip = Present { pipfile_lock: true, ..NONE };
    assert_eq!(run_diff(Some("pypi"), pip).unwrap(), pair("pypi", "Pipfile.lock"));
    assert_eq!(
        run_diff(Some("pypi"), NONE).unwrap_err(),
        "❌ No poetry.lock or Pipfile.lock found in current directory"
    );
    assert_eq!(
        run_diff(Some("gem"), NONE).unwrap_err(),
        "❌ Unknown ecosystem: gem (try cargo, npm, pypi, or go)"
    );
    assert_eq!(
        run_diff(None, NONE).unwrap_err(),
        "❌ No supported lockfile found (Cargo.lock, package-lock.json, poetry.lock, Pipfile.lock, go.mod)"
    );
    assert_eq!(run_diff(None, pip).unwrap(), pair("pypi", "Pipfile.lock"));
}

#[test]
fn deltas_come_in_order_and_the_last_version_counts() {
    let old = vec![pair("gone", "1"), pair("up", "1"), pair("gone", "2"), pair("same", "1")];
    let new = vec![pair("new", "1"), pair("up", "2"), pair("same", "1"), pair("new", "3")];
    assert_eq!(
        compute_diff(&old, &new),
        vec![
            DepDelta::Added("new".into(), "3".into()),
            DepDelta::Upgraded("up".into(), "1".into(), "2".into()),
            DepDelta::Removed("gone".into(), "2".into()),
        ]
    );
    assert_eq!(
        compute_diff(&new, &old),
        vec![
            DepDelta::Added("gone".into(), "2".into()),
            DepDelta::Upgraded("up".into(), "2".into(), "1".into()),
            DepDelta::Removed("new".into(), "3".into()),
        ]
    );
    assert!(compute_diff(&new, &new).is_empty());
}

#[test]
fn the_new_version_is_scanned() {
    let deltas = vec![
        DepDelta::Added("a".into(), "1".into()),
        DepDelta::Upgraded("b".into(), "1".into(), "2".into()),
        DepDelta::Removed("c".into(), "1".into()),
    ];
    assert_eq!(scan_deps(&deltas), vec![Some(pair("a", "1")), Some(pair("b", "2")), None]);
}

#[test]
fn comparisons_are_planned() {
    let deps = |l: &[(&str, &str)]| Ok(Ok(l.iter().map(|(a, b)| pair(a, b)).collect()));
    match run_diff_standard(
        "v1",
        "go.mod",
        &deps(&[("a", "1"), ("b", "1"), ("c", "1")]),
        &deps(&[("a", "1"), ("b", "2")]),
    ) {
        DiffPlan::Show(d, unchanged) => {
            assert_eq!(d.len(), 2);
            assert_eq!(unchanged, 2);
        }
        other => panic!("{:?}", other),
    }
    match run_diff_standard("v1", "go.mod", &deps(&[("a", "1")]), &deps(&[("a", "1")])) {
        DiffPlan::Nothing(t) => assert_eq!(t, "✅ No dependency changes since v1"),
        other => panic!("{:?}", other),
    }
    let refused = |a, b| match run_diff_standard("v1", "go.mod", &a, &b) {
        DiffPlan::Refuse(e) => e,
        other => panic!("{:?}", other),
    };
    assert_eq!(refused(Err("no git".into()), deps(&[])), "❌ no git");
    assert_eq!(
        refused(Ok(Err("bad".into())), deps(&[])),
        "❌ Failed to parse old go.mod: bad"
    );
    assert_eq!(refused(deps(&[]), Err("gone".into())), "❌ Failed to read go.mod: gone");
    assert_eq!(refused(deps(&[]), Ok(Err("bad".into()))), "❌ Failed to parse go.mod: bad");
}

fn result(health: &str, description: Option<&str>, vulns: Vec<VulnInfo>) -> PackageResult {
    PackageResult {
        name: "n".into(),
        version: "v".into(),
        health: health.into(),
        description: description.map(String::from),
        latest_version: None,
        stale_reason: None,
        vulns,
        provenance: None,
    }
}

fn vuln(id: &str) -> VulnInfo {
    VulnInfo { id: id.into(), summary: None, severity: None, aliases: vec![] }
}

#[test]
fn changes_are_shown_by_kind() {
    let scanned = vec![
        (DepDelta::Removed("r".into(), "1".into()), None),
        (
            DepDelta::Upgraded("u".into(), "1".into(), "2".into()),
            Some(result("dead", None, vec![vuln("A")])),
        ),
        (DepDelta::Added("a".into(), "1".into()), Some(result("healthy", Some("Nice "), vec![]))),
        (DepDelta::Added("b".into(), "2".into()), None),
        (DepDelta::Upgraded("w".into(), "1".into(), "2".into()), None),
    ];
    assert_eq!(
        display_diff("cargo", &scanned, 7),
        vec![
            "",
            "📦 cargo dependency diff — 5 changed, 7 unchanged",
            "",
            "\x1b[1m🟢 Added:\x1b[0m\n   \x1b[32m✅\x1b[0m a v1 — Nice \n   \x1b[90m?\x1b[0m b v2",
            "\x1b[1m🔵 Upgraded:\x1b[0m\n   \x1b[31m🪦\x1b[0m u v1 → v2 (no description)  \x1b[31m🚨 1 CVE: A\x1b[0m\n   \x1b[90m?\x1b[0m w v1 → v2",
            "\x1b[1m🔴 Removed:\x1b[0m\n   \x1b[90m🗑 r v1 removed\x1b[0m",
        ]
    );
    assert_eq!(display_diff("go", &vec![], 0).len(), 3);
    assert_eq!(vulns_suffix(&vec![]), "");
    assert_eq!(
        vulns_suffix(&vec![vuln("A"), vuln("B"), vuln("C"), vuln("D")]),
        "  \x1b[31m🚨 4 CVEs: A, B, C\x1b[0m"
    );
}
