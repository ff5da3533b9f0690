use gravedigger::sbom_diff::{
    compute_diff, extract_property, health_color, health_emoji, parse_file,
    print_component_delta, print_vuln_delta, resolve_affects_ref, run, severity_color, Affect,
    Component, ComponentDelta, ComponentRaw, Parsed, Property, Rating, SbomRoot, Vuln, VulnDelta,
    VulnRaw,
};
use gravedigger::table::Table;
use serde_json::Value;

fn text(v: &Value) -> String {
    v.as_str().unwrap_or("").to_string()
}

fn list<'a>(v: &'a Value) -> std::slice::Iter<'a, Value> {
    v.as_array().map(|a| a.iter()).unwrap_or_default()
}

fn root(json: &str) -> Result<SbomRoot, String> {
    let v: Value = serde_json::from_str(json).map_err(|e| e.to_string())?;
    Ok(SbomRoot {
        components: list(&v["components"])
            .map(|c| ComponentRaw {
                bom_ref: text(&c["bom-ref"]),
                name: text(&c["name"]),
                version: text(&c["version"]),
                purl: text(&c["purl"]),
                properties: list(&c["properties"])
                    .map(|p| Property { name: text(&p["name"]), value: text(&p["value"]) })
                    .collect(),
            })
            .collect(),
        vulnerabilities: list(&v["vulnerabilities"])
            .map(|v| VulnRaw {
                id: text(&v["id"]),
                description: text(&v["description"]),
                ratings: list(&v["ratings"])
                    .map(|r| Rating { severity: text(&r["severity"]) })
                    .collect(),
                affects: list(&v["affects"])
                    .map(|a| Affect { affects_ref: text(&a["ref"]) })
                    .collect(),
            })
            .collect(),
    })
}

fn make_component(name: &str, version: &str, health: &str) -> Component {
    Component {
        name: name.to_string(),
        version: version.to_string(),
        purl: format!("pkg:generic/{}@{}", name, version),
        health: health.to_string(),
    }
}

fn make_vuln(id: &str, severity: &str, purl: &str) -> Vuln {
    Vuln {
        id: id.to_string(),
        description: format!("Description for {}", id),
        severity: severity.to_string(),
        purl: purl.to_string(),
    }
}

#[test]
fn test_compute_diff_no_changes() {
    let mut old_c = Table::new();
    old_c.insert("pkg:generic/foo@1.0".into(), make_component("foo", "1.0", "healthy"));
    let new_c = old_c.clone();

    let mut old_v = Table::new();
    old_v.insert("CVE-2024-1".into(), make_vuln("CVE-2024-1", "HIGH", "pkg:generic/foo@1.0"));
    let new_v = old_v.clone();

    let (comp_deltas, vuln_deltas) = compute_diff(&old_c, &new_c, &old_v, &new_v);
    assert!(comp_deltas.is_empty());
    assert_eq!(vuln_deltas.len(), 1);
    assert!(matches!(vuln_deltas[0], VulnDelta::Unchanged(_)));
}

#[test]
fn test_compute_diff_added_component() {
    let old_c = Table::new();
    let mut new_c = Table::new();
    new_c.insert("pkg:generic/foo@1.0".into(), make_component("foo", "1.0", "healthy"));

    let (deltas, _) = compute_diff(&old_c, &new_c, &Table::new(), &Table::new());
    assert_eq!(deltas.len(), 1);
    assert!(matches!(deltas[0], ComponentDelta::Added(_)));
}

#[test]
fn test_compute_diff_removed_component() {
    let mut old_c = Table::new();
    old_c.insert("pkg:generic/foo@1.0".into(), make_component("foo", "1.0", "healthy"));
    let new_c = Table::new();

    let (deltas, _) = compute_diff(&old_c, &new_c, &Table::new(), &Table::new());
    assert_eq!(deltas.len(), 1);
    assert!(matches!(deltas[0], ComponentDelta::Removed(_)));
}

#[test]
fn test_compute_diff_changed_component() {
    let mut old_c = Table::new();
    old_c.insert("pkg:generic/foo@1.0".into(), make_component("foo", "1.0", "healthy"));
    let mut new_c = Table::new();
    new_c.insert("pkg:generic/foo@2.0".into(), make_component("foo", "2.0", "healthy"));

    let (deltas, _) = compute_diff(&old_c, &new_c, &Table::new(), &Table::new());
    // Different purl (version in purl) → seen as add + remove, not change
    // Actually, since purl includes version, old pkg:generic/foo@1.0 != new pkg:generic/foo@2.0
    // So it's Added(foo@2.0) + Removed(foo@1.0), not Changed
    assert_eq!(deltas.len(), 2);
    let adds: Vec<_> = deltas.iter().filter(|d| matches!(d, ComponentDelta::Added(_))).collect();
    let removes: Vec<_> = deltas.iter().filter(|d| matches!(d, ComponentDelta::Removed(_))).collect();
    assert_eq!(adds.len(), 1);
    assert_eq!(removes.len(), 1);
}

#[test]
fn test_compute_diff_same_purl_different_version() {
    // When purl does NOT include version, two entries with different versions
    // but same purl should show as Changed
    let mut old_c = Table::new();
    old_c.insert("pkg:generic/foo".into(), Component {
        name: "foo".into(),
        version: "1.0".into(),
        purl: "pkg:generic/foo".into(),
        health: "healthy".into(),
    });
    let mut new_c = Table::new();
    new_c.insert("pkg:generic/foo".into(), Component {
        name: "foo".into(),
        version: "2.0".into(),
        purl: "pkg:generic/foo".into(),
        health: "healthy".into(),
    });

    let (deltas, _) = compute_diff(&old_c, &new_c, &Table::new(), &Table::new());
    assert_eq!(deltas.len(), 1);
    assert!(matches!(deltas[0], ComponentDelta::Changed { .. }));
}

#[test]
fn test_compute_diff_new_vuln() {
    let old_v = Table::new();
    let mut new_v = Table::new();
    new_v.insert("CVE-2024-1".into(), make_vuln("CVE-2024-1", "CRITICAL", ""));

    let (_, deltas) = compute_diff(&Table::new(), &Table::new(), &old_v, &new_v);
    assert_eq!(deltas.len(), 1);
    assert!(matches!(deltas[0], VulnDelta::New(_)));
}

#[test]
fn test_compute_diff_resolved_vuln() {
    let mut old_v = Table::new();
    old_v.insert("CVE-2024-1".into(), make_vuln("CVE-2024-1", "HIGH", ""));
    let new_v = Table::new();

    let (_, deltas) = compute_diff(&Table::new(), &Table::new(), &old_v, &new_v);
    assert_eq!(deltas.len(), 1);
    assert!(matches!(deltas[0], VulnDelta::Resolved(_)));
}

#[test]
fn test_compute_diff_all_types() {
    let mut old_c = Table::new();
    old_c.insert("pkg:cargo/removed@1.0".into(), make_component("removed", "1.0", "dead"));
    old_c.insert("pkg:cargo/stable@1.0".into(), make_component("stable", "1.0", "healthy"));

    let mut new_c = Table::new();
    new_c.insert("pkg:cargo/added@1.0".into(), make_component("added", "1.0", "healthy"));
    new_c.insert("pkg:cargo/stable@1.0".into(), make_component("stable", "1.0", "healthy"));
    new_c.insert("pkg:cargo/changed@2.0".into(), Component {
        name: "changed".into(),
        version: "2.0".into(),
        purl: "pkg:cargo/changed@2.0".into(),
        health: "healthy".into(),
    });

    // For changed detection, need same purl different version
    old_c.insert("pkg:cargo/changed".into(), Component {
        name: "changed".into(),
        version: "1.0".into(),
        purl: "pkg:cargo/changed".into(),
        health: "warning".into(),
    });
    new_c.insert("pkg:cargo/changed".into(), Component {
        name: "changed".into(),
        version: "2.0".into(),
        purl: "pkg:cargo/changed".into(),
        health: "healthy".into(),
    });

    let mut old_v = Table::new();
    old_v.insert("CVE-OLD".into(), make_vuln("CVE-OLD", "CRITICAL", ""));
    old_v.insert("CVE-STABLE".into(), make_vuln("CVE-STABLE", "MEDIUM", ""));

    let mut new_v = Table::new();
    new_v.insert("CVE-NEW".into(), make_vuln("CVE-NEW", "HIGH", ""));
    new_v.insert("CVE-STABLE".into(), make_vuln("CVE-STABLE", "MEDIUM", ""));

    let (comp_deltas, vuln_deltas) = compute_diff(&old_c, &new_c, &old_v, &new_v);

    // Components: 1 added (pkg:cargo/added@1.0), 1 changed (pkg:cargo/changed),
    // 1 removed (pkg:cargo/removed@1.0), 1 add+remove for pkg:cargo/changed@2.0
    // Actually pkg:cargo/changed@2.0 is only in new, pkg:cargo/changed@1.0 is not in old
    // Let me just check totals
    let added = comp_deltas.iter().filter(|d| matches!(d, ComponentDelta::Added(_))).count();
    let changed = comp_deltas.iter().filter(|d| matches!(d, ComponentDelta::Changed { .. })).count();
    let removed = comp_deltas.iter().filter(|d| matches!(d, ComponentDelta::Removed(_))).count();
    assert_eq!(added, 2, "should have 2 added (added@1.0 + changed@2.0)");
    assert_eq!(changed, 1, "should have 1 changed");
    assert_eq!(removed, 1, "should have 1 removed");

    let new_vulns = vuln_deltas.iter().filter(|d| matches!(d, VulnDelta::New(_))).count();
    let resolved = vuln_deltas.iter().filter(|d| matches!(d, VulnDelta::Resolved(_))).count();
    let unchanged = vuln_deltas.iter().filter(|d| matches!(d, VulnDelta::Unchanged(_))).count();
    assert_eq!(new_vulns, 1, "should have 1 new vuln");
    assert_eq!(resolved, 1, "should have 1 resolved vuln");
    assert_eq!(unchanged, 1, "should have 1 unchanged vuln");
}

#[test]
fn test_extract_property_found() {
    let props = vec![
        Property { name: "gravedigger:health".into(), value: "dead".into() },
        Property { name: "gravedigger:stale_reason".into(), value: "Too old".into() },
    ];
    assert_eq!(extract_property(&props, "gravedigger:health"), "dead");
    assert_eq!(extract_property(&props, "gravedigger:stale_reason"), "Too old");
}

#[test]
fn test_extract_property_missing() {
    let props = vec![];
    assert_eq!(extract_property(&props, "gravedigger:health"), "");
}

#[test]
fn test_health_emoji_mapping() {
    assert_eq!(health_emoji("healthy"), "✅");
    assert_eq!(health_emoji("warning"), "⚠️");
    assert_eq!(health_emoji("hijack"), "🚩");
    assert_eq!(health_emoji("inactive"), "🔴");
    assert_eq!(health_emoji("dead"), "🪦");
    assert_eq!(health_emoji("unknown"), "❓");
    assert_eq!(health_emoji("something_else"), "❓");
}

#[test]
fn test_parse_file_missing_file() {
    let path = "/tmp/nonexistent_sbom_test_file_12345.json";
    let result = parse_file(path, &Err("No such file or directory (os error 2)".into()));
    assert!(result.is_err());
    assert!(result.unwrap_err().contains("Failed to read"));
}

#[test]
fn test_parse_file_invalid_json() {
    let path = "/tmp/test_invalid_sbom.json";
    let result = parse_file(path, &Ok(root("not json")));
    assert!(result.is_err());
    assert!(result.unwrap_err().contains("Invalid JSON"));
}

const VALID: &str = r#"{
    "bomFormat": "CycloneDX",
    "specVersion": "1.6",
    "components": [
        {
            "bom-ref": "ref-1",
            "name": "serde",
            "version": "1.0.0",
            "purl": "pkg:cargo/serde@1.0.0",
            "properties": [
                {"name": "gravedigger:health", "value": "healthy"},
                {"name": "gravedigger:stale_reason", "value": ""}
            ]
        }
    ],
    "vulnerabilities": [
        {
            "id": "CVE-2024-1234",
            "description": "Test vuln",
            "ratings": [{"severity": "HIGH"}],
            "affects": [{"ref": "ref-1"}]
        }
    ]
}"#;

#[test]
fn test_parse_file_valid_sbom() {
    let path = "/tmp/test_valid_sbom.json";
    let (components, vulns) = parse_file(path, &Ok(root(VALID))).unwrap();
    assert_eq!(components.len(), 1);
    assert_eq!(vulns.len(), 1);
    assert_eq!(components.get("pkg:cargo/serde@1.0.0").unwrap().name, "serde");
    assert_eq!(vulns.get("CVE-2024-1234").unwrap().severity, "HIGH");
    assert_eq!(vulns.get("CVE-2024-1234").unwrap().purl, "pkg:cargo/serde@1.0.0");
}

#[test]
fn test_parse_file_missing_vulnerabilities() {
    let json = r#"{
        "bomFormat": "CycloneDX",
        "specVersion": "1.6",
        "components": []
    }"#;

    let path = "/tmp/test_no_vulns_sbom.json";
    let (components, vulns) = parse_file(path, &Ok(root(json))).unwrap();
    assert!(components.is_empty());
    assert!(vulns.is_empty());
}

#[test]
fn the_last_entry_counts_and_health_has_a_default() {
    let json = r#"{
        "components": [
            {"bom-ref": "a", "name": "x", "version": "1", "purl": "p"},
            {"bom-ref": "b", "name": "y", "version": "2", "purl": "p"}
        ],
        "vulnerabilities": [
            {"id": "V", "description": "first", "affects": [{"ref": "nowhere"}]},
            {"id": "V", "description": "second"},
            {"id": "W", "affects": [{"ref": "b"}, {"ref": "a"}]},
            {"id": "U", "affects": [{"ref": "nowhere"}]}
        ]
    }"#;
    let (components, vulns) = parse_file("f", &Ok(root(json))).unwrap();
    assert_eq!(components.len(), 1);
    assert_eq!(components.get("p").unwrap().name, "y");
    assert_eq!(components.get("p").unwrap().health, "unknown");
    assert_eq!(vulns.len(), 3);
    assert_eq!(vulns.get("V").unwrap().description, "second");
    assert_eq!(vulns.get("V").unwrap().purl, "");
    assert_eq!(vulns.get("W").unwrap().purl, "p");
    assert_eq!(vulns.get("U").unwrap().purl, "nowhere");
    assert_eq!(resolve_affects_ref("", &[]), "");
    assert_eq!(resolve_affects_ref("r", &[]), "r");
}

#[test]
fn colors_go_by_health_and_severity() {
    assert_eq!(health_color("healthy"), "\x1b[32m");
    assert_eq!(health_color("warning"), "\x1b[33m");
    assert_eq!(health_color("hijack"), "\x1b[33m");
    assert_eq!(health_color("inactive"), "\x1b[31m");
    assert_eq!(health_color("dead"), "\x1b[31m");
    assert_eq!(health_color("?"), "\x1b[90m");
    assert_eq!(severity_color("CRITICAL"), "\x1b[31m");
    assert_eq!(severity_color("HIGH"), "\x1b[31m");
    assert_eq!(severity_color("MEDIUM"), "\x1b[33m");
    assert_eq!(severity_color("MODERATE"), "\x1b[33m");
    assert_eq!(severity_color("LOW"), "\x1b[90m");
}

#[test]
fn components_are_listed_up_to_ten() {
    let mut deltas: Vec<ComponentDelta> = (0..12)
        .map(|i| ComponentDelta::Added(make_component(&format!("c{}", i), "1", "healthy")))
        .collect();
    deltas.push(ComponentDelta::Changed {
        old: make_component("x", "1", "dead"),
        new: make_component("x", "2", "healthy"),
    });
    deltas.push(ComponentDelta::Removed(make_component("y", "1", "dead")));
    let l = print_component_delta(&deltas);
    assert_eq!(
        l[..9],
        [
            "",
            "Components",
            "  \x1b[32m🆕 Added:   12",
            "  \x1b[33m🔄 Changed: 1",
            "  \x1b[31m🗑  Removed: 1",
            "\x1b[0m",
            "",
            "── Added ──────────────────────────────",
            "  \x1b[32m✅ c0 v1 — pkg:generic/c0@1\x1b[0m",
        ]
    );
    assert_eq!(
        l[17..],
        [
            "  \x1b[32m✅ c9 v1 — pkg:generic/c9@1\x1b[0m",
            "  \x1b[90m… and 2 more\x1b[0m",
            "",
            "── Changed ────────────────────────────",
            "  \x1b[33m⚠️ x v1 \x1b[0m→\x1b[33m v2 — pkg:generic/x@2\x1b[0m",
            "",
            "── Removed ────────────────────────────",
            "  \x1b[31m🪦 y v1 — pkg:generic/y@1\x1b[0m",
        ]
    );
}

#[test]
fn vulnerabilities_are_listed_and_shortened() {
    let mut long = make_vuln("A", "HIGH", "p");
    long.description = "d".repeat(61);
    let mut plain = make_vuln("B", "", "");
    plain.description = "e".repeat(60);
    let deltas = vec![
        VulnDelta::New(long),
        VulnDelta::Unchanged(make_vuln("C", "LOW", "")),
        VulnDelta::New(plain),
        VulnDelta::Resolved(make_vuln("D", "LOW", "")),
    ];
    assert_eq!(
        print_vuln_delta(&deltas),
        vec![
            "".to_string(),
            "Vulnerabilities".into(),
            "  \x1b[31m🚨 New:      2".into(),
            "  \x1b[32m✅ Resolved: 1".into(),
            "  \x1b[90m➖ Unchanged: 1".into(),
            "\x1b[0m".into(),
            "".into(),
            "── New CVEs ───────────────────────────".into(),
            format!("  \x1b[31m🚨 A [HIGH] {}…\x1b[0m", "d".repeat(57)),
            "     affects: p".into(),
            format!("  \x1b[90m🚨 B [UNKNOWN] {}\x1b[0m", "e".repeat(60)),
            "".into(),
            "── Resolved CVEs ──────────────────────".into(),
            "  \x1b[32m✅ D — No longer present\x1b[0m".into(),
        ]
    );
}

#[test]
fn two_bills_are_compared() {
    let read = |json: &str| -> Parsed { parse_file("f", &Ok(root(json))) };
    let a = read(VALID);
    let b = read(VALID);
    assert_eq!(
        run("old", "new", &a, &b).unwrap(),
        vec!["✅ No differences found between the two SBOMs"]
    );
    let empty = read(r#"{"components": []}"#);
    let l = run("old", "new", &empty, &a).unwrap();
    assert_eq!(l[0], "📊 SBOM Diff — old → new");
    assert!(l.contains(&"  \x1b[32m🆕 Added:   1".to_string()));
    assert!(l.contains(&"  \x1b[31m🚨 New:      1".to_string()));
    assert_eq!(l[l.len() - 2], format!("\x1b[90m{}\x1b[0m", "─".repeat(50)));
    let bad: Parsed = Err("❌ bad".into());
    assert_eq!(run("old", "new", &bad, &a), Err("❌ bad".into()));
    assert_eq!(run("old", "new", &a, &bad), Err("❌ bad".into()));
}

#[test]
fn a_description_is_never_cut_within_a_character() {
    let shown = |description: String| {
        let mut v = make_vuln("CVE-1", "HIGH", "");
        v.description = description;
        print_vuln_delta(&vec![VulnDelta::New(v)])[8].clone()
    };
    // 62 bytes, and byte 57 lies within a character
    assert_eq!(
        shown("é".repeat(31)),
        format!("  \x1b[31m🚨 CVE-1 [HIGH] {}…\x1b[0m", "é".repeat(28))
    );
    assert_eq!(
        shown(format!("{}{}", "x".repeat(56), "🪦".repeat(2))),
        format!("  \x1b[31m🚨 CVE-1 [HIGH] {}…\x1b[0m", "x".repeat(56))
    );
    assert_eq!(
        shown("é".repeat(30)),
        format!("  \x1b[31m🚨 CVE-1 [HIGH] {}\x1b[0m", "é".repeat(30))
    );
}
