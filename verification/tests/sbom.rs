use gravedigger::sbom::{build_sbom, purl_for, render};
use gravedigger::types::{PackageResult, VulnInfo};

fn make_pkg(name: &str, version: &str, health: &str, vulns: Vec<VulnInfo>) -> PackageResult {
    PackageResult {
        name: name.to_string(),
        version: version.to_string(),
        health: health.to_string(),
        description: None,
        latest_version: None,
        stale_reason: None,
        vulns,
        provenance: None,
    }
}

fn packages() -> Vec<PackageResult> {
    vec![
        make_pkg("serde", "1.0.0", "healthy", vec![]),
        make_pkg(
            "tokio",
            "0.2.0",
            "dead",
            vec![VulnInfo {
                id: "CVE-2024-1234".into(),
                summary: Some("RCE in tokio".into()),
                severity: Some("CRITICAL".into()),
                aliases: vec![],
            }],
        ),
    ]
}

fn is_uuid(s: &str) -> bool {
    let groups: Vec<usize> = s.split('-').map(|g| g.len()).collect();
    groups == vec![8, 4, 4, 4, 12]
        && s.chars().all(|c| c == '-' || c.is_ascii_digit() || ('a'..='f').contains(&c))
        && s.as_bytes()[14] == b'4'
        && b"89ab".contains(&s.as_bytes()[19])
}

#[test]
fn test_purl_for() {
    assert_eq!(purl_for("cargo", "serde", "1.0.0"), "pkg:cargo/serde@1.0.0");
    assert_eq!(purl_for("npm", "express", "4.18.0"), "pkg:npm/express@4.18.0");
    assert_eq!(purl_for("pypi", "requests", "2.31.0"), "pkg:pypi/requests@2.31.0");
    assert_eq!(purl_for("go", "github.com/foo/bar", "1.0.0"), "pkg:golang/github.com/foo/bar@1.0.0");
    assert_eq!(purl_for("unknown", "foo", "1.0.0"), "pkg:generic/foo@1.0.0");
}

#[test]
fn test_purl_escaping() {
    // Names with special characters should be passed through verbatim
    assert_eq!(
        purl_for("npm", "@scope/package", "1.0.0"),
        "pkg:npm/@scope/package@1.0.0"
    );
}

#[test]
fn packages_become_components_and_vulnerabilities() {
    let mut pkgs = packages();
    pkgs[0].stale_reason = Some("old".into());
    pkgs[0].description = Some("fast".into());
    pkgs.push(make_pkg(
        "tokio",
        "0.2.0",
        "dead",
        vec![VulnInfo { id: "X".into(), summary: None, severity: None, aliases: vec![] }],
    ));
    let refs = vec!["r0".to_string(), "r1".to_string(), "r2".to_string()];
    let s = build_sbom("cargo", &pkgs, "abc", "now".into(), &refs);
    assert_eq!(s.bom_format, "CycloneDX");
    assert_eq!(s.spec_version, "1.6");
    assert_eq!(s.version, 1);
    assert_eq!(s.serial_number, "urn:uuid:abc");
    assert_eq!(s.timestamp, "now");
    assert_eq!((s.tool.vendor.as_str(), s.tool.name.as_str(), s.tool.version.as_str()), ("gravedigger", "gravedigger", "0.2.0"));
    let c = &s.components[0];
    assert_eq!(c.kind, "library");
    assert_eq!(c.bom_ref, "r0");
    assert_eq!(c.description, "fast");
    assert_eq!(c.purl, "pkg:cargo/serde@1.0.0");
    assert_eq!((c.properties[0].name.as_str(), c.properties[0].value.as_str()), ("gravedigger:health", "healthy"));
    assert_eq!((c.properties[1].name.as_str(), c.properties[1].value.as_str()), ("gravedigger:stale_reason", "old"));
    assert_eq!(s.components[1].description, "");
    assert_eq!(s.vulnerabilities.len(), 2);
    let v = &s.vulnerabilities[0];
    assert_eq!((v.id.as_str(), v.description.as_str(), v.severity.as_str()), ("CVE-2024-1234", "RCE in tokio", "CRITICAL"));
    assert_eq!(v.affects_ref, "r1");
    // of two components with the same name and version the first is affected
    let w = &s.vulnerabilities[1];
    assert_eq!((w.description.as_str(), w.severity.as_str(), w.affects_ref.as_str()), ("", "UNKNOWN", "r1"));
}

#[test]
fn rendered_bills_have_random_references() {
    let s = render("cargo", &packages());
    let t = render("cargo", &packages());
    assert!(is_uuid(s.serial_number.strip_prefix("urn:uuid:").unwrap()));
    assert!(s.components.iter().all(|c| is_uuid(&c.bom_ref)));
    assert_ne!(s.serial_number, t.serial_number);
    assert_ne!(s.components[0].bom_ref, s.components[1].bom_ref);
    assert_eq!(s.vulnerabilities[0].affects_ref, s.components[1].bom_ref);
    assert!(s.timestamp.starts_with("2") && s.timestamp.ends_with("+00:00"));
}

#[test]
fn no_packages_still_make_a_bill() {
    let s = render("go", &[]);
    assert_eq!(s.bom_format, "CycloneDX");
    assert!(s.components.is_empty() && s.vulnerabilities.is_empty());
}
