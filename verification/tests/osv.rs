use gravedigger::api::Reply;
use gravedigger::osv::{
    osv_body, osv_ecosystem, osv_query, parse_osv_response, query_package, OsvDatabaseSpecific, OsvReply,
    OsvResponse, OsvSeverity, OsvVuln,
};
use gravedigger::types::VulnInfo;
use serde_json::Value;

fn text(v: &Value) -> Option<String> {
    v.as_str().map(String::from)
}

fn vuln(v: &Value) -> OsvVuln {
    OsvVuln {
        id: text(&v["id"]).unwrap(),
        summary: text(&v["summary"]),
        aliases: v["aliases"].as_array().map(|a| a.iter().filter_map(text).collect()),
        database_specific: v["database_specific"]
            .as_object()
            .map(|d| OsvDatabaseSpecific { severity: d.get("severity").and_then(text) }),
        severity: v["severity"].as_array().map(|a| {
            a.iter()
                .map(|s| OsvSeverity {
                    kind: text(&s["type"]).unwrap(),
                    score: text(&s["score"]).unwrap(),
                })
                .collect()
        }),
    }
}

fn response(json: &str) -> Option<OsvResponse> {
    let v: Value = serde_json::from_str(json).ok()?;
    Some(OsvResponse { vulns: v["vulns"].as_array().map(|a| a.iter().map(vuln).collect()) })
}

#[test]
fn test_osv_ecosystem_supported() {
    assert_eq!(osv_ecosystem("crates.io"), Some("crates.io"));
    assert_eq!(osv_ecosystem("npm"), Some("npm"));
    assert_eq!(osv_ecosystem("PyPI"), Some("PyPI"));
    assert_eq!(osv_ecosystem("Go"), Some("Go"));
    assert_eq!(osv_ecosystem("RubyGems"), Some("RubyGems"));
    assert_eq!(osv_ecosystem("NuGet"), Some("NuGet"));
    assert_eq!(osv_ecosystem("Maven"), Some("Maven"));
    assert_eq!(osv_ecosystem("Packagist"), Some("Packagist"));
    assert_eq!(osv_ecosystem("Hex"), Some("Hex"));
}

#[test]
fn test_osv_ecosystem_unsupported() {
    assert_eq!(osv_ecosystem("aur"), None);
    assert_eq!(osv_ecosystem("rubygems"), None); // case-sensitive
    assert_eq!(osv_ecosystem("Cargo"), None);
    assert_eq!(osv_ecosystem("PIP"), None);
}

#[test]
fn test_parse_osv_response_with_vulns() {
    let json = r#"{
        "vulns": [
            {
                "id": "GHSA-xxxx-xxxx-xxxx",
                "summary": "Vulnerability in package",
                "aliases": ["CVE-2024-1234"],
                "database_specific": {
                    "severity": "HIGH"
                }
            }
        ]
    }"#;
    let vulns = parse_osv_response(&response(json));
    assert_eq!(vulns.len(), 1);
    assert_eq!(vulns[0].id, "GHSA-xxxx-xxxx-xxxx");
    assert_eq!(
        vulns[0].summary.as_deref(),
        Some("Vulnerability in package")
    );
    assert_eq!(vulns[0].severity.as_deref(), Some("HIGH"));
    assert_eq!(vulns[0].aliases, vec!["CVE-2024-1234"]);
}

#[test]
fn test_parse_osv_response_no_vulns() {
    let json = r#"{"vulns": []}"#;
    let vulns = parse_osv_response(&response(json));
    assert!(vulns.is_empty());
}

#[test]
fn test_parse_osv_response_empty() {
    let json = r#"{}"#;
    let vulns = parse_osv_response(&response(json));
    assert!(vulns.is_empty());
}

#[test]
fn test_parse_osv_response_invalid_json() {
    let vulns = parse_osv_response(&response("not json"));
    assert!(vulns.is_empty());
}

#[test]
fn test_parse_osv_response_cvss_severity() {
    let json = r#"{
        "vulns": [
            {
                "id": "GHSA-yyyy",
                "summary": "Critical issue",
                "aliases": ["CVE-2024-5678"],
                "severity": [
                    { "type": "CVSS_V3", "score": "9.8" }
                ]
            }
        ]
    }"#;
    let vulns = parse_osv_response(&response(json));
    assert_eq!(vulns.len(), 1);
    // Falls back to CVSS score when database_specific.severity is absent
    assert_eq!(vulns[0].severity.as_deref(), Some("9.8"));
}

#[test]
fn queries_are_put_together() {
    let q = osv_query("npm", "@s/p", "1.0").unwrap();
    assert_eq!(q.cache_key, "npm/@s/p/1.0");
    assert_eq!((q.ecosystem.as_str(), q.name.as_str(), q.version.as_str()), ("npm", "@s/p", "1.0"));
    assert!(osv_query("aur", "yay", "1").is_none());
}

#[test]
fn every_answer_counts_whatever_its_status() {
    let body = osv_body(Reply::Received(false, "500".into(), "x".into()));
    assert_eq!(body.unwrap(), "x");
    assert!(osv_body(Reply::NetworkError("down".into())).is_none());
    assert!(osv_body(Reply::ReadError("cut".into())).is_none());
}

#[test]
fn answers_are_kept_and_errors_are_not() {
    let json = r#"{"vulns": [{"id": "A"}]}"#;
    let (vulns, keep) = query_package("Go", OsvReply::Answered(response(json)));
    assert_eq!(vulns[0].id, "A");
    assert!(vulns[0].aliases.is_empty() && vulns[0].severity.is_none());
    assert!(keep);
    let (vulns, keep) = query_package("Go", OsvReply::Answered(None));
    assert!(vulns.is_empty() && keep);
    let (vulns, keep) = query_package("Go", OsvReply::Unreachable);
    assert!(vulns.is_empty() && !keep);
    let cached = || {
        OsvReply::Cached(vec![VulnInfo {
            id: "B".into(),
            summary: None,
            severity: None,
            aliases: vec![],
        }])
    };
    let (vulns, keep) = query_package("Go", cached());
    assert_eq!(vulns[0].id, "B");
    assert!(!keep);
    let (vulns, keep) = query_package("aur", cached());
    assert!(vulns.is_empty() && !keep);
}
