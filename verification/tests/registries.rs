use gravedigger::api::{GitHubRepo, Reply};
use gravedigger::attestation::{
    attestation_key, attestation_url, attestations_body, keep_payload, provenance_message, slsa_payloads,
    AttestationReply, NpmAttestation, NpmProvenancePayload, NpmResolvedDep, NpmWorkflow,
};
use gravedigger::clock::EPOCH_DAY;
use gravedigger::golang::{
    get_go_health, get_go_stale_reason, go_url, parse_go_mod, scan_go_deps, scan_go_deps_on,
    GoProxyResponse, GoScan,
};
use gravedigger::npm::{
    get_npm_health, get_npm_stale_reason, npm_url, parse_npm_lock, scan_npm_deps,
    scan_npm_deps_on, NpmDep, NpmLock, NpmPkg, NpmRegistryResponse, NpmRepo, NpmScan,
};
use gravedigger::pypi::{
    get_pypi_health, get_pypi_stale_reason, parse_pipfile_lock, parse_poetry_lock, pypi_url,
    scan_pypi_deps, scan_pypi_deps_on, PipPkg, PipfileLock, PoetryLock, PoetryPkg, PyPIInfo,
    PyPIResponse, PyPIUrl, PypiScan,
};
use gravedigger::report::{Output, Report};
use gravedigger::scan::Options;

/// 1 January 2024
const TODAY: i32 = EPOCH_DAY + 19_723;

const TEXT: Options = Options {
    stale_only: false,
    output_json: false,
    ci: false,
    licenses: false,
    verbose: false,
    sbom: false,
};

const JSON: Options = Options { output_json: true, ..TEXT };

fn lines(r: &Report) -> Vec<String> {
    match &r.output {
        Output::Text(l) => l.clone(),
        _ => panic!("not text"),
    }
}

fn github(pushed_at: &str, archived: bool) -> GitHubRepo {
    GitHubRepo {
        stars: 1,
        forks: 2,
        open_issues: 3,
        pushed_at: pushed_at.into(),
        archived,
        watchers: 4,
    }
}

fn pair(a: &str, b: &str) -> (String, String) {
    (a.into(), b.into())
}

// ── npm ──────────────────────────────────────────────────────────────

fn npm_data(modified: Option<&str>) -> NpmRegistryResponse {
    NpmRegistryResponse {
        dist_tags: vec![pair("next", "3.0.0"), pair("latest", "2.0.0")],
        time: modified.map(|m| pair("modified", m)).into_iter().collect(),
        repository: Some(NpmRepo { url: Some("git+https://github.com/o/r.git".into()) }),
        description: Some("Small. Fast.".into()),
        license: Some("ISC".into()),
    }
}

fn npm_scan(modified: Option<&str>) -> NpmScan {
    NpmScan {
        name: "@s/p".into(),
        version: "1.0.0".into(),
        fetched: Ok(npm_data(modified)),
        github: None,
        vulns: vec![],
        provenance: "Provenance: not available".into(),
    }
}

#[test]
fn npm_packages_are_listed_once_per_version() {
    let pkg = |v: &str| NpmPkg { version: Some(v.into()) };
    let lock = NpmLock {
        packages: Some(vec![
            ("".into(), pkg("0.0.1")),
            ("node_modules/a".into(), pkg("1.0.0")),
            ("node_modules/b/node_modules/a".into(), pkg("1.0.0")),
            ("node_modules/c/node_modules/a".into(), pkg("2.0.0")),
            ("node_modules/linked".into(), NpmPkg { version: None }),
            ("packages/own".into(), pkg("3.0.0")),
        ]),
        dependencies: Some(vec![("ignored".into(), NpmDep { version: "1".into() })]),
    };
    assert_eq!(
        parse_npm_lock(Ok(lock)),
        Ok(vec![pair("a", "1.0.0"), pair("a", "2.0.0"), pair("packages/own", "3.0.0")])
    );
    let none = NpmLock { packages: None, dependencies: None };
    assert_eq!(parse_npm_lock(Ok(none)), Ok(vec![]));
    assert_eq!(
        parse_npm_lock(Err("eof".into())),
        Err("Failed to parse package-lock.json: eof".into())
    );
}

#[test]
fn npm_health_goes_by_the_last_change() {
    assert_eq!(get_npm_health(&npm_data(Some("2001-01-01")), None), "🪦");
    assert_eq!(get_npm_health(&npm_data(Some("9999-01-01")), None), "✅");
    assert_eq!(get_npm_health(&npm_data(Some("9999-01-01")), Some(&github("2001-01-01", false))), "🪦");
    assert_eq!(get_npm_health(&npm_data(None), None), "❓");
    assert_eq!(get_npm_health(&npm_data(Some("?")), None), "❓");
    assert_eq!(get_npm_stale_reason(&npm_data(None), None), None);
    assert!(get_npm_stale_reason(&npm_data(Some("2001-01-01")), None)
        .unwrap()
        .starts_with("No update on npm in "));
    assert_eq!(npm_url("@s/p"), "https://registry.npmjs.org/@s%2Fp");
    assert_eq!(
        gravedigger::npm::repository_of(&npm_data(None)),
        Some(pair("o", "r"))
    );
}

#[test]
fn npm_lines_show_latest_and_provenance() {
    let mut s = npm_scan(Some("2023-12-31"));
    let l = lines(&scan_npm_deps_on(TEXT, &vec![s], TODAY));
    assert_eq!(
        l[0],
        "\x1b[32m✅\x1b[0m @s/p v1.0.0 — Small (latest: 2.0.0)\n   \x1b[90mProvenance: not available\x1b[0m"
    );
    s = npm_scan(Some("2022-12-31"));
    s.provenance = "🧾 Provenance: x".into();
    if let Ok(d) = &mut s.fetched {
        d.description = None;
        d.dist_tags = vec![];
    }
    let l = lines(&scan_npm_deps_on(TEXT, &vec![s], TODAY));
    assert_eq!(
        l[0],
        "\x1b[31m🔴\x1b[0m @s/p v1.0.0 — no description (latest: ?)\n   \x1b[32m🧾 Provenance: x\x1b[0m \x1b[90m— 366 days ago\x1b[0m"
    );
}

#[test]
fn npm_records_hold_the_provenance() {
    match scan_npm_deps(JSON, &vec![npm_scan(Some("2001-01-01"))]).output {
        Output::Json(o) => {
            assert_eq!(o.ecosystem, "npm");
            assert_eq!(o.packages[0].health, "dead");
            assert_eq!(o.packages[0].latest_version.as_deref(), Some("2.0.0"));
            assert_eq!(o.packages[0].provenance.as_deref(), Some("Provenance: not available"));
        }
        _ => panic!("not JSON"),
    }
}

// ── Attestations ─────────────────────────────────────────────────────

fn payload(commit: Option<&str>, workflow: bool) -> NpmProvenancePayload {
    NpmProvenancePayload {
        workflow: if workflow {
            Some(NpmWorkflow {
                repository: "https://github.com/o/r.git".into(),
                path: "ci.yml".into(),
            })
        } else {
            None
        },
        resolved_dependencies: vec![NpmResolvedDep {
            uri: "u".into(),
            digest: commit.map(|c| pair("gitCommit", c)).into_iter().collect(),
        }],
        builder_id: "https://github.com/actions/runner".into(),
    }
}

fn said(reply: AttestationReply) -> (String, bool) {
    provenance_message(&reply)
}

#[test]
fn only_payloads_of_provenance_are_decoded() {
    let att = |kind: &str, payload: &str| NpmAttestation {
        predicate_type: kind.into(),
        payload: payload.into(),
    };
    let all = vec![
        att("https://github.com/npm/attestation", "e30="),
        att("https://slsa.dev/provenance/v1", "eyJhIjoxfQ=="),
        att("https://slsa.dev/provenance/v1", "not base64!"),
        att("https://slsa.dev/provenance/v0.2", "aGk="),
    ];
    assert_eq!(slsa_payloads(&all), vec![b"{\"a\":1}".to_vec(), b"hi".to_vec()]);
    assert_eq!(keep_payload("slsa.dev/provenance", Some(vec![1, 2])), Some(vec![1, 2]));
    assert_eq!(keep_payload("slsa.dev/provenance", None), None);
    assert_eq!(keep_payload("other", Some(vec![1])), None);
}

#[test]
fn the_first_workflow_is_named() {
    let all = vec![None, Some(payload(None, false)), Some(payload(Some("0123456789"), true))];
    assert_eq!(
        said(AttestationReply::Payloads(all)),
        (
            "🧾 Provenance: github.com/o/r@0123456 (built by github.com/actions/runner)".into(),
            true
        )
    );
    assert_eq!(
        said(AttestationReply::Payloads(vec![Some(payload(None, true))])).0,
        "🧾 Provenance: github.com/o/r (built by github.com/actions/runner)"
    );
    assert_eq!(
        said(AttestationReply::Payloads(vec![Some(payload(Some("abc"), true))])).0,
        "🧾 Provenance: github.com/o/r@abc (built by github.com/actions/runner)"
    );
}

#[test]
fn a_refusal_means_no_attestations() {
    let ok = attestations_body(Reply::Received(true, "200".into(), "{}".into()));
    assert_eq!(ok.unwrap(), "{}");
    let text = |reply| said(attestations_body(reply).unwrap_err()).0;
    assert_eq!(
        text(Reply::Received(false, "404".into(), "".into())),
        "Provenance: not available"
    );
    assert_eq!(text(Reply::NetworkError("x".into())), "⚠️ Provenance: network error");
    assert_eq!(text(Reply::ReadError("x".into())), "⚠️ Provenance: parse error");
}

#[test]
fn missing_provenance_is_said_and_kept_if_certain() {
    assert_eq!(
        said(AttestationReply::NetworkError),
        ("⚠️ Provenance: network error".into(), true)
    );
    assert_eq!(said(AttestationReply::NotFound), ("Provenance: not available".into(), true));
    assert_eq!(
        said(AttestationReply::Unreadable),
        ("⚠️ Provenance: parse error".into(), false)
    );
    assert_eq!(
        said(AttestationReply::Invalid),
        ("⚠️ Provenance: invalid response".into(), false)
    );
    assert_eq!(
        said(AttestationReply::Payloads(vec![])),
        ("Provenance: not available".into(), true)
    );
    assert_eq!(attestation_key("@s/p", "1"), "npm-attest/@s/p/1");
    assert_eq!(
        attestation_url("@s/p", "1"),
        "https://registry.npmjs.org/-/npm/v1/attestations/@s%2Fp@1"
    );
}

// ── PyPI ─────────────────────────────────────────────────────────────

fn info(summary: Option<&str>) -> PyPIInfo {
    PyPIInfo {
        name: "p".into(),
        version: "5.0".into(),
        summary: summary.map(String::from),
        home_page: None,
        project_urls: None,
        license: None,
    }
}

fn urls(time: &str) -> Vec<PyPIUrl> {
    vec![PyPIUrl { upload_time: Some(time.into()) }, PyPIUrl { upload_time: None }]
}

fn pypi_scan(summary: Option<&str>, time: &str) -> PypiScan {
    PypiScan {
        name: "p".into(),
        version: "1.0".into(),
        fetched: Ok(PyPIResponse { info: info(summary), urls: urls(time) }),
        github: None,
        vulns: vec![],
    }
}

#[test]
fn python_lockfiles_are_read() {
    let poetry = PoetryLock {
        package: Some(vec![PoetryPkg {
            name: "a".into(),
            version: "1".into(),
            description: None,
        }]),
    };
    assert_eq!(parse_poetry_lock(Ok(Ok(poetry))), Ok(vec![pair("a", "1")]));
    assert_eq!(parse_poetry_lock(Ok(Ok(PoetryLock { package: None }))), Ok(vec![]));
    assert_eq!(parse_poetry_lock(Ok(Err("bad".into()))), Err("Parse error: bad".into()));
    assert_eq!(parse_poetry_lock(Err("gone".into())), Err("Read error: gone".into()));

    let pip = PipfileLock {
        default: Some(vec![("b".into(), PipPkg { version: "==2.0".into() })]),
        develop: Some(vec![("a".into(), PipPkg { version: "3.0".into() })]),
    };
    assert_eq!(parse_pipfile_lock(Ok(Ok(pip))), Ok(vec![pair("b", "2.0"), pair("a", "3.0")]));
    assert_eq!(parse_pipfile_lock(Ok(Err("bad".into()))), Err("Parse error: bad".into()));
    assert_eq!(parse_pipfile_lock(Err("gone".into())), Err("Read error: gone".into()));
}

#[test]
fn pypi_health_goes_by_the_first_upload() {
    assert_eq!(get_pypi_health(&info(None), &urls("2001-01-01T00:00:00Z"), None), "🪦");
    assert_eq!(get_pypi_health(&info(None), &urls("9999-01-01Z"), None), "✅");
    assert_eq!(
        get_pypi_health(&info(None), &urls("9999-01-01"), Some(&github("2001-01-01", false))),
        "🪦"
    );
    assert_eq!(get_pypi_health(&info(None), &[], None), "❓");
    assert_eq!(get_pypi_health(&info(None), &[PyPIUrl { upload_time: None }], None), "❓");
    assert_eq!(get_pypi_health(&info(None), &urls("soon"), None), "❓");
    assert!(get_pypi_stale_reason(&info(None), &urls("2001-01-01"), None)
        .unwrap()
        .starts_with("No release on PyPI in "));
    assert_eq!(get_pypi_stale_reason(&info(None), &[], None), None);
    assert_eq!(pypi_url("p"), "https://pypi.org/pypi/p/json");
}

#[test]
fn pypi_lines_come_in_order() {
    let deps = vec![
        pypi_scan(Some("Sum. Mary."), "2020-01-01"),
        PypiScan {
            name: "q".into(),
            version: "2".into(),
            fetched: Err("HTTP 404".into()),
            github: None,
            vulns: vec![],
        },
        pypi_scan(None, "2023-12-31"),
    ];
    let l = lines(&scan_pypi_deps_on(TEXT, &deps, TODAY));
    assert_eq!(
        l[..3],
        [
            "\x1b[31m🪦\x1b[0m p v1.0 — Sum. Mary. (latest: 5.0)",
            "\x1b[90m❓ q v2 — fetch failed: HTTP 404\x1b[0m",
            "\x1b[32m✅\x1b[0m p v1.0 — no description (latest: 5.0)",
        ]
    );
    match scan_pypi_deps(JSON, &deps).output {
        Output::Json(o) => assert_eq!(o.ecosystem, "pypi"),
        _ => panic!("not JSON"),
    }
    let single = gravedigger::pypi::scan_single(&deps[0]);
    assert_eq!(single.latest_version.as_deref(), Some("5.0"));
}

// ── Go ───────────────────────────────────────────────────────────────

fn proxy(time: &str) -> GoProxyResponse {
    GoProxyResponse { version: "v2.3.4".into(), time: time.into() }
}

fn go_scan(time: &str, github: Option<Result<GitHubRepo, String>>) -> GoScan {
    GoScan {
        name: "github.com/o/r".into(),
        version: "1.0.0".into(),
        fetched: Ok(proxy(time)),
        github,
        vulns: vec![],
    }
}

#[test]
fn go_mod_lines_are_read_in_and_out_of_blocks() {
    let content = "module m\r\n\r\nrequire a.b/c v1.2.3 // indirect\r\nrequire (\r\n\td.e/f vv4\r\n\t// g.h/i v5\r\n\tlonely\r\n)\r\nj.k/l v6\r\nreplace a.b/c => ../c\r\n";
    let deps = vec![pair("a.b/c", "1.2.3"), pair("d.e/f", "4")];
    assert_eq!(parse_go_mod(Ok(content.into())), Ok(deps));
    assert_eq!(parse_go_mod(Err("gone".into())), Err("Read error: gone".into()));
}

#[test]
fn a_written_block_is_read_back() {
    let deps = vec![pair("github.com/a/b", "1.2.3"), pair("x.org/y", ""), pair("c", "0.0.0-2020")];
    let lines: Vec<String> = deps.iter().map(|(n, v)| format!("\t{} v{}", n, v)).collect();
    let content = format!("require (\n{}\n)", lines.join("\n"));
    assert_eq!(parse_go_mod(Ok(content)), Ok(deps));
}

#[test]
fn idle_lines_change_nothing() {
    let plain = "require (\na.b/c v1\nd.e/f v2\n)\n";
    let mixed = "module m\ngo 1.21\nrequire (\n// x\na.b/c v1\n\nmodule y\nd.e/f v2\n)\n";
    assert_eq!(parse_go_mod(Ok(mixed.into())), parse_go_mod(Ok(plain.into())));
}

#[test]
fn go_health_and_reasons() {
    assert_eq!(get_go_health(&proxy("2001-01-01")), "🪦");
    assert_eq!(get_go_health(&proxy("9999-01-01")), "✅");
    assert_eq!(get_go_health(&proxy("?")), "❓");
    assert!(get_go_stale_reason(&proxy("2001-01-01"), None)
        .unwrap()
        .starts_with("No release in "));
    assert!(get_go_stale_reason(&proxy("9999-01-01"), Some(&github("2001-01-01", false)))
        .unwrap()
        .starts_with("No GitHub activity in "));
    assert_eq!(get_go_stale_reason(&proxy("9999-01-01"), None), None);
    assert_eq!(go_url("a.b/c"), "https://proxy.golang.org/a.b%2Fc/@latest");
}

#[test]
fn hijacked_modules_are_flagged() {
    let fresh = github("2023-12-31", false);
    let archived = github("2023-12-31", true);
    let check = |gh| gravedigger::golang::get_go_hijack("github.com/o/r", gh);
    assert_eq!(check(Some(Ok(&fresh))), None);
    assert_eq!(check(Some(Ok(&archived))).unwrap(), "Repo is archived — may be hijacked");
    assert_eq!(
        check(Some(Err("HTTP 404 Not Found — x"))).unwrap(),
        "GitHub repo not found (404) — module path may be hijacked"
    );
    assert_eq!(check(Some(Err("HTTP 403"))), None);
    assert_eq!(check(None), None);
}

#[test]
fn go_lines_and_records_show_the_risk() {
    let deps = vec![
        go_scan("2020-01-01", Some(Ok(github("2023-12-31", true)))),
        go_scan("2023-12-31", Some(Ok(github("2023-01-01", false)))),
        go_scan("2023-12-31", None),
    ];
    let r = scan_go_deps_on(TEXT, &deps, TODAY);
    let l = lines(&r);
    assert_eq!(
        l[..3],
        [
            "\x1b[90m🚩\x1b[0m github.com/o/r v1.0.0 (latest: 2.3.4)\n   \x1b[33m└─ 🚩 Repo is archived — may be hijacked\x1b[0m",
            "\x1b[33m⚠️\x1b[0m github.com/o/r v1.0.0 (latest: 2.3.4)",
            "\x1b[32m✅\x1b[0m github.com/o/r v1.0.0 (latest: 2.3.4)",
        ]
    );
    match scan_go_deps(JSON, &deps).output {
        Output::Json(o) => {
            assert_eq!(o.ecosystem, "go");
            assert_eq!(o.summary.hijack, 1);
            assert_eq!(o.packages[0].health, "hijack");
            assert_eq!(
                o.packages[0].stale_reason.as_deref(),
                Some("Repo is archived — may be hijacked")
            );
            assert_eq!(o.packages[0].latest_version.as_deref(), Some("2.3.4"));
        }
        _ => panic!("not JSON"),
    }
}
