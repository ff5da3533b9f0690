use gravedigger::golang::{get_go_hijack, go_mod_to_github, parse_go_mod_lines};

#[test]
fn test_go_mod_to_github_simple() {
    let result = go_mod_to_github("github.com/owner/repo");
    assert_eq!(result, Some(("owner".into(), "repo".into())));
}

#[test]
fn test_go_mod_to_github_with_subpackage() {
    let result = go_mod_to_github("github.com/owner/repo/subpkg");
    assert_eq!(result, Some(("owner".into(), "repo".into())));
}

#[test]
fn test_go_mod_to_github_not_github() {
    let result = go_mod_to_github("gitlab.com/owner/repo");
    assert_eq!(result, None);
}

#[test]
fn test_go_mod_to_github_too_short() {
    let result = go_mod_to_github("github.com/owner");
    assert_eq!(result, None);
}

#[test]
fn test_parse_go_mod_require_block() {
    let content = r#"module example.com/m

go 1.21

require (
    github.com/foo/bar v1.0.0
    github.com/baz/qux v2.0.0
)
"#;
    let deps = parse_go_mod_lines(content).unwrap();
    assert_eq!(deps.len(), 2);
    assert!(deps.contains(&("github.com/foo/bar".into(), "1.0.0".into())));
    assert!(deps.contains(&("github.com/baz/qux".into(), "2.0.0".into())));
}

#[test]
fn test_parse_go_mod_single_require() {
    let content = r#"module example.com/m

go 1.21

require github.com/foo/bar v1.0.0
"#;
    let deps = parse_go_mod_lines(content).unwrap();
    assert_eq!(deps.len(), 1);
    assert_eq!(deps[0], ("github.com/foo/bar".into(), "1.0.0".into()));
}

#[test]
fn test_parse_go_mod_empty() {
    let content = r#"module example.com/m

go 1.21
"#;
    let deps = parse_go_mod_lines(content).unwrap();
    assert!(deps.is_empty());
}

#[test]
fn test_parse_go_mod_indirect() {
    let content = r#"module example.com/m

go 1.21

require (
    github.com/foo/bar v1.0.0 // indirect
    github.com/baz/qux v2.0.0
)
"#;
    let deps = parse_go_mod_lines(content).unwrap();
    assert_eq!(deps.len(), 2);
    assert!(deps.contains(&("github.com/foo/bar".into(), "1.0.0".into())));
    assert!(deps.contains(&("github.com/baz/qux".into(), "2.0.0".into())));
}

#[test]
fn test_get_go_hijack_non_github() {
    // Non-GitHub modules can't be hijack-checked — pass None for gh_result
    assert_eq!(get_go_hijack("gitlab.com/owner/repo", None), None);
    assert_eq!(get_go_hijack("bitbucket.org/owner/repo", None), None);
    assert_eq!(get_go_hijack("example.com/module", None), None);
}

#[test]
fn test_get_go_hijack_too_short() {
    // Module path too short to extract owner/repo
    assert_eq!(get_go_hijack("github.com/owner", None), None);
}
