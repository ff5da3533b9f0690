use gravedigger::api::{
    accepted_body, aur_info_url, aur_search_url, authorization, github_url, json_error,
    parse_github_repo, safe_prefix, unreadable_body, Reply,
};

#[test]
fn test_parse_github_repo_https() {
    let result = parse_github_repo("https://github.com/owner/repo");
    assert_eq!(result, Some(("owner".into(), "repo".into())));
}

#[test]
fn test_parse_github_repo_with_trailing_slash() {
    let result = parse_github_repo("https://github.com/owner/repo/");
    assert_eq!(result, Some(("owner".into(), "repo".into())));
}

#[test]
fn test_parse_github_repo_with_subdirectory() {
    let result = parse_github_repo("https://github.com/owner/repo/tree/main/src");
    assert_eq!(result, Some(("owner".into(), "repo".into())));
}

#[test]
fn test_parse_github_repo_not_github() {
    let result = parse_github_repo("https://gitlab.com/owner/repo");
    assert_eq!(result, None);
}

#[test]
fn test_parse_github_repo_invalid() {
    let result = parse_github_repo("not-a-url");
    assert_eq!(result, None);
}

#[test]
fn test_parse_github_repo_empty() {
    let result = parse_github_repo("");
    assert_eq!(result, None);
}

#[test]
fn test_parse_github_repo_dot_git() {
    let result = parse_github_repo("https://github.com/owner/repo.git");
    assert_eq!(result, Some(("owner".into(), "repo".into())));
}

#[test]
fn test_parse_github_repo_git_ssh() {
    let result = parse_github_repo("git@github.com:owner/repo.git");
    assert_eq!(result, Some(("owner".into(), "repo".into())));
}

#[test]
fn test_parse_github_repo_git_https_prefix() {
    let result = parse_github_repo("git+https://github.com/owner/repo.git");
    assert_eq!(result, Some(("owner".into(), "repo".into())));
}

#[test]
fn test_parse_github_repo_ssh_protocol() {
    let result = parse_github_repo("ssh://git@github.com/owner/repo");
    assert_eq!(result, Some(("owner".into(), "repo".into())));
}

#[test]
fn every_documented_format_names_the_repository() {
    for url in [
        "https://github.com/owner/repo",
        "https://github.com/owner/repo.git",
        "https://github.com/owner/repo/",
        "https://github.com/owner/repo/tree/main",
        "git@github.com:owner/repo.git",
        "ssh://git@github.com/owner/repo",
        "git+https://github.com/owner/repo",
        "git://github.com/owner/repo.git",
        "https://github.com/owner/repo.git.git",
    ] {
        assert_eq!(parse_github_repo(url), Some(("owner".into(), "repo".into())), "{}", url);
    }
}

#[test]
fn incomplete_addresses_name_nothing() {
    assert_eq!(parse_github_repo("https://github.com/"), None);
    assert_eq!(parse_github_repo("https://github.com/owner"), None);
    assert_eq!(parse_github_repo("https://github.com/owner/"), None);
    assert_eq!(parse_github_repo("https://github.com//repo"), None);
    // a slash counts before a colon
    assert_eq!(
        parse_github_repo("github.com:a/b github.com/c/d"),
        Some(("c".into(), "d".into()))
    );
}

#[test]
fn prefixes_are_counted_in_characters() {
    assert_eq!(safe_prefix("añb", 2), "añ");
    assert_eq!(safe_prefix("abc", 3), "abc");
    assert_eq!(safe_prefix("abc", 9), "abc");
    assert_eq!(safe_prefix("abc", 0), "");
}

#[test]
fn replies_become_bodies_or_messages() {
    assert_eq!(
        accepted_body(Reply::NetworkError("down".into())),
        Err("Network error: down".into())
    );
    assert_eq!(accepted_body(Reply::ReadError("cut".into())), Err("Read error: cut".into()));
    assert_eq!(
        accepted_body(Reply::Received(true, "200 OK".into(), "{}".into())),
        Ok("{}".into())
    );
    assert_eq!(
        accepted_body(Reply::Received(false, "404 Not Found".into(), "gone".into())),
        Err("HTTP 404 Not Found — gone".into())
    );
    let long = "x".repeat(300);
    assert_eq!(
        accepted_body(Reply::Received(false, "500".into(), long)),
        Err(format!("HTTP 500 — {}", "x".repeat(200)))
    );
    assert_eq!(unreadable_body("JSON error", "eof", "ab"), "JSON error: eof — body: ab");
    assert_eq!(json_error("eof"), "JSON error: eof");
}

#[test]
fn requests_are_put_together() {
    assert_eq!(github_url("o", "r"), "https://api.github.com/repos/o/r");
    assert_eq!(authorization(""), None);
    assert_eq!(authorization("t"), Some("Bearer t".into()));
    assert_eq!(aur_info_url("yay"), "https://aur.archlinux.org/rpc/v5/info/yay");
    assert_eq!(aur_search_url("yay"), "https://aur.archlinux.org/rpc/v5/search/yay");
}
