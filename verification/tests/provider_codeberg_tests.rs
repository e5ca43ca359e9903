use bytes_radar::net::providers::CodebergProvider;
use bytes_radar::net::ParsedRepository;

#[test]
fn codeberg_test_can_handle() {
    let provider = CodebergProvider::new();
    assert!(provider.can_handle("https://codeberg.org/user/repo"));
    assert!(provider.can_handle("https://codeberg.org/user/repo/commit/abc123"));
    assert!(!provider.can_handle("https://github.com/user/repo"));
}

#[test]
fn codeberg_test_parse_basic_url() {
    let provider = CodebergProvider::new();

    let parsed = provider
        .parse_url("https://codeberg.org/user/repo")
        .unwrap();
    assert_eq!(parsed.owner, "user");
    assert_eq!(parsed.repo, "repo");
    assert_eq!(parsed.project_name, "repo@main");
    assert_eq!(parsed.branch_or_commit, None);
    assert!(!parsed.is_commit);
    assert_eq!(parsed.host.as_ref().unwrap(), "codeberg.org");
}

#[test]
fn codeberg_test_parse_branch_url() {
    let provider = CodebergProvider::new();

    let parsed = provider
        .parse_url("https://codeberg.org/user/repo/src/branch/develop")
        .unwrap();
    assert_eq!(parsed.owner, "user");
    assert_eq!(parsed.repo, "repo");
    assert_eq!(parsed.project_name, "repo@develop");
    assert_eq!(parsed.branch_or_commit, Some("develop".to_string()));
    assert!(!parsed.is_commit);
}

#[test]
fn codeberg_test_parse_commit_url() {
    let provider = CodebergProvider::new();

    let parsed = provider
        .parse_url("https://codeberg.org/user/repo/commit/abc1234567890")
        .unwrap();
    assert_eq!(parsed.owner, "user");
    assert_eq!(parsed.repo, "repo");
    assert_eq!(parsed.project_name, "repo@abc1234");
    assert_eq!(parsed.branch_or_commit, Some("abc1234567890".to_string()));
    assert!(parsed.is_commit);
}

#[test]
fn codeberg_test_build_download_urls() {
    let provider = CodebergProvider::new();

    let parsed = ParsedRepository::new("user".to_string(), "repo".to_string())
        .with_branch("main".to_string());

    let urls = provider.build_download_urls(&parsed);
    assert!(urls.contains(&"https://codeberg.org/user/repo/archive/main.tar.gz".to_string()));
}
