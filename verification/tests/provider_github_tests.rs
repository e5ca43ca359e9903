use bytes_radar::net::providers::GitHubProvider;
use bytes_radar::net::ParsedRepository;

#[test]
fn github_test_can_handle() {
    let provider = GitHubProvider::new();
    assert!(provider.can_handle("https://github.com/user/repo"));
    assert!(provider.can_handle("https://github.com/user/repo/tree/main"));
    assert!(!provider.can_handle("https://gitlab.com/user/repo"));
}

#[test]
fn github_test_parse_basic_url() {
    let provider = GitHubProvider::new();

    let parsed = provider.parse_url("https://github.com/user/repo").unwrap();
    assert_eq!(parsed.owner, "user");
    assert_eq!(parsed.repo, "repo");
    assert_eq!(parsed.project_name, "repo@main");
    assert_eq!(parsed.branch_or_commit, None);
    assert!(!parsed.is_commit);
    assert_eq!(parsed.host.as_ref().unwrap(), "github.com");
}

#[test]
fn github_test_parse_tree_url() {
    let provider = GitHubProvider::new();

    let parsed = provider
        .parse_url("https://github.com/user/repo/tree/develop")
        .unwrap();
    assert_eq!(parsed.owner, "user");
    assert_eq!(parsed.repo, "repo");
    assert_eq!(parsed.project_name, "repo@develop");
    assert_eq!(parsed.branch_or_commit, Some("develop".to_string()));
    assert!(!parsed.is_commit);
}

#[test]
fn github_test_parse_commit_url() {
    let provider = GitHubProvider::new();

    let parsed = provider
        .parse_url("https://github.com/user/repo/commit/abc1234567890")
        .unwrap();
    assert_eq!(parsed.owner, "user");
    assert_eq!(parsed.repo, "repo");
    assert_eq!(parsed.project_name, "repo@abc1234");
    assert_eq!(parsed.branch_or_commit, Some("abc1234567890".to_string()));
    assert!(parsed.is_commit);
}

#[test]
fn github_test_build_download_urls() {
    let provider = GitHubProvider::new();

    let parsed = ParsedRepository::new("user".to_string(), "repo".to_string())
        .with_branch("main".to_string());

    let urls = provider.build_download_urls(&parsed);
    assert!(urls
        .contains(&"https://github.com/user/repo/archive/refs/heads/main.tar.gz".to_string()));
    assert!(urls
        .contains(&"https://github.com/user/repo/archive/refs/tags/main.tar.gz".to_string()));
}
