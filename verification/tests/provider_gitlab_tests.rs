use bytes_radar::net::providers::GitLabProvider;
use bytes_radar::net::ParsedRepository;

#[test]
fn gitlab_test_can_handle() {
    let provider = GitLabProvider::new();
    assert!(provider.can_handle("https://gitlab.com/user/repo"));
    assert!(provider.can_handle("https://gitlab.example.com/user/repo"));
    assert!(!provider.can_handle("https://github.com/user/repo"));
}

#[test]
fn gitlab_test_parse_basic_url() {
    let provider = GitLabProvider::new();

    let parsed = provider.parse_url("https://gitlab.com/user/repo").unwrap();
    assert_eq!(parsed.owner, "user");
    assert_eq!(parsed.repo, "repo");
    assert_eq!(parsed.project_name, "repo@main");
    assert_eq!(parsed.branch_or_commit, None);
    assert!(!parsed.is_commit);
    assert_eq!(parsed.host.as_ref().unwrap(), "gitlab.com");
}

#[test]
fn gitlab_test_parse_tree_url() {
    let provider = GitLabProvider::new();

    let parsed = provider
        .parse_url("https://gitlab.com/user/repo/-/tree/develop")
        .unwrap();
    assert_eq!(parsed.owner, "user");
    assert_eq!(parsed.repo, "repo");
    assert_eq!(parsed.project_name, "repo@develop");
    assert_eq!(parsed.branch_or_commit, Some("develop".to_string()));
    assert!(!parsed.is_commit);
}

#[test]
fn gitlab_test_build_download_urls() {
    let provider = GitLabProvider::new();

    let parsed = ParsedRepository::new("user".to_string(), "repo".to_string())
        .with_branch("main".to_string())
        .with_host("gitlab.com".to_string());

    let urls = provider.build_download_urls(&parsed);
    assert!(urls
        .contains(&"https://gitlab.com/user/repo/-/archive/main/repo-main.tar.gz".to_string()));
}

#[test]
fn test_self_hosted_gitlab() {
    let provider = GitLabProvider::new();

    let parsed = provider
        .parse_url("https://gitlab.company.com/team/project")
        .unwrap();
    assert_eq!(parsed.owner, "team");
    assert_eq!(parsed.repo, "project");
    assert_eq!(parsed.host.as_ref().unwrap(), "gitlab.company.com");
}
