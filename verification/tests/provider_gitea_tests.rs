use bytes_radar::net::providers::GiteaProvider;
use bytes_radar::net::ParsedRepository;

#[test]
fn gitea_test_can_handle() {
    let provider = GiteaProvider::new();
    assert!(provider.can_handle("https://gitea.com/user/repo"));
    assert!(provider.can_handle("https://git.company.com/user/repo"));
}

#[test]
fn gitea_test_parse_basic_url() {
    let provider = GiteaProvider::new();

    let parsed = provider.parse_url("https://gitea.com/user/repo").unwrap();
    assert_eq!(parsed.owner, "user");
    assert_eq!(parsed.repo, "repo");
    assert_eq!(parsed.project_name, "repo@main");
    assert_eq!(parsed.branch_or_commit, None);
    assert!(!parsed.is_commit);
    assert_eq!(parsed.host.as_ref().unwrap(), "gitea.com");
}

#[test]
fn gitea_test_build_download_urls() {
    let provider = GiteaProvider::new();

    let parsed = ParsedRepository::new("user".to_string(), "repo".to_string())
        .with_branch("main".to_string())
        .with_host("gitea.com".to_string());

    let urls = provider.build_download_urls(&parsed);
    assert!(urls.contains(&"https://gitea.com/user/repo/archive/main.tar.gz".to_string()));
}
