use bytes_radar::net::providers::SourceForgeProvider;
use bytes_radar::net::ParsedRepository;

#[test]
fn sourceforge_test_can_handle() {
    let provider = SourceForgeProvider::new();
    assert!(provider.can_handle("https://sourceforge.net/p/project/code/"));
    assert!(provider.can_handle("https://sf.net/p/project/code/"));
    assert!(!provider.can_handle("https://github.com/user/repo"));
}

#[test]
fn sourceforge_test_parse_basic_url() {
    let provider = SourceForgeProvider::new();

    let parsed = provider
        .parse_url("https://sourceforge.net/p/myproject/code/")
        .unwrap();
    assert_eq!(parsed.owner, "sourceforge");
    assert_eq!(parsed.repo, "myproject");
    assert_eq!(parsed.project_name, "myproject@main");
    assert_eq!(parsed.branch_or_commit, None);
    assert!(!parsed.is_commit);
    assert_eq!(parsed.host.as_ref().unwrap(), "sourceforge.net");
}

#[test]
fn sourceforge_test_build_download_urls() {
    let provider = SourceForgeProvider::new();

    let parsed = ParsedRepository::new("sourceforge".to_string(), "project".to_string())
        .with_branch("master".to_string());

    let urls = provider.build_download_urls(&parsed);
    assert!(
        urls.contains(&"https://sourceforge.net/p/project/code/ci/master/tarball".to_string())
    );
}
