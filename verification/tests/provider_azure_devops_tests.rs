use bytes_radar::net::providers::AzureDevOpsProvider;

#[test]
fn azure_devops_test_can_handle() {
    let provider = AzureDevOpsProvider::new();
    assert!(provider.can_handle("https://dev.azure.com/org/project/_git/repo"));
    assert!(provider.can_handle("https://org.visualstudio.com/project/_git/repo"));
    assert!(!provider.can_handle("https://github.com/user/repo"));
}

#[test]
fn azure_devops_test_parse_basic_url() {
    let provider = AzureDevOpsProvider::new();

    let parsed = provider
        .parse_url("https://dev.azure.com/myorg/myproject/_git/myrepo")
        .unwrap();
    assert_eq!(parsed.owner, "myorg/myproject");
    assert_eq!(parsed.repo, "myrepo");
    assert_eq!(parsed.project_name, "myrepo@main");
    assert_eq!(parsed.branch_or_commit, None);
    assert!(!parsed.is_commit);
    assert_eq!(parsed.host.as_ref().unwrap(), "dev.azure.com");
}

#[test]
fn azure_devops_test_parse_branch_url() {
    let provider = AzureDevOpsProvider::new();

    let parsed = provider
        .parse_url("https://dev.azure.com/myorg/myproject/_git/myrepo?version=GBdevelop")
        .unwrap();
    assert_eq!(parsed.owner, "myorg/myproject");
    assert_eq!(parsed.repo, "myrepo");
    assert_eq!(parsed.project_name, "myrepo@develop");
    assert_eq!(parsed.branch_or_commit, Some("develop".to_string()));
    assert!(!parsed.is_commit);
}
