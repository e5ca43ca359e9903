use bytes_radar::net::providers::ArchiveProvider;

#[test]
fn archive_test_can_handle() {
    let provider = ArchiveProvider::new();
    assert!(provider.can_handle("https://example.com/project.tar.gz"));
    assert!(provider.can_handle("https://example.com/project.tgz"));
    assert!(provider.can_handle("https://example.com/project.tar.bz2"));
    assert!(provider.can_handle("https://example.com/project.tar.xz"));
    assert!(provider.can_handle("https://example.com/project.zip"));
    assert!(provider.can_handle("https://example.com/archive/main.tar.gz"));
    assert!(provider.can_handle("https://example.com/tarball/main"));
    assert!(provider.can_handle("https://example.com/zipball/main"));
    assert!(!provider.can_handle("https://github.com/user/repo"));
}

#[test]
fn test_parse_tar_gz_url() {
    let provider = ArchiveProvider::new();

    let parsed = provider
        .parse_url("https://example.com/myproject.tar.gz")
        .unwrap();
    assert_eq!(parsed.owner, "archive");
    assert_eq!(parsed.repo, "myproject");
    assert_eq!(parsed.project_name, "myproject@main");
    assert_eq!(parsed.branch_or_commit, None);
    assert!(!parsed.is_commit);
    assert_eq!(parsed.host.as_ref().unwrap(), "example.com");
}

#[test]
fn test_parse_tgz_url() {
    let provider = ArchiveProvider::new();

    let parsed = provider
        .parse_url("https://cdn.example.com/releases/v1.0.0.tgz")
        .unwrap();
    assert_eq!(parsed.owner, "archive");
    assert_eq!(parsed.repo, "v1.0.0");
    assert_eq!(parsed.project_name, "v1.0.0@main");
    assert_eq!(parsed.host.as_ref().unwrap(), "cdn.example.com");
}

#[test]
fn test_parse_zip_url() {
    let provider = ArchiveProvider::new();

    let parsed = provider
        .parse_url("https://releases.example.com/project-v2.0.zip")
        .unwrap();
    assert_eq!(parsed.owner, "archive");
    assert_eq!(parsed.repo, "project-v2.0");
    assert_eq!(parsed.project_name, "project-v2.0@main");
    assert_eq!(parsed.host.as_ref().unwrap(), "releases.example.com");
}

#[test]
fn test_extract_name_from_filename() {
    let provider = ArchiveProvider::new();

    assert_eq!(
        provider.extract_name_from_filename("project.tar.gz"),
        "project"
    );
    assert_eq!(
        provider.extract_name_from_filename("mylib-v1.0.0.tgz"),
        "mylib-v1.0.0"
    );
    assert_eq!(
        provider.extract_name_from_filename("source.tar.bz2"),
        "source"
    );
    assert_eq!(
        provider.extract_name_from_filename("archive.tar.xz"),
        "archive"
    );
    assert_eq!(
        provider.extract_name_from_filename("release.zip"),
        "release"
    );
}

#[test]
fn test_extract_host_from_url() {
    let provider = ArchiveProvider::new();

    assert_eq!(
        provider.extract_host_from_url("https://example.com/file.tar.gz"),
        "example.com"
    );
    assert_eq!(
        provider.extract_host_from_url("http://cdn.example.org/releases/v1.0.tgz"),
        "cdn.example.org"
    );
    assert_eq!(
        provider.extract_host_from_url("https://api.github.com/repos/user/repo/tarball/main"),
        "api.github.com"
    );
}

#[test]
fn test_get_project_name() {
    let provider = ArchiveProvider::new();

    assert_eq!(
        provider.get_project_name("https://example.com/myproject.tar.gz"),
        "myproject"
    );
    assert_eq!(
        provider.get_project_name("https://releases.example.com/v1.2.3.tgz"),
        "v1.2.3"
    );
}
