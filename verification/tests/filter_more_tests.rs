use bytes_radar::analysis::Ratio;
use bytes_radar::filter::{
    binary_extension, build_directory_name, docs_directory_name, package_directory_name,
    test_directory_name, FilterStats, IntelligentFilter,
};

#[test]
fn case_is_folded_before_names_are_compared() {
    let filter = IntelligentFilter::default();
    assert!(!filter.should_process_file("FILE.EXE", 1));
    assert!(!filter.should_process_file("Target/debug/main.rs", 1));
    assert!(!filter.should_process_file("src/NODE_MODULES/x.js", 1));
    assert!(!filter.should_process_file("cmake-build-Debug/x.c", 1));
    assert!(filter.should_process_file("cmake-builds/x.c", 1));
    assert!(!filter.should_process_file("a/.cargo/config", 1));

    let aggressive = IntelligentFilter::aggressive();
    assert!(aggressive.should_process_file("src/MAIN.RS", 1));
    assert!(!aggressive.should_process_file("src/main", 1));
    assert!(!aggressive.should_process_file("src/main.md", 1));
    assert!(!aggressive.should_process_file("Tests/x.rs", 1));
    assert!(!aggressive.should_process_file("DOCS/x.rs", 1));
    assert!(!aggressive.should_process_file("a/__pycache__/x.py", 1));
    assert!(!aggressive.should_process_file("a/examples/x.rs", 1));
    assert!(aggressive.should_process_file("a/b.rs", 512 * 1024));
    assert!(!aggressive.should_process_file("a/b.rs", 512 * 1024 + 1));
}

#[test]
fn paths_are_taken_apart_by_components() {
    let filter = IntelligentFilter::default();
    assert!(filter.should_process_file("a/b/c.rs", 1));
    assert!(!filter.should_process_file("a/.b/c.rs", 1));
    assert!(!filter.should_process_file("a/b/.c.rs", 1));
    assert!(!filter.should_process_file("./a/b.rs", 1));
    assert!(!filter.should_process_file("../a/b.rs", 1));
    assert!(filter.should_process_file("a/./b.rs", 1));
    assert!(filter.should_process_file("a//b.rs", 1));
    assert!(filter.should_process_file("a.b/c", 1));
    assert!(filter.should_process_file("mytarget/x.rs", 1));
    assert!(!filter.should_process_file("x/build/", 1));
    assert!(!filter.should_process_file("photo.jpeg", 1));
    assert!(filter.should_process_file("jpeg", 1));
    assert!(filter.should_process_file("a.jpeg/readme", 1));
}

#[test]
fn parts_decide_what_the_path_decides() {
    let filter = IntelligentFilter::default();
    let parts = |items: &[&str]| items.iter().map(|s| s.to_string()).collect::<Vec<String>>();
    assert!(filter.should_process_parts("src/main.rs", &parts(&["src", "main.rs"]), Some("rs"), 1));
    assert!(!filter.should_process_parts("src/main.rs", &parts(&["src", ".git"]), Some("rs"), 1));
    assert!(!filter.should_process_parts("x", &parts(&["x"]), Some("PnG"), 1));
    assert!(!filter.should_process_parts("x", &parts(&["Vendor", "x"]), None, 1));
    assert!(filter.should_process_parts("x", &parts(&[]), None, 1024 * 1024));
    assert!(!filter.should_process_parts("x", &parts(&[]), None, 1024 * 1024 + 1));
    assert!(filter.is_hidden_file(&parts(&["a", ".b"])));
    assert!(!filter.is_hidden_file(&parts(&["a", "b."])));
    assert!(!filter.is_hidden_file(&parts(&["", "a"])));
    assert!(filter.is_binary_file(&Some("exe".to_string())));
    assert!(!filter.is_binary_file(&Some("EXE".to_string())));
    assert!(!filter.is_binary_file(&None));
    assert!(filter.is_in_build_directory(&parts(&["x", "dist"])));
    assert!(!filter.is_in_build_directory(&parts(&["x", "Dist"])));
    assert!(filter.is_in_package_directory(&parts(&[".nuget"])));
    assert!(filter.is_in_test_directory(&parts(&["a", "spec", "b"])));
    assert!(filter.is_in_docs_directory(&parts(&[".github"])));
    assert!(!filter.is_in_docs_directory(&parts(&[])));
}

#[test]
fn names_are_classified() {
    for name in [
        "exe", "dll", "so", "dylib", "bin", "obj", "o", "a", "lib", "jpg", "jpeg", "png", "gif",
        "bmp", "ico", "svg", "webp", "tiff", "mp3", "mp4", "wav", "avi", "mov", "wmv", "flv",
        "mkv", "webm", "zip", "tar", "gz", "bz2", "xz", "7z", "rar", "jar", "war", "pdf", "doc",
        "docx", "xls", "xlsx", "ppt", "pptx", "ttf", "otf", "woff", "woff2", "eot",
    ] {
        assert!(binary_extension(name), "{name}");
    }
    for name in ["rs", "", "ex", "exee", "EXE", "txt", "woff3"] {
        assert!(!binary_extension(name), "{name}");
    }
    for name in ["target", "build", "dist", "out", ".cargo", "cmake-build-", "cmake-build-x"] {
        assert!(build_directory_name(name), "{name}");
    }
    for name in ["targets", "cmake-build", "src", ""] {
        assert!(!build_directory_name(name), "{name}");
    }
    for name in ["node_modules", "vendor", ".nuget", "packages", ".pub-cache", "bower_components"] {
        assert!(package_directory_name(name), "{name}");
    }
    assert!(!package_directory_name("package"));
    for name in ["tests", "test", "__tests__", "spec", "__pycache__"] {
        assert!(test_directory_name(name), "{name}");
    }
    assert!(!test_directory_name("testing"));
    for name in ["docs", "doc", "documentation", ".github", "examples"] {
        assert!(docs_directory_name(name), "{name}");
    }
    assert!(!docs_directory_name("example"));
}

#[test]
fn patterns_match_with_one_star_at_most() {
    let filter = IntelligentFilter::new();
    assert!(filter.glob_match("*.lock", "Cargo.lock"));
    assert!(filter.glob_match("*.lock", ".lock"));
    assert!(!filter.glob_match("*.lock", "Cargo.lock.bak"));
    assert!(filter.glob_match("src/*", "src/a/b.rs"));
    assert!(filter.glob_match("a*a", "a"));
    assert!(filter.glob_match("*", ""));
    assert!(filter.glob_match("*", "anything"));
    assert!(!filter.glob_match("a*b*c", "abc"));
    assert!(!filter.glob_match("**", "x"));
    assert!(filter.glob_match("exact", "exact"));
    assert!(!filter.glob_match("exact", "exactly"));
    assert!(filter.glob_match("", ""));

    let mut custom = IntelligentFilter::new();
    assert!(!custom.matches_custom_ignore_patterns("Cargo.lock"));
    custom.custom_ignore_patterns.push("*.lock".to_string());
    custom.custom_ignore_patterns.push("LICENSE".to_string());
    assert!(custom.matches_custom_ignore_patterns("Cargo.lock"));
    assert!(custom.matches_custom_ignore_patterns("LICENSE"));
    assert!(!custom.matches_custom_ignore_patterns("src/LICENSE"));
    assert!(!custom.should_process_file("Cargo.lock", 1));
    assert!(custom.should_process_file("Cargo.toml", 1));

    let aggressive = IntelligentFilter::aggressive();
    assert_eq!(
        aggressive.custom_ignore_patterns,
        vec!["*.lock", "*.log", "*.tmp", "*.temp", "*.cache"]
    );
    assert_eq!(aggressive.allowed_extensions.as_ref().unwrap().len(), 20);
    assert_eq!(aggressive.allowed_extensions.as_ref().unwrap()[0], "rs");
    assert_eq!(aggressive.allowed_extensions.as_ref().unwrap()[19], "tsx");
    assert_eq!(aggressive.max_file_size, 512 * 1024);
    let default = IntelligentFilter::default();
    assert_eq!(default.max_file_size, 1024 * 1024);
    assert!(default.ignore_hidden && default.ignore_binary);
    assert!(default.ignore_build_dirs && default.ignore_package_dirs);
    assert!(!default.ignore_test_dirs && !default.ignore_docs_dirs);
    assert!(default.custom_ignore_patterns.is_empty());
    assert!(default.allowed_extensions.is_none());
}

#[test]
fn entries_are_tallied() {
    let mut stats = FilterStats::new();
    assert_eq!(stats.filter_ratio(), Ratio { numerator: 0, denominator: 1 });
    assert_eq!(stats.format_bytes_saved(), "0 B");
    stats.record_entry(100, false);
    stats.record_entry(2048, true);
    stats.record_entry(1024, true);
    assert_eq!(stats.total_entries, 3);
    assert_eq!(stats.processed, 1);
    assert_eq!(stats.filtered_out, 2);
    assert_eq!(stats.bytes_saved, 3072);
    assert_eq!(stats.filter_ratio(), Ratio { numerator: 2, denominator: 3 });
    assert_eq!(stats.format_bytes_saved(), "3.0 KiB");
    assert!(stats.has_room_for(u64::MAX - 3072, true));
    assert!(!stats.has_room_for(u64::MAX - 3071, true));
    assert!(stats.has_room_for(u64::MAX, false));
    stats.record_entry(5 * 1024 * 1024 * 1024 * 1024, true);
    assert_eq!(stats.format_bytes_saved(), "5120.0 GiB");
}
