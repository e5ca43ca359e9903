use bytes_radar::net::stream::{
    detect_language, examine_entry, finish_entry, process_tarball, EntryDecision, EntryOutcome,
};
use bytes_radar::net::NoOpProgressHook;
use bytes_radar::{
    AnalysisError, FileMetrics, IntelligentFilter, LanguageDefinition, LanguageRegistry,
    ProjectAnalysis,
};

fn registry() -> LanguageRegistry {
    let mut rust = LanguageDefinition::named("Rust");
    rust.extensions.push("rs".to_string());
    rust.line_comments.push("//".to_string());
    let mut make = LanguageDefinition::named("Makefile");
    make.filenames.push("makefile".to_string());
    make.line_comments.push("#".to_string());
    let mut other = LanguageDefinition::named("Other");
    other.extensions.push("RS".to_string());
    other.filenames.push("Makefile".to_string());
    LanguageRegistry::new(vec![rust, make, other])
}

fn tarball(entries: &[(&str, &[u8], tar::EntryType)]) -> Vec<u8> {
    let encoder = flate2::write::GzEncoder::new(Vec::new(), flate2::Compression::fast());
    let mut builder = tar::Builder::new(encoder);
    for (path, content, kind) in entries {
        let mut header = tar::Header::new_gnu();
        header.set_entry_type(*kind);
        header.set_size(content.len() as u64);
        header.set_mode(0o644);
        header.set_cksum();
        builder.append_data(&mut header, path, *content).unwrap();
    }
    builder.into_inner().unwrap().finish().unwrap()
}

#[test]
fn tarball_is_read_entry_by_entry() {
    let bytes = tarball(&[
        ("repo", b"".as_slice(), tar::EntryType::Directory),
        ("repo/src/main.rs", b"// top\nfn main() {}\n".as_slice(), tar::EntryType::Regular),
        ("repo/empty.rs", b"".as_slice(), tar::EntryType::Regular),
        ("repo/.hidden/x.rs", b"fn x() {}\n".as_slice(), tar::EntryType::Regular),
        ("repo/target/debug/y.rs", b"fn y() {}\n".as_slice(), tar::EntryType::Regular),
        ("repo/logo.PNG", b"\x89PNG\r\n".as_slice(), tar::EntryType::Regular),
        ("repo/blob.rs", b"\xff\xfe\x00bad".as_slice(), tar::EntryType::Regular),
        ("repo/Makefile", b"# m\nall:\n".as_slice(), tar::EntryType::Regular),
        ("repo/notes", b"one\n\ntwo\n".as_slice(), tar::EntryType::Regular),
    ]);
    let mut project = ProjectAnalysis::new("repo@main");
    process_tarball(bytes, &mut project, &IntelligentFilter::default(), &registry(), &NoOpProgressHook).unwrap();

    assert_eq!(project.project_name, "repo@main");
    assert_eq!(project.language_analyses.len(), 3);
    let rust = project.language_analyses.get("Rust").unwrap();
    assert_eq!(rust.file_metrics.len(), 1);
    assert_eq!(rust.file_metrics[0].file_path, "repo/src/main.rs");
    assert_eq!(rust.file_metrics[0].size_bytes, 20);
    assert_eq!(rust.aggregate_metrics.total_lines, 2);
    assert_eq!(rust.aggregate_metrics.comment_lines, 1);
    assert_eq!(rust.aggregate_metrics.code_lines, 1);
    let make = project.language_analyses.get("Makefile").unwrap();
    assert_eq!(make.aggregate_metrics.comment_lines, 1);
    assert_eq!(make.aggregate_metrics.code_lines, 1);
    let text = project.language_analyses.get("Text").unwrap();
    assert_eq!(text.aggregate_metrics.total_lines, 3);
    assert_eq!(text.aggregate_metrics.blank_lines, 1);

    let summary = project.get_summary();
    assert_eq!(summary.total_files, 3);
    assert_eq!(summary.total_lines, 7);
    assert_eq!(summary.total_size_bytes, 20 + 9 + 9);
    assert_eq!(summary.primary_language, Some("Text".to_string()));
}

#[test]
fn what_is_no_archive_is_an_archive_error() {
    let mut project = ProjectAnalysis::new("p");
    let outcome = process_tarball(
        b"this is not gzip".to_vec(),
        &mut project,
        &IntelligentFilter::default(),
        &registry(),
        &NoOpProgressHook,
    );
    match outcome {
        Err(AnalysisError::ArchiveError { message }) => {
            assert!(message.starts_with("Failed to read tar entr"), "{message}")
        }
        other => panic!("unexpected: {other:?}"),
    }
    assert_eq!(project.get_summary().total_files, 0);
}

#[test]
fn a_truncated_archive_keeps_what_was_read() {
    let bytes = tarball(&[
        ("a.rs", b"fn a() {}\n".as_slice(), tar::EntryType::Regular),
        ("b.rs", vec![b'x'; 100_000].as_slice(), tar::EntryType::Regular),
    ]);
    let cut = bytes[..bytes.len() / 2].to_vec();
    let mut project = ProjectAnalysis::new("p");
    let registry = registry();
    let outcome = process_tarball(
        cut,
        &mut project,
        &IntelligentFilter::default(),
        &registry,
        &NoOpProgressHook,
    );
    assert!(matches!(outcome, Err(AnalysisError::ArchiveError { .. })) || outcome.is_ok());
    assert!(project.get_summary().total_files <= 2);
    let mut sum = 0;
    for bucket in &project.language_analyses.entries {
        sum += bucket.aggregate_metrics.total_lines;
    }
    assert_eq!(sum, project.global_metrics.total_lines);
}

#[test]
fn an_empty_archive_adds_nothing() {
    let bytes = tarball(&[]);
    let mut project = ProjectAnalysis::new("p");
    process_tarball(bytes, &mut project, &IntelligentFilter::default(), &registry(), &NoOpProgressHook).unwrap();
    assert!(project.language_analyses.is_empty());
    assert_eq!(project.get_summary().primary_language, None);
}

#[test]
fn entries_are_judged_by_their_header() {
    let filter = IntelligentFilter::default();
    assert_eq!(examine_entry(&filter, "src/a.rs", false, 10), EntryDecision::NotAFile);
    assert_eq!(examine_entry(&filter, "src/a.rs", true, 0), EntryDecision::NotAFile);
    assert_eq!(examine_entry(&filter, "src/a.rs", true, 10), EntryDecision::Read);
    assert_eq!(examine_entry(&filter, "src/a.exe", true, 10), EntryDecision::Filtered);
    assert_eq!(
        examine_entry(&filter, "src/a.rs", true, 1024 * 1024),
        EntryDecision::Read
    );
    assert_eq!(
        examine_entry(&filter, "src/a.rs", true, 1024 * 1024 + 1),
        EntryDecision::Filtered
    );
}

#[test]
fn entries_become_records_or_nothing() {
    let registry = registry();
    match finish_entry(&registry, "x/lib.rs", 12, Some("// c\ncode\n")) {
        EntryOutcome::Included(metrics) => {
            let expected = FileMetrics::new("x/lib.rs", "Rust".to_string(), 2, 1, 1, 0)
                .unwrap()
                .with_size_bytes(12);
            assert_eq!(metrics.file_path, expected.file_path);
            assert_eq!(metrics.language, expected.language);
            assert_eq!(metrics.total_lines, expected.total_lines);
            assert_eq!(metrics.code_lines, expected.code_lines);
            assert_eq!(metrics.comment_lines, expected.comment_lines);
            assert_eq!(metrics.size_bytes, expected.size_bytes);
        }
        _ => panic!("a readable entry gives a record"),
    }
    assert!(matches!(
        finish_entry(&registry, "x/lib.rs", 12, None),
        EntryOutcome::Unreadable
    ));
}

#[test]
fn language_is_detected_by_name_before_extension() {
    let registry = registry();
    assert_eq!(detect_language(&registry, "a/b/main.rs"), "Rust");
    assert_eq!(detect_language(&registry, "a/b/MAIN.RS"), "Rust");
    assert_eq!(detect_language(&registry, "a/Makefile"), "Makefile");
    assert_eq!(detect_language(&registry, "a/MAKEFILE"), "Makefile");
    assert_eq!(detect_language(&registry, "a/makefile.rs"), "Rust");
    assert_eq!(detect_language(&registry, "a/unknown.xyz"), "Text");
    assert_eq!(detect_language(&registry, "a/noextension"), "Text");
    assert_eq!(detect_language(&registry, "a/.rs"), "Text");
    assert_eq!(detect_language(&registry, ""), "Text");

    assert_eq!(registry.detect_by_extension("Rs").unwrap().name, "Rust");
    assert!(registry.detect_by_extension("py").is_none());
    assert_eq!(registry.detect_by_filename("MakeFile").unwrap().name, "Makefile");
    assert_eq!(registry.get_language("Other").unwrap().name, "Other");
    assert!(registry.get_language("rust").is_none());
    assert_eq!(registry.all_languages().len(), 3);
    let programming = registry.languages_by_type(bytes_radar::LanguageType::Programming);
    assert_eq!(programming.len(), 3);
    assert!(registry
        .languages_by_type(bytes_radar::LanguageType::Markup)
        .is_empty());
}

#[test]
fn languages_without_a_name_are_called_after_their_key() {
    let mut named = LanguageDefinition::named("C#");
    named.extensions.push("cs".to_string());
    let mut nameless = LanguageDefinition::named("");
    nameless.extensions.push("go".to_string());
    let registry = LanguageRegistry::from_entries(vec![
        ("CSharp".to_string(), named),
        ("Go".to_string(), nameless),
    ]);
    assert_eq!(registry.languages.len(), 2);
    assert_eq!(registry.languages[0].name, "C#");
    assert_eq!(registry.languages[1].name, "Go");
    assert_eq!(registry.languages[1].extensions, vec!["go"]);
    assert_eq!(detect_language(&registry, "a.cs"), "C#");
    assert!(registry.get_language("C#").is_some());
    assert!(registry.get_language("CSharp").is_none());
    assert!(LanguageRegistry::from_entries(vec![]).languages.is_empty());
}

#[test]
fn records_are_added_in_the_order_of_the_archive() {
    let bytes = tarball(&[
        ("repo/c.rs", b"fn c() {}\n".as_slice(), tar::EntryType::Regular),
        ("repo/Makefile", b"all:\n".as_slice(), tar::EntryType::Regular),
        ("repo/a.rs", b"fn a() {}\n\n".as_slice(), tar::EntryType::Regular),
        ("repo/skipped.png", b"\x89PNG".as_slice(), tar::EntryType::Regular),
        ("repo/b.rs", b"// b\n".as_slice(), tar::EntryType::Regular),
    ]);
    let mut project = ProjectAnalysis::new("repo");
    process_tarball(bytes, &mut project, &IntelligentFilter::default(), &registry(), &NoOpProgressHook).unwrap();

    let languages: Vec<&str> =
        project.language_analyses.entries.iter().map(|b| b.language_name.as_str()).collect();
    assert_eq!(languages, vec!["Rust", "Makefile"]);
    let rust = project.language_analyses.get("Rust").unwrap();
    let paths: Vec<&str> = rust.file_metrics.iter().map(|m| m.file_path.as_str()).collect();
    assert_eq!(paths, vec!["repo/c.rs", "repo/a.rs", "repo/b.rs"]);
    assert_eq!(project.global_metrics.file_count, 4);
    assert_eq!(project.global_metrics.total_lines, 5);
    assert_eq!(project.global_metrics.total_size_bytes, 10 + 5 + 11 + 5);
}

#[test]
fn reading_stops_at_the_first_record_that_is_refused() {
    let mut rust = LanguageDefinition::named("Rust");
    rust.extensions.push("rs".to_string());
    let mut nameless = LanguageDefinition::named("");
    nameless.extensions.push("odd".to_string());
    let registry = LanguageRegistry::new(vec![rust, nameless]);
    let bytes = tarball(&[
        ("a.rs", b"fn a() {}\n".as_slice(), tar::EntryType::Regular),
        ("x.odd", b"odd\n".as_slice(), tar::EntryType::Regular),
        ("b.rs", b"fn b() {}\n".as_slice(), tar::EntryType::Regular),
    ]);
    let mut project = ProjectAnalysis::new("p");
    let outcome =
        process_tarball(bytes, &mut project, &IntelligentFilter::default(), &registry, &NoOpProgressHook);
    match outcome {
        Err(AnalysisError::InvalidStatistics { reason }) => {
            assert_eq!(reason, "Language cannot be empty")
        },
        _ => panic!("the record without a language is refused"),
    }
    assert_eq!(project.language_analyses.len(), 1);
    let rust = project.language_analyses.get("Rust").unwrap();
    assert_eq!(rust.file_metrics.len(), 1);
    assert_eq!(rust.file_metrics[0].file_path, "a.rs");
    assert_eq!(project.global_metrics.file_count, 1);
}

#[test]
fn a_broken_archive_fails_after_what_was_read() {
    let bytes = tarball(&[
        ("a.rs", b"fn a() {}\n".as_slice(), tar::EntryType::Regular),
        ("b.rs", vec![b'x'; 100_000].as_slice(), tar::EntryType::Regular),
        ("c.rs", b"fn c() {}\n".as_slice(), tar::EntryType::Regular),
    ]);
    let cut = bytes[..bytes.len() / 2].to_vec();
    let mut project = ProjectAnalysis::new("p");
    let outcome =
        process_tarball(cut, &mut project, &IntelligentFilter::default(), &registry(), &NoOpProgressHook);
    match outcome {
        Err(AnalysisError::ArchiveError { message }) => {
            assert!(message.starts_with("Failed to read tar entry: "), "{message}")
        },
        _ => panic!("the reading breaks off"),
    }
    let rust = project.language_analyses.get("Rust").unwrap();
    assert_eq!(rust.file_metrics.len(), 1);
    assert_eq!(rust.file_metrics[0].file_path, "a.rs");
}

#[test]
fn entries_are_admitted_by_their_header_and_counted() {
    let filter = IntelligentFilter::default();
    let mut stats = bytes_radar::FilterStats::new();

    let no_file = bytes_radar::net::stream::admit_entry(&filter, &mut stats, "src", false, 10);
    match no_file {
        Err(AnalysisError::ArchiveError { message }) => assert_eq!(message, "Not a file or empty"),
        _ => panic!("a directory is passed over"),
    }
    let empty = bytes_radar::net::stream::admit_entry(&filter, &mut stats, "src/a.rs", true, 0);
    assert!(empty.is_err());
    assert_eq!(stats.total_entries, 0);

    let left_out =
        bytes_radar::net::stream::admit_entry(&filter, &mut stats, "target/a.rs", true, 7);
    match left_out {
        Err(AnalysisError::ArchiveError { message }) => assert_eq!(message, "File filtered out"),
        _ => panic!("a build directory is left out"),
    }
    assert_eq!(stats.total_entries, 1);
    assert_eq!(stats.filtered_out, 1);
    assert_eq!(stats.bytes_saved, 7);

    assert!(bytes_radar::net::stream::admit_entry(&filter, &mut stats, "src/a.rs", true, 9).is_ok());
    assert_eq!(stats.total_entries, 2);
    assert_eq!(stats.processed, 1);
    assert_eq!(stats.bytes_saved, 7);

    stats.total_entries = usize::MAX;
    let full = bytes_radar::net::stream::admit_entry(&filter, &mut stats, "src/b.rs", true, 9);
    match full {
        Err(AnalysisError::ArchiveError { message }) => {
            assert_eq!(message, "Too many entries to count")
        },
        _ => panic!("the tally is full"),
    }
    assert_eq!(stats.processed, 1);
}

#[test]
fn reading_an_archive_twice_gives_the_same_report() {
    let bytes = tarball(&[
        ("repo/c.rs", b"fn c() {}\n// c\n".as_slice(), tar::EntryType::Regular),
        ("repo/Makefile", b"all:\n\n".as_slice(), tar::EntryType::Regular),
        ("repo/docs", b"".as_slice(), tar::EntryType::Directory),
        ("repo/a.rs", b"fn a() {}\n".as_slice(), tar::EntryType::Regular),
    ]);
    let mut first = ProjectAnalysis::new("repo");
    let mut second = ProjectAnalysis::new("repo");
    let filter = IntelligentFilter::default();
    let one = process_tarball(bytes.clone(), &mut first, &filter, &registry(), &NoOpProgressHook);
    let other = process_tarball(bytes, &mut second, &filter, &registry(), &NoOpProgressHook);
    assert_eq!(one.is_ok(), other.is_ok());
    assert_eq!(first.global_metrics.total_lines, second.global_metrics.total_lines);
    assert_eq!(first.global_metrics.total_size_bytes, second.global_metrics.total_size_bytes);
    assert_eq!(first.language_analyses.len(), second.language_analyses.len());
    for (left, right) in
        first.language_analyses.entries.iter().zip(second.language_analyses.entries.iter())
    {
        assert_eq!(left.language_name, right.language_name);
        assert_eq!(left.file_metrics.len(), right.file_metrics.len());
        assert_eq!(left.aggregate_metrics.code_lines, right.aggregate_metrics.code_lines);
    }
    assert_eq!(first.global_metrics.file_count, 3);
}
