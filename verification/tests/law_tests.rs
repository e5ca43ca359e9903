use bytes_radar::analysis::Ratio;
use bytes_radar::{
    AggregateMetrics, AnalysisError, FileCategory, FileMetrics, LanguageAnalysis, ProjectAnalysis,
};

fn file(path: &str, language: &str, code: usize, comment: usize, blank: usize, size: u64) -> FileMetrics {
    FileMetrics::new(path, language.to_string(), code + comment + blank, code, comment, blank)
        .unwrap()
        .with_size_bytes(size)
}

fn sample_files() -> Vec<FileMetrics> {
    vec![
        file("a.rs", "Rust", 10, 2, 1, 100),
        file("b.py", "Python", 7, 0, 3, 50),
        file("c.rs", "Rust", 0, 5, 0, 10),
        file("d.go", "Go", 13, 0, 0, 70),
        file("e.py", "Python", 1, 1, 1, 5),
        file("f.txt", "Text", 0, 0, 0, 0),
    ]
}

fn copy(metrics: &FileMetrics) -> FileMetrics {
    FileMetrics::new(
        &metrics.file_path,
        metrics.language.clone(),
        metrics.total_lines,
        metrics.code_lines,
        metrics.comment_lines,
        metrics.blank_lines,
    )
    .unwrap()
    .with_size_bytes(metrics.size_bytes)
    .with_category(metrics.category)
}

#[test]
fn construction_fails_unless_the_counts_add_up() {
    for (total, code, comment, blank) in [
        (0usize, 0usize, 0usize, 0usize),
        (3, 1, 1, 1),
        (10, 10, 0, 0),
        (usize::MAX, usize::MAX - 2, 1, 1),
    ] {
        let metrics = FileMetrics::new("p", "L".to_string(), total, code, comment, blank).unwrap();
        assert_eq!(metrics.total_lines, metrics.code_lines + metrics.comment_lines + metrics.blank_lines);
        assert_eq!(metrics.size_bytes, 0);
        assert_eq!(metrics.category, FileCategory::Source);
    }
    for (total, code, comment, blank) in [
        (1usize, 0usize, 0usize, 0usize),
        (0, 1, 0, 0),
        (100, 60, 20, 15),
        (usize::MAX, usize::MAX, 1, 0),
        (0, usize::MAX, 1, 0),
        (5, usize::MAX, usize::MAX, usize::MAX),
    ] {
        assert!(FileMetrics::new("p", "L".to_string(), total, code, comment, blank).is_err());
    }
    match FileMetrics::new("test.rs", "Rust".to_string(), 100, 60, 20, 15) {
        Err(AnalysisError::InvalidStatistics { reason }) => {
            assert_eq!(reason, "Line count mismatch: total=100, sum of parts=95")
        }
        other => panic!("unexpected: {other:?}"),
    }
    match FileMetrics::new("test.rs", "Rust".to_string(), 1, usize::MAX, 2, 0) {
        Err(AnalysisError::InvalidStatistics { reason }) => {
            let sum = usize::MAX as u128 + 2;
            assert_eq!(reason, format!("Line count mismatch: total=1, sum of parts={sum}"))
        }
        other => panic!("unexpected: {other:?}"),
    }
}

#[test]
fn validation_names_the_first_rule_broken() {
    let mut metrics = file("p", "L", 1, 1, 1, 0);
    assert!(metrics.validate().is_ok());
    metrics.total_lines = 4;
    match metrics.validate() {
        Err(AnalysisError::InvalidStatistics { reason }) => assert_eq!(reason, "Line counts don't add up"),
        other => panic!("unexpected: {other:?}"),
    }
    metrics.language = String::new();
    match metrics.validate() {
        Err(AnalysisError::InvalidStatistics { reason }) => assert_eq!(reason, "Language cannot be empty"),
        other => panic!("unexpected: {other:?}"),
    }
    metrics.file_path = String::new();
    match metrics.validate() {
        Err(AnalysisError::InvalidStatistics { reason }) => assert_eq!(reason, "File path cannot be empty"),
        other => panic!("unexpected: {other:?}"),
    }
}

#[test]
fn global_totals_are_the_sums_over_the_languages() {
    let mut project = ProjectAnalysis::new("p");
    for metrics in sample_files() {
        project.add_file_metrics(metrics).unwrap();
        let mut sum = AggregateMetrics::default();
        for bucket in &project.language_analyses.entries {
            sum.total_lines += bucket.aggregate_metrics.total_lines;
            sum.code_lines += bucket.aggregate_metrics.code_lines;
            sum.comment_lines += bucket.aggregate_metrics.comment_lines;
            sum.blank_lines += bucket.aggregate_metrics.blank_lines;
            sum.total_size_bytes += bucket.aggregate_metrics.total_size_bytes;
            sum.file_count += bucket.aggregate_metrics.file_count;
            assert_eq!(bucket.aggregate_metrics.file_count, bucket.file_metrics.len());
        }
        assert_eq!(sum.total_lines, project.global_metrics.total_lines);
        assert_eq!(sum.code_lines, project.global_metrics.code_lines);
        assert_eq!(sum.comment_lines, project.global_metrics.comment_lines);
        assert_eq!(sum.blank_lines, project.global_metrics.blank_lines);
        assert_eq!(sum.total_size_bytes, project.global_metrics.total_size_bytes);
        assert_eq!(sum.file_count, project.global_metrics.file_count);
    }
    assert_eq!(project.global_metrics.total_lines, 44);
    assert_eq!(project.global_metrics.total_size_bytes, 235);
    assert_eq!(project.global_metrics.file_count, 6);
    assert_eq!(project.language_analyses.len(), 4);
}

#[test]
fn an_invalid_record_changes_nothing() {
    let mut project = ProjectAnalysis::new("p");
    project.add_file_metrics(file("a.rs", "Rust", 1, 1, 1, 9)).unwrap();
    let mut bad = file("b.rs", "Rust", 1, 1, 1, 9);
    bad.code_lines = 7;
    assert!(matches!(
        project.add_file_metrics(bad),
        Err(AnalysisError::InvalidStatistics { .. })
    ));
    let mut nameless = file("c.rs", "Rust", 1, 1, 1, 9);
    nameless.language = String::new();
    assert!(project.add_file_metrics(nameless).is_err());
    assert_eq!(project.language_analyses.len(), 1);
    assert_eq!(project.global_metrics.file_count, 1);
    assert_eq!(project.global_metrics.total_lines, 3);
    assert_eq!(project.global_metrics.total_size_bytes, 9);
}

#[test]
fn totals_do_not_depend_on_the_order() {
    let files = sample_files();
    let mut expected = None;
    for rotation in 0..files.len() {
        for reversed in [false, true] {
            let mut order: Vec<usize> = (0..files.len()).map(|i| (i + rotation) % files.len()).collect();
            if reversed {
                order.reverse();
            }
            let mut project = ProjectAnalysis::new("p");
            for i in order {
                project.add_file_metrics(copy(&files[i])).unwrap();
            }
            let summary = project.get_summary();
            let seen = (
                summary.total_files,
                summary.total_lines,
                summary.total_code_lines,
                summary.total_comment_lines,
                summary.total_blank_lines,
                summary.total_size_bytes,
                summary.language_count,
                summary.primary_language.clone(),
            );
            match &expected {
                None => expected = Some(seen),
                Some(first) => assert_eq!(first, &seen),
            }
            let names: Vec<String> = project
                .get_language_statistics()
                .iter()
                .map(|s| s.language_name.clone())
                .collect();
            assert_eq!(names, vec!["Rust", "Go", "Python", "Text"]);
        }
    }
    let expected = expected.unwrap();
    assert_eq!(expected.0, 6);
    assert_eq!(expected.1, 44);
    assert_eq!(expected.7, Some("Rust".to_string()));
}

#[test]
fn stored_ratios_follow_from_the_counts() {
    let mut project = ProjectAnalysis::new("p");
    for metrics in sample_files() {
        project.add_file_metrics(metrics).unwrap();
    }
    for stats in project.get_language_statistics() {
        let complexity = if stats.total_lines == 0 {
            Ratio { numerator: 0, denominator: 1 }
        } else {
            Ratio { numerator: stats.code_lines, denominator: stats.total_lines }
        };
        let documentation = if stats.code_lines == 0 {
            Ratio { numerator: 0, denominator: 1 }
        } else {
            Ratio { numerator: stats.comment_lines, denominator: stats.code_lines }
        };
        let average = if stats.file_count == 0 {
            Ratio { numerator: 0, denominator: 1 }
        } else {
            Ratio { numerator: stats.total_lines, denominator: stats.file_count }
        };
        assert_eq!(stats.complexity_ratio, complexity);
        assert_eq!(stats.documentation_ratio, documentation);
        assert_eq!(stats.average_file_size, average);
        assert!(stats.complexity_ratio.denominator > 0);
    }
    let rust = project.language_analyses.get("Rust").unwrap().calculate_statistics();
    assert_eq!(rust.complexity_ratio, Ratio { numerator: 10, denominator: 18 });
    assert_eq!(rust.documentation_ratio, Ratio { numerator: 7, denominator: 10 });
    assert_eq!(rust.average_file_size, Ratio { numerator: 18, denominator: 2 });
    let summary = project.get_summary();
    assert_eq!(summary.overall_complexity_ratio, Ratio { numerator: 31, denominator: 44 });
    assert_eq!(summary.overall_documentation_ratio, Ratio { numerator: 8, denominator: 31 });
}

#[test]
fn ratios_of_nothing_are_zero() {
    let empty = AggregateMetrics::default();
    assert_eq!(empty.complexity_ratio(), Ratio { numerator: 0, denominator: 1 });
    assert_eq!(empty.documentation_ratio(), Ratio { numerator: 0, denominator: 1 });
    let no_lines = file("x", "L", 0, 0, 0, 3);
    assert_eq!(no_lines.complexity_ratio(), Ratio { numerator: 0, denominator: 1 });
    assert_eq!(no_lines.documentation_ratio(), Ratio { numerator: 0, denominator: 1 });
    let bucket = LanguageAnalysis::new("L".to_string());
    let stats = bucket.calculate_statistics();
    assert_eq!(stats.file_count, 0);
    assert_eq!(stats.average_file_size, Ratio { numerator: 0, denominator: 1 });
    let summary = ProjectAnalysis::new("p").get_summary();
    assert_eq!(summary.overall_complexity_ratio, Ratio { numerator: 0, denominator: 1 });
    assert_eq!(summary.primary_language, None);
    assert_eq!(summary.language_count, 0);
    assert_eq!(summary.project_name, "p");
}

#[test]
fn languages_are_ranked_by_lines_and_then_by_name() {
    let mut project = ProjectAnalysis::new("p");
    for (language, lines) in [("beta", 5usize), ("Zeta", 9), ("alpha", 5), ("Alpha", 5), ("b", 5), ("", 0)] {
        if language.is_empty() {
            continue;
        }
        project
            .add_file_metrics(file("f", language, lines, 0, 0, 1))
            .unwrap();
    }
    let names: Vec<String> = project
        .get_language_statistics()
        .iter()
        .map(|s| s.language_name.clone())
        .collect();
    assert_eq!(names, vec!["Zeta", "Alpha", "alpha", "b", "beta"]);
    assert_eq!(project.get_summary().primary_language, Some("Zeta".to_string()));
}

#[test]
fn merging_takes_files_in_order_until_one_is_refused() {
    let mut target = LanguageAnalysis::new("Rust".to_string());
    target.add_file_metrics(file("a.rs", "Rust", 1, 0, 0, 1)).unwrap();
    let mut source = LanguageAnalysis::new("Rust".to_string());
    source.file_metrics.push(file("b.rs", "Rust", 2, 0, 0, 2));
    source.file_metrics.push(file("c.py", "Python", 4, 0, 0, 4));
    source.file_metrics.push(file("d.rs", "Rust", 8, 0, 0, 8));
    let merged = target.merge(source);
    assert!(matches!(merged, Err(AnalysisError::InvalidStatistics { .. })));
    assert_eq!(target.file_metrics.len(), 2);
    assert_eq!(target.file_metrics[1].file_path, "b.rs");
    assert_eq!(target.aggregate_metrics.total_lines, 3);
    assert_eq!(target.aggregate_metrics.total_size_bytes, 3);

    let other = LanguageAnalysis::new("Go".to_string());
    match target.merge(other) {
        Err(AnalysisError::AggregationError { operation }) => {
            assert_eq!(operation, "Cannot merge different languages: 'Rust' and 'Go'")
        }
        other => panic!("unexpected: {other:?}"),
    }
    assert_eq!(target.file_metrics.len(), 2);
}

#[test]
fn room_is_known_before_counting() {
    let mut aggregate = AggregateMetrics::default();
    let big = file("x", "L", usize::MAX, 0, 0, u64::MAX);
    assert!(aggregate.has_room_for(&big));
    aggregate.incorporate(&big);
    assert_eq!(aggregate.total_lines, usize::MAX);
    assert!(!aggregate.has_room_for(&file("y", "L", 1, 0, 0, 0)));
    assert!(!aggregate.has_room_for(&file("y", "L", 0, 0, 0, 1)));
    assert!(aggregate.has_room_for(&file("y", "L", 0, 0, 0, 0)));

    let mut project = ProjectAnalysis::new("p");
    assert!(project.has_room_for(&big));
    project.add_file_metrics(big).unwrap();
    assert!(!project.has_room_for(&file("y", "M", 1, 0, 0, 0)));
    assert!(project.has_room_for(&file("y", "M", 0, 0, 0, 0)));
}

#[test]
fn every_error_describes_itself() {
    let io = || std::io::Error::other("boom");
    let cases: Vec<(AnalysisError, &str)> = vec![
        (AnalysisError::file_read("a.txt", io()), "Failed to read file: a.txt"),
        (AnalysisError::unsupported_extension("xyz"), "Unsupported file extension: xyz"),
        (AnalysisError::language_not_found("Klingon"), "Language not found: Klingon"),
        (AnalysisError::invalid_statistics("bad"), "Invalid file statistics: bad"),
        (AnalysisError::directory_traversal("/d", io()), "Directory traversal failed: /d"),
        (AnalysisError::language_detection("f"), "Language detection failed for file: f"),
        (AnalysisError::configuration("c"), "Configuration error: c"),
        (AnalysisError::xml_serialization("x"), "XML serialization error: x"),
        (AnalysisError::aggregation("op"), "Aggregation error: op"),
        (AnalysisError::network("down"), "Network error: down"),
        (AnalysisError::archive("torn"), "Archive processing error: torn"),
        (AnalysisError::url_parsing("u"), "URL parsing error: u"),
    ];
    for (error, text) in cases {
        assert_eq!(error.message(), text);
    }
    let json = serde_json::from_str::<serde_json::Value>("{").unwrap_err();
    let error = AnalysisError::from(json);
    assert!(matches!(error, AnalysisError::JsonSerializationError { .. }));
    assert_eq!(error.message(), "JSON serialization error");
    assert_eq!(FileCategory::default(), FileCategory::Source);
    assert_eq!(FileCategory::Documentation.name(), "Documentation");
    assert_eq!(FileCategory::Build.name(), "Build");
}
