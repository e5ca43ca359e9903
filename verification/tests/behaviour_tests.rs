use bytes_radar::classifier::count_lines;
use bytes_radar::cli::expand_url;
use bytes_radar::net::stream::{process_tarball, ChunkEvent, ReadStep, StreamReader};
use bytes_radar::net::NoOpProgressHook;
use bytes_radar::{
    analyze_file_content, AnalysisError, FileMetrics, IntelligentFilter, LanguageAnalysis,
    LanguageDefinition, LanguageRegistry, ProjectAnalysis,
};

fn c_like(name: &str, extension: &str) -> LanguageDefinition {
    let mut definition = LanguageDefinition::named(name);
    definition.extensions.push(extension.to_string());
    definition.line_comments.push("//".to_string());
    definition
        .multi_line_comments
        .push(("/*".to_string(), "*/".to_string()));
    definition
}

fn sample_registry() -> LanguageRegistry {
    let mut makefile = LanguageDefinition::named("Makefile");
    makefile.filenames.push("Makefile".to_string());
    makefile.extensions.push("mk".to_string());
    makefile.line_comments.push("#".to_string());
    let mut json = LanguageDefinition::named("JSON");
    json.extensions.push("json".to_string());
    json.is_blank = true;
    LanguageRegistry::new(vec![
        c_like("Rust", "rs"),
        c_like("JavaScript", "js"),
        makefile,
        json,
    ])
}

fn archive_of(files: &[(&str, &[u8])]) -> Vec<u8> {
    let encoder = flate2::write::GzEncoder::new(Vec::new(), flate2::Compression::default());
    let mut builder = tar::Builder::new(encoder);
    for (path, content) in files {
        let mut header = tar::Header::new_gnu();
        header.set_size(content.len() as u64);
        header.set_mode(0o644);
        header.set_cksum();
        builder.append_data(&mut header, path, *content).unwrap();
    }
    builder.into_inner().unwrap().finish().unwrap()
}

#[test]
fn a_small_file_is_classified() {
    let content = "// header\ncode();\n\n/* block\nstill */\nmore();";
    let counts = count_lines(
        content,
        &vec!["//".to_string()],
        &vec![("/*".to_string(), "*/".to_string())],
    );
    assert_eq!(counts.total_lines, 6);
    assert_eq!(counts.blank_lines, 1);
    assert_eq!(counts.comment_lines, 3);
    assert_eq!(counts.code_lines, 2);
}

#[test]
fn a_small_file_is_classified_through_the_catalogue() {
    let registry = sample_registry();
    let content = "// header\ncode();\n\n/* block\nstill */\nmore();\n";
    let metrics = analyze_file_content(&registry, "src/a.rs", content, "Rust", 42).unwrap();
    assert_eq!(metrics.file_path, "src/a.rs");
    assert_eq!(metrics.language, "Rust");
    assert_eq!(metrics.size_bytes, 42);
    assert_eq!(metrics.total_lines, 6);
    assert_eq!(metrics.blank_lines, 1);
    assert_eq!(metrics.comment_lines, 3);
    assert_eq!(metrics.code_lines, 2);
}

#[test]
fn trailing_comment_counts_as_code() {
    let counts = count_lines(
        "x = 1 // note\n  // real comment\n",
        &vec!["//".to_string()],
        &vec![],
    );
    assert_eq!(counts.total_lines, 2);
    assert_eq!(counts.code_lines, 1);
    assert_eq!(counts.comment_lines, 1);
}

#[test]
fn block_comment_closed_on_its_own_line_does_not_open() {
    let counts = count_lines(
        "/* one */\ncode();\n/* open\n\ninside\n end */ tail\ncode();\n",
        &vec![],
        &vec![("/*".to_string(), "*/".to_string())],
    );
    assert_eq!(counts.total_lines, 7);
    assert_eq!(counts.comment_lines, 4);
    assert_eq!(counts.blank_lines, 1);
    assert_eq!(counts.code_lines, 2);
}

#[test]
fn line_comment_is_looked_for_before_a_block() {
    let counts = count_lines(
        "--[[ both\ncode()\n",
        &vec!["--".to_string()],
        &vec![("--[[".to_string(), "]]".to_string())],
    );
    assert_eq!(counts.comment_lines, 1);
    assert_eq!(counts.code_lines, 1);
}

#[test]
fn language_without_tokens_has_no_comments() {
    let counts = count_lines("// a\n/* b */\n\n{}\n", &vec![], &vec![]);
    assert_eq!(counts.total_lines, 4);
    assert_eq!(counts.comment_lines, 0);
    assert_eq!(counts.blank_lines, 1);
    assert_eq!(counts.code_lines, 3);
}

#[test]
fn unknown_language_counts_every_line_as_code_or_blank() {
    let registry = sample_registry();
    let metrics = analyze_file_content(&registry, "notes", "// a\n\nb\n", "Text", 7).unwrap();
    assert_eq!(metrics.total_lines, 3);
    assert_eq!(metrics.comment_lines, 0);
    assert_eq!(metrics.code_lines, 2);
    assert_eq!(metrics.blank_lines, 1);
}

#[test]
fn lines_are_counted_like_text_lines() {
    for content in [
        "",
        "\n",
        "a",
        "a\n",
        "a\n\n",
        "a\r\nb\r\n",
        "\r\n",
        " \t \n\u{a0}\n",
        "a\nb",
    ] {
        let counts = count_lines(content, &vec![], &vec![]);
        assert_eq!(counts.total_lines, content.lines().count(), "{content:?}");
        let blank = content.lines().filter(|line| line.trim().is_empty()).count();
        assert_eq!(counts.blank_lines, blank, "{content:?}");
        assert_eq!(
            counts.total_lines,
            counts.code_lines + counts.comment_lines + counts.blank_lines
        );
    }
}

#[test]
fn two_files_of_one_language_make_one_entry() {
    let mut project = ProjectAnalysis::new("demo");
    project
        .add_file_metrics(FileMetrics::new("a", "Alpha".to_string(), 50, 35, 10, 5).unwrap())
        .unwrap();
    project
        .add_file_metrics(FileMetrics::new("b", "Alpha".to_string(), 30, 25, 3, 2).unwrap())
        .unwrap();
    let stats = project.get_language_statistics();
    assert_eq!(stats.len(), 1);
    assert_eq!(stats[0].language_name, "Alpha");
    assert_eq!(stats[0].total_lines, 80);
    assert_eq!(stats[0].code_lines, 60);
    assert_eq!(stats[0].file_count, 2);
}

#[test]
fn a_file_of_another_language_is_refused() {
    let mut bucket = LanguageAnalysis::new("Alpha".to_string());
    bucket
        .add_file_metrics(FileMetrics::new("a", "Alpha".to_string(), 50, 35, 10, 5).unwrap())
        .unwrap();
    let refused =
        bucket.add_file_metrics(FileMetrics::new("b", "Beta".to_string(), 30, 25, 3, 2).unwrap());
    match refused {
        Err(AnalysisError::InvalidStatistics { reason }) => {
            assert_eq!(reason, "Language mismatch: expected 'Alpha', got 'Beta'")
        }
        other => panic!("unexpected: {other:?}"),
    }
    assert_eq!(bucket.file_metrics.len(), 1);
    assert_eq!(bucket.aggregate_metrics.total_lines, 50);
    assert_eq!(bucket.aggregate_metrics.code_lines, 35);
    assert_eq!(bucket.aggregate_metrics.comment_lines, 10);
    assert_eq!(bucket.aggregate_metrics.blank_lines, 5);
    assert_eq!(bucket.aggregate_metrics.file_count, 1);
}

#[test]
fn short_references_are_expanded() {
    assert_eq!(
        expand_url("octocat/Hello-World"),
        "https://github.com/octocat/Hello-World"
    );
    assert_eq!(
        expand_url("octocat/Hello-World@a1b2c3d"),
        "https://github.com/octocat/Hello-World/commit/a1b2c3d"
    );
    assert_eq!(
        expand_url("octocat/Hello-World@feature-x"),
        "https://github.com/octocat/Hello-World/tree/feature-x"
    );
}

#[test]
fn url_expansion_edge_cases() {
    assert_eq!(
        expand_url("octocat/Hello-World@a1b2c3"),
        "https://github.com/octocat/Hello-World/tree/a1b2c3"
    );
    assert_eq!(
        expand_url("octocat/Hello-World@A1B2C3D4"),
        "https://github.com/octocat/Hello-World/commit/A1B2C3D4"
    );
    assert_eq!(
        expand_url("octocat/Hello-World@a1b2c3g"),
        "https://github.com/octocat/Hello-World/tree/a1b2c3g"
    );
    assert_eq!(expand_url("https://x.org/a/b"), "https://x.org/a/b");
    assert_eq!(expand_url("http://x.org/a/b"), "http://x.org/a/b");
    assert_eq!(expand_url("a/b/c"), "a/b/c");
    assert_eq!(expand_url("plain"), "plain");
    assert_eq!(expand_url(""), "");
    assert_eq!(expand_url("a/b@c@d"), "https://github.com/a/b/tree/c");
    assert_eq!(expand_url("a/b@"), "https://github.com/a/b/tree/");
}

fn drain(reader: &mut StreamReader, limit: usize, out: &mut Vec<u8>) -> ReadStep {
    loop {
        match reader.take(limit) {
            ReadStep::Bytes(bytes) => {
                assert!(!bytes.is_empty());
                assert!(bytes.len() <= limit);
                out.extend_from_slice(&bytes);
            }
            other => return other,
        }
    }
}

#[test]
fn chunks_of_any_size_give_the_same_archive() {
    let fixture = archive_of(&[
        ("repo/src/main.rs", b"// header\nfn main() {}\n\n".as_slice()),
        ("repo/src/app.js", b"/* a\n b */\nlet x = 1;\n".as_slice()),
        ("repo/Makefile", b"# build\nall:\n\ttrue\n".as_slice()),
    ]);
    for (chunk_size, limit) in [(1usize, 1usize), (1, 64), (7, 3), (64, 7), (4096, 512), (3, 4096)] {
        let mut reader = StreamReader::new();
        let mut streamed = Vec::new();
        let mut chunks = fixture.chunks(chunk_size);
        loop {
            match drain(&mut reader, limit, &mut streamed) {
                ReadStep::NeedChunk => match chunks.next() {
                    Some(chunk) => reader.accept(ChunkEvent::Chunk(chunk.to_vec())),
                    None => reader.accept(ChunkEvent::Closed),
                },
                ReadStep::EndOfStream => break,
                other => panic!("unexpected step: {}", matches!(other, ReadStep::Failed(_))),
            }
        }
        assert_eq!(streamed, fixture);

        let registry = sample_registry();
        let filter = IntelligentFilter::default();
        let mut whole = ProjectAnalysis::new("whole");
        process_tarball(fixture.clone(), &mut whole, &filter, &registry, &NoOpProgressHook).unwrap();
        let mut pieces = ProjectAnalysis::new("pieces");
        process_tarball(streamed, &mut pieces, &filter, &registry, &NoOpProgressHook).unwrap();
        let a = whole.get_summary();
        let b = pieces.get_summary();
        assert_eq!(a.total_files, 3);
        assert_eq!(a.total_files, b.total_files);
        assert_eq!(a.total_lines, b.total_lines);
        assert_eq!(a.total_code_lines, b.total_code_lines);
        assert_eq!(a.total_comment_lines, b.total_comment_lines);
        assert_eq!(a.total_size_bytes, b.total_size_bytes);
    }
}

#[test]
fn stream_skips_empty_chunks_and_keeps_order() {
    let mut reader = StreamReader::new();
    assert!(matches!(reader.take(8), ReadStep::NeedChunk));
    reader.accept(ChunkEvent::Chunk(vec![]));
    assert!(matches!(reader.take(8), ReadStep::NeedChunk));
    reader.accept(ChunkEvent::Chunk(vec![1, 2, 3]));
    reader.accept(ChunkEvent::Chunk(vec![4, 5]));
    match reader.take(0) {
        ReadStep::Bytes(bytes) => assert!(bytes.is_empty()),
        _ => panic!("asked for nothing"),
    }
    match reader.take(2) {
        ReadStep::Bytes(bytes) => assert_eq!(bytes, vec![1, 2]),
        _ => panic!("bytes wait"),
    }
    match reader.take(10) {
        ReadStep::Bytes(bytes) => assert_eq!(bytes, vec![3, 4, 5]),
        _ => panic!("bytes wait"),
    }
    assert!(matches!(reader.take(1), ReadStep::NeedChunk));
    reader.accept(ChunkEvent::Closed);
    assert!(matches!(reader.take(1), ReadStep::EndOfStream));
    reader.accept(ChunkEvent::Chunk(vec![9]));
    assert!(matches!(reader.take(1), ReadStep::EndOfStream));
}

#[test]
fn stream_reports_a_broken_download_once_after_what_arrived() {
    let mut reader = StreamReader::new();
    reader.accept(ChunkEvent::Chunk(vec![7, 8]));
    reader.accept(ChunkEvent::Failed("Stream error: reset".to_string()));
    match reader.take(5) {
        ReadStep::Bytes(bytes) => assert_eq!(bytes, vec![7, 8]),
        _ => panic!("bytes wait"),
    }
    match reader.take(5) {
        ReadStep::Failed(reason) => assert_eq!(reason, "Stream error: reset"),
        _ => panic!("the failure waits"),
    }
    assert!(matches!(reader.take(5), ReadStep::EndOfStream));
}

#[test]
fn a_reader_at_its_end_stays_there() {
    let mut closed = StreamReader::new();
    closed.accept(ChunkEvent::Chunk(vec![1]));
    closed.accept(ChunkEvent::Closed);
    assert!(matches!(closed.take(8), ReadStep::Bytes(_)));
    assert!(matches!(closed.take(8), ReadStep::EndOfStream));
    closed.accept(ChunkEvent::Chunk(vec![2, 3]));
    assert!(matches!(closed.take(8), ReadStep::EndOfStream));
    closed.accept(ChunkEvent::Failed("late".to_string()));
    assert!(matches!(closed.take(1), ReadStep::EndOfStream));
    match closed.take(0) {
        ReadStep::Bytes(bytes) => assert!(bytes.is_empty()),
        _ => panic!("nothing was asked for"),
    }

    let mut broken = StreamReader::new();
    broken.accept(ChunkEvent::Failed("reset".to_string()));
    assert!(matches!(broken.take(8), ReadStep::Failed(_)));
    for _ in 0..3 {
        assert!(matches!(broken.take(8), ReadStep::EndOfStream));
    }
    broken.accept(ChunkEvent::Closed);
    assert!(matches!(broken.take(8), ReadStep::EndOfStream));
}
