use bytes_radar::cli::{configure_analyzer_filters, Cli, OutputFormat};
use bytes_radar::worker::{error_type, AnalysisOptions};
use bytes_radar::{AnalysisError, IntelligentFilter, RemoteAnalyzer};

#[test]
fn options_decide_logging_and_progress() {
    let mut cli = Cli::default();
    assert_eq!(cli.format, OutputFormat::Table);
    assert_eq!(OutputFormat::default(), OutputFormat::Table);
    assert_eq!(cli.timeout, 300);
    assert_eq!(cli.retry_count, 3);
    assert_eq!(cli.max_file_size, 1024);
    assert_eq!(cli.min_file_size, 1);
    assert_eq!(cli.log_level(), "warn");
    assert!(cli.should_show_progress());
    cli.debug = true;
    assert_eq!(cli.log_level(), "debug");
    cli.trace = true;
    assert_eq!(cli.log_level(), "trace");
    cli.quiet = true;
    assert!(!cli.should_show_progress());
    cli.quiet = false;
    cli.format = OutputFormat::Json;
    assert!(!cli.should_show_progress());
    cli.format = OutputFormat::Table;
    cli.no_progress = true;
    assert!(!cli.should_show_progress());

    cli.adopt_token(None);
    assert!(cli.token.is_none());
    cli.adopt_token(Some("env".to_string()));
    assert_eq!(cli.token.as_deref(), Some("env"));
    cli.adopt_token(Some("other".to_string()));
    assert_eq!(cli.token.as_deref(), Some("env"));
}

#[test]
fn options_decide_the_filter() {
    let mut analyzer = RemoteAnalyzer::new();
    let mut cli = Cli::default();
    assert!(cli.has_size_limit_in_range());
    configure_analyzer_filters(&mut analyzer, &cli).unwrap();
    assert_eq!(analyzer.filter.max_file_size, 1024 * 1024);
    assert!(analyzer.filter.ignore_test_dirs && analyzer.filter.ignore_docs_dirs);
    assert!(analyzer.filter.ignore_hidden && analyzer.filter.allowed_extensions.is_none());

    cli.max_file_size = 2048;
    cli.include_tests = true;
    configure_analyzer_filters(&mut analyzer, &cli).unwrap();
    assert_eq!(analyzer.filter.max_file_size, 2048 * 1024);
    assert!(!analyzer.filter.ignore_test_dirs && analyzer.filter.ignore_docs_dirs);
    cli.include_docs = true;
    configure_analyzer_filters(&mut analyzer, &cli).unwrap();
    assert!(!analyzer.filter.ignore_docs_dirs);

    cli.aggressive_filter = true;
    cli.max_file_size = u64::MAX;
    assert!(!cli.has_size_limit_in_range());
    configure_analyzer_filters(&mut analyzer, &cli).unwrap();
    assert_eq!(analyzer.filter.max_file_size, 512 * 1024);
    assert!(analyzer.filter.ignore_test_dirs);
    assert_eq!(analyzer.filter.allowed_extensions.as_ref().unwrap().len(), 20);
    cli.max_file_size = u64::MAX / 1024;
    assert!(cli.has_size_limit_in_range());
    cli.max_file_size += 1;
    assert!(!cli.has_size_limit_in_range());
}

#[test]
fn options_of_an_analysis_become_settings() {
    let options = AnalysisOptions::default();
    assert_eq!(options.timeout, Some(300));
    assert_eq!(options.max_redirects, Some(10));
    assert_eq!(options.user_agent.as_deref(), Some("bytes-radar/1.0.0"));
    assert_eq!(options.max_file_size, Some(100 * 1024 * 1024));
    assert!(options.use_compression && options.ignore_hidden && !options.accept_invalid_certs);
    let config = options.to_provider_config();
    assert_eq!(config.timeout, Some(300));
    assert_eq!(config.max_redirects, Some(10));
    assert_eq!(config.provider_settings.get("max_redirects").unwrap(), "10");
    assert_eq!(config.provider_settings.len(), 1);
    assert_eq!(config.max_file_size, Some(100 * 1024 * 1024));
    assert!(config.use_compression);

    let mut options = AnalysisOptions::default();
    options.timeout = None;
    options.user_agent = None;
    options.max_redirects = Some(4294967295);
    options.max_file_size = None;
    options.proxy = Some("http://p".to_string());
    options.accept_invalid_certs = true;
    options.use_compression = false;
    options.headers.insert("H".to_string(), "1".to_string());
    options.credentials.insert("token".to_string(), "t".to_string());
    options.provider_settings.insert("max_redirects".to_string(), "7".to_string());
    options.provider_settings.insert("x".to_string(), "y".to_string());
    let config = options.to_provider_config();
    assert_eq!(config.timeout, Some(300));
    assert_eq!(config.user_agent.as_deref(), Some("bytes-radar/1.0.0"));
    assert_eq!(config.proxy.as_deref(), Some("http://p"));
    assert_eq!(config.max_file_size, Some(100 * 1024 * 1024));
    assert!(config.accept_invalid_certs);
    assert!(config.use_compression);
    assert_eq!(config.headers.get("H").unwrap(), "1");
    assert_eq!(config.credentials.get("token").unwrap(), "t");
    assert_eq!(config.provider_settings.get("max_redirects").unwrap(), "7");
    assert_eq!(config.provider_settings.get("x").unwrap(), "y");
    options.provider_settings = bytes_radar::StringMap::new();
    assert_eq!(
        options.to_provider_config().provider_settings.get("max_redirects").unwrap(),
        "4294967295"
    );

    let filter = options.to_intelligent_filter();
    assert_eq!(filter.max_file_size, 100 * 1024 * 1024);
    assert!(filter.ignore_hidden);
    options.ignore_hidden = false;
    options.max_file_size = Some(9);
    let filter = options.to_intelligent_filter();
    assert_eq!(filter.max_file_size, 9);
    assert!(!filter.ignore_hidden && filter.ignore_binary && !filter.ignore_test_dirs);
}

#[test]
fn options_of_an_analysis_set_an_analyzer_up() {
    let mut analyzer = RemoteAnalyzer::new();
    let mut options = AnalysisOptions::default();
    options.credentials.insert("token".to_string(), "t".to_string());
    options.max_file_size = Some(77);
    options.configure(&mut analyzer);
    assert_eq!(analyzer.filter.max_file_size, 77);
    assert_eq!(analyzer.global_config.max_file_size, Some(77));
    assert_eq!(analyzer.get_effective_config("github").credentials.get("token").unwrap(), "t");

    let mut options = AnalysisOptions::default();
    options.aggressive_filtering = Some(true);
    options.configure(&mut analyzer);
    assert_eq!(analyzer.filter.max_file_size, 512 * 1024);
    let mut options = AnalysisOptions::default();
    options.aggressive_filtering = Some(false);
    options.configure(&mut analyzer);
    assert_eq!(analyzer.filter.max_file_size, 1024 * 1024);
    let mut options = AnalysisOptions::default();
    options.aggressive_filtering = Some(true);
    let mut custom = IntelligentFilter::new();
    custom.max_file_size = 5;
    options.custom_filter = Some(custom);
    options.configure(&mut analyzer);
    assert_eq!(analyzer.filter.max_file_size, 5);
}

#[test]
fn failures_are_reported_by_kind() {
    assert_eq!(error_type(&AnalysisError::network("x")), "network_error");
    assert_eq!(error_type(&AnalysisError::archive("x")), "analysis_error");
    assert_eq!(error_type(&AnalysisError::url_parsing("x")), "analysis_error");
}
