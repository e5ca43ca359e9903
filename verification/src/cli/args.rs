//! The options of the command line, and what follows from them.

use crate::error::Result;
use crate::filter::IntelligentFilter;
use crate::net::RemoteAnalyzer;
use vstd::prelude::*;
use vstd::string::*;

verus! {

/// The form in which the result is written.
#[derive(Debug, Clone, Copy, PartialEq, Eq, Structural)]
pub enum OutputFormat {
    Table,
    Json,
    Csv,
    Xml,
    Yaml,
    Toml,
}

impl Default for OutputFormat {
    fn default() -> (format: Self)
        ensures
            format == OutputFormat::Table,
    {
        OutputFormat::Table
    }
}

/// The options of the command line.
#[derive(Debug, Clone)]
pub struct Cli {
    pub url: Option<String>,
    pub format: OutputFormat,
    pub detailed: bool,
    pub quiet: bool,
    pub no_progress: bool,
    pub no_color: bool,
    pub token: Option<String>,
    pub timeout: u64,
    pub allow_insecure: bool,
    pub user_agent: Option<String>,
    pub retry_count: u32,
    pub aggressive_filter: bool,
    pub max_file_size: u64,
    pub include_tests: bool,
    pub include_docs: bool,
    pub include_hidden: bool,
    pub exclude_pattern: Option<String>,
    pub include_pattern: Option<String>,
    pub min_file_size: u64,
    pub language: Option<String>,
    pub exclude_language: Vec<String>,
    pub ignore_whitespace: bool,
    pub count_generated: bool,
    pub max_line_length: usize,
    pub debug: bool,
    pub trace: bool,
    pub log_file: Option<String>,
    pub threads: usize,
    pub memory_limit: usize,
    pub cache_dir: Option<String>,
    pub no_cache: bool,
    pub experimental_parallel: bool,
    pub experimental_streaming: bool,
}

impl Default for Cli {
    /// The options of a command line that names nothing: a table is
    /// written, requests time out after 300 seconds and are tried three
    /// times, and files of 1 to 1024 * 1024 bytes are read.
    fn default() -> (cli: Self)
        ensures
            cli.names_nothing(),
    {
        Cli {
            url: None,
            format: OutputFormat::Table,
            detailed: false,
            quiet: false,
            no_progress: false,
            no_color: false,
            token: None,
            timeout: 300,
            allow_insecure: false,
            user_agent: None,
            retry_count: 3,
            aggressive_filter: false,
            max_file_size: 1024,
            include_tests: false,
            include_docs: false,
            include_hidden: false,
            exclude_pattern: None,
            include_pattern: None,
            min_file_size: 1,
            language: None,
            exclude_language: Vec::new(),
            ignore_whitespace: false,
            count_generated: false,
            max_line_length: 0,
            debug: false,
            trace: false,
            log_file: None,
            threads: 0,
            memory_limit: 0,
            cache_dir: None,
            no_cache: false,
            experimental_parallel: false,
            experimental_streaming: false,
        }
    }
}

impl Cli {
    /// These are the options of a command line that names nothing.
    pub open spec fn names_nothing(&self) -> bool {
        &&& self.url is None
        &&& self.format == OutputFormat::Table
        &&& !self.detailed
        &&& !self.quiet
        &&& !self.no_progress
        &&& !self.no_color
        &&& self.token is None
        &&& self.timeout == 300
        &&& !self.allow_insecure
        &&& self.user_agent is None
        &&& self.retry_count == 3
        &&& !self.aggressive_filter
        &&& self.max_file_size == 1024
        &&& !self.include_tests
        &&& !self.include_docs
        &&& !self.include_hidden
        &&& self.exclude_pattern is None
        &&& self.include_pattern is None
        &&& self.min_file_size == 1
        &&& self.language is None
        &&& self.exclude_language@.len() == 0
        &&& !self.ignore_whitespace
        &&& !self.count_generated
        &&& self.max_line_length == 0
        &&& !self.debug
        &&& !self.trace
        &&& self.log_file is None
        &&& self.threads == 0
        &&& self.memory_limit == 0
        &&& self.cache_dir is None
        &&& !self.no_cache
        &&& !self.experimental_parallel
        &&& !self.experimental_streaming
    }

    /// The level from which messages are logged: `trace` where tracing is
    /// asked for, else `debug` where debugging is, else `warn`.
    pub open spec fn log_level_name(&self) -> Seq<char> {
        if self.trace {
            "trace"@
        } else if self.debug {
            "debug"@
        } else {
            "warn"@
        }
    }

    /// The size limit fits when it is turned from kibibytes into bytes.
    pub open spec fn size_limit_fits(&self) -> bool {
        self.max_file_size * 1024 <= u64::MAX
    }

    /// The level from which messages are logged.
    pub fn log_level(&self) -> (level: &'static str)
        ensures
            level@ == self.log_level_name(),
    {
        if self.trace {
            "trace"
        } else if self.debug {
            "debug"
        } else {
            "warn"
        }
    }

    /// Whether the progress of the work is shown: it is while a table is
    /// written, unless the options forbid it or ask for silence.
    pub fn should_show_progress(&self) -> (shown: bool)
        ensures
            shown == (!self.no_progress && self.format == OutputFormat::Table && !self.quiet),
    {
        !self.no_progress && self.format == OutputFormat::Table && !self.quiet
    }

    /// Takes the token that the environment holds where the command line
    /// gives none.
    pub fn adopt_token(&mut self, from_environment: Option<String>)
        ensures
            final(self).token == if old(self).token is None {
                from_environment
            } else {
                old(self).token
            },
            final(self).url == old(self).url,
            final(self).format == old(self).format,
            final(self).max_file_size == old(self).max_file_size,
    {
        if self.token.is_none() {
            self.token = from_environment;
        }
    }

    /// Whether `configure_analyzer_filters` may be called with these
    /// options.
    pub fn has_size_limit_in_range(&self) -> (fits: bool)
        ensures
            fits == self.size_limit_fits(),
    {
        self.max_file_size <= u64::MAX / 1024
    }
}

/// Gives the analyzer the filter that the options ask for: the aggressive
/// one, or else the default one with the size limit of the options, in
/// kibibytes, and without tests and documentation unless the options
/// include them.
pub fn configure_analyzer_filters(analyzer: &mut RemoteAnalyzer, cli: &Cli) -> (done: Result<()>)
    requires
        !cli.aggressive_filter ==> cli.size_limit_fits(),
    ensures
        done is Ok,
        final(analyzer).providers == old(analyzer).providers,
        final(analyzer).global_config == old(analyzer).global_config,
        final(analyzer).provider_configs == old(analyzer).provider_configs,
        cli.aggressive_filter ==> final(analyzer).filter.is_aggressive(),
        !cli.aggressive_filter ==> {
            &&& final(analyzer).filter.max_file_size == cli.max_file_size * 1024
            &&& final(analyzer).filter.ignore_hidden
            &&& final(analyzer).filter.ignore_binary
            &&& final(analyzer).filter.ignore_build_dirs
            &&& final(analyzer).filter.ignore_package_dirs
            &&& final(analyzer).filter.ignore_test_dirs == !cli.include_tests
            &&& final(analyzer).filter.ignore_docs_dirs == !cli.include_docs
            &&& final(analyzer).filter.custom_ignore_patterns@.len() == 0
            &&& final(analyzer).filter.allowed_extensions is None
        },
{
    if cli.aggressive_filter {
        analyzer.set_aggressive_filtering(true);
    } else {
        let mut filter = IntelligentFilter::default();
        filter.max_file_size = cli.max_file_size * 1024;
        filter.ignore_test_dirs = !cli.include_tests;
        filter.ignore_docs_dirs = !cli.include_docs;
        analyzer.set_filter(filter);
    }
    Ok(())
}

} // verus!
