//! The options with which an analysis is asked for from a page or a
//! service, and what follows from them.

use crate::error::AnalysisError;
use crate::filter::IntelligentFilter;
use crate::net::traits::{text_of, ConfigView, ProviderConfig};
use crate::net::RemoteAnalyzer;
use crate::string_map::StringMap;
use crate::text::{decimal, decimal_string};
use vstd::prelude::*;
use vstd::string::*;

verus! {

/// The options of one analysis.
pub struct AnalysisOptions {
    pub timeout: Option<u64>,
    pub max_redirects: Option<u32>,
    pub user_agent: Option<String>,
    pub accept_invalid_certs: bool,
    pub headers: StringMap,
    pub credentials: StringMap,
    pub provider_settings: StringMap,
    pub max_file_size: Option<u64>,
    pub use_compression: bool,
    pub proxy: Option<String>,
    pub ignore_hidden: bool,
    pub aggressive_filtering: Option<bool>,
    pub custom_filter: Option<IntelligentFilter>,
}

impl Default for AnalysisOptions {
    fn default() -> (options: Self)
        ensures
            options.timeout == Some(300u64),
            options.max_redirects == Some(10u32),
            text_of(options.user_agent) == Some("bytes-radar/1.0.0"@),
            !options.accept_invalid_certs,
            options.headers@ == Map::<Seq<char>, Seq<char>>::empty(),
            options.credentials@ == Map::<Seq<char>, Seq<char>>::empty(),
            options.provider_settings@ == Map::<Seq<char>, Seq<char>>::empty(),
            options.max_file_size == Some(104857600u64),
            options.use_compression,
            options.proxy is None,
            options.ignore_hidden,
            options.aggressive_filtering is None,
            options.custom_filter is None,
    {
        AnalysisOptions {
            timeout: Some(300),
            max_redirects: Some(10),
            user_agent: Some("bytes-radar/1.0.0".to_string()),
            accept_invalid_certs: false,
            headers: StringMap::new(),
            credentials: StringMap::new(),
            provider_settings: StringMap::new(),
            max_file_size: Some(100 * 1024 * 1024),
            use_compression: true,
            proxy: None,
            ignore_hidden: true,
            aggressive_filtering: None,
            custom_filter: None,
        }
    }
}

impl AnalysisOptions {
    /// The settings of the connections that the options ask for: the
    /// initial settings, with the timeout and the user agent of the
    /// options, or 300 seconds and the usual agent where they give none;
    /// with their size limit and proxy where they give one; with the
    /// number of redirects as the provider setting `max_redirects`; and
    /// with their headers, credentials and provider settings.
    pub open spec fn provider_config(&self) -> ConfigView {
        let initial = ConfigView::initial();
        ConfigView {
            headers: self.headers@,
            timeout: Some(
                match self.timeout {
                    Some(timeout) => timeout,
                    None => 300,
                },
            ),
            user_agent: Some(
                match self.user_agent {
                    Some(agent) => agent@,
                    None => "bytes-radar/1.0.0"@,
                },
            ),
            accept_invalid_certs: self.accept_invalid_certs,
            credentials: self.credentials@,
            provider_settings: match self.max_redirects {
                Some(count) => Map::<Seq<char>, Seq<char>>::empty().insert(
                    "max_redirects"@,
                    decimal(count as nat),
                ).union_prefer_right(self.provider_settings@),
                None => self.provider_settings@,
            },
            max_file_size: match self.max_file_size {
                Some(size) => Some(size),
                None => initial.max_file_size,
            },
            proxy: text_of(self.proxy),
            ..initial
        }
    }

    /// `filter` is the filter that follows from the options where they
    /// name none: the default one, but with their size limit, or a hundred
    /// mebibytes where they give none, and with their choice on hidden
    /// files.
    pub open spec fn follows(&self, filter: IntelligentFilter) -> bool {
        &&& filter.max_file_size == match self.max_file_size {
            Some(size) => size,
            None => 104857600u64,
        }
        &&& filter.ignore_hidden == self.ignore_hidden
        &&& filter.ignore_binary
        &&& filter.ignore_build_dirs
        &&& filter.ignore_package_dirs
        &&& !filter.ignore_test_dirs
        &&& !filter.ignore_docs_dirs
        &&& filter.custom_ignore_patterns@.len() == 0
        &&& filter.allowed_extensions is None
    }

    /// The settings of the connections that the options ask for.
    pub fn to_provider_config(&self) -> (config: ProviderConfig)
        ensures
            config@ == self.provider_config(),
    {
        let timeout = match self.timeout {
            Some(timeout) => timeout,
            None => 300,
        };
        let mut config = ProviderConfig::new().with_timeout(timeout).with_accept_invalid_certs(
            self.accept_invalid_certs,
        );
        config = match &self.user_agent {
            Some(agent) => config.with_user_agent(agent.as_str()),
            None => config.with_user_agent("bytes-radar/1.0.0"),
        };
        if let Some(max_redirects) = self.max_redirects {
            let count = decimal_string(max_redirects as u128);
            config = config.with_provider_setting("max_redirects", count.as_str());
        }
        if let Some(max_file_size) = self.max_file_size {
            config = config.with_max_file_size(max_file_size);
        }
        if let Some(proxy) = &self.proxy {
            config = config.with_proxy(proxy.as_str());
        }
        config.headers.extend(&self.headers);
        config.credentials.extend(&self.credentials);
        config.provider_settings.extend(&self.provider_settings);
        proof {
            let empty = Map::<Seq<char>, Seq<char>>::empty();
            assert(empty.union_prefer_right(self.headers@) =~= self.headers@);
            assert(empty.union_prefer_right(self.credentials@) =~= self.credentials@);
            assert(empty.union_prefer_right(self.provider_settings@) =~= self.provider_settings@);
        }
        config
    }

    /// The filter that follows from the options where they name none.
    pub fn to_intelligent_filter(&self) -> (filter: IntelligentFilter)
        ensures
            self.follows(filter),
    {
        let mut filter = IntelligentFilter::default();
        filter.max_file_size = match self.max_file_size {
            Some(size) => size,
            None => 100 * 1024 * 1024,
        };
        filter.ignore_hidden = self.ignore_hidden;
        filter
    }

    /// Sets an analyzer up as the options ask: their settings become the
    /// global ones, and the filter is the one they name, else the
    /// aggressive or the default one as they choose, else the one that
    /// follows from their size limit and their choice on hidden files.
    pub fn configure(self, analyzer: &mut RemoteAnalyzer)
        ensures
            final(analyzer).global_config@ == self.provider_config(),
            final(analyzer).provider_configs == old(analyzer).provider_configs,
            final(analyzer).configured(),
            match (self.custom_filter, self.aggressive_filtering) {
                (Some(filter), _) => final(analyzer).filter == filter,
                (None, Some(true)) => final(analyzer).filter.is_aggressive(),
                (None, Some(false)) => final(analyzer).filter.is_default(),
                (None, None) => self.follows(final(analyzer).filter),
            },
    {
        analyzer.set_global_config(self.to_provider_config());
        let fallback = self.to_intelligent_filter();
        match self.custom_filter {
            Some(filter) => analyzer.set_filter(filter),
            None => match self.aggressive_filtering {
                Some(aggressive) => analyzer.set_aggressive_filtering(aggressive),
                None => analyzer.set_filter(fallback),
            },
        }
    }
}

/// The kind under which a failure is reported: `network_error` for a
/// network error, `analysis_error` for every other.
pub open spec fn error_kind(error: AnalysisError) -> Seq<char> {
    if error is NetworkError {
        "network_error"@
    } else {
        "analysis_error"@
    }
}

/// The kind under which a failure is reported.
pub fn error_type(error: &AnalysisError) -> (kind: &'static str)
    ensures
        kind@ == error_kind(*error),
{
    match error {
        AnalysisError::NetworkError { .. } => "network_error",
        _ => "analysis_error",
    }
}

} // verus!
