//! What every hosting convention shares: the settings of a connection, the
//! repository that a URL names, and the hook through which progress is
//! reported.

use crate::string_map::StringMap;
use crate::text::{
    ends_with, index_of, is_suffix, position, prefix, split, split_on, texts, trim_end_str,
    without_suffixes,
};
use vstd::prelude::*;
use vstd::string::*;

verus! {

/// Receives news of a download and of the work on what was downloaded.
pub trait ProgressHook: Send + Sync {
    /// So many bytes have arrived, of so many in all if that is known.
    fn on_download_progress(&self, downloaded: u64, total: Option<u64>);

    /// Work on the archive begins.
    fn on_processing_start(&self, message: &str);

    /// So many of the entries have been worked on.
    fn on_processing_progress(&self, current: usize, total: usize);
}

/// A hook that ignores all news.
pub struct NoOpProgressHook;

impl ProgressHook for NoOpProgressHook {
    fn on_download_progress(&self, _downloaded: u64, _total: Option<u64>) {
    }

    fn on_processing_start(&self, _message: &str) {
    }

    fn on_processing_progress(&self, _current: usize, _total: usize) {
    }
}

/// The text of an optional string.
pub open spec fn text_of(string: Option<String>) -> Option<Seq<char>> {
    match string {
        Some(s) => Some(s@),
        None => None,
    }
}

/// The mathematical content of a `ProviderConfig`.
pub struct ConfigView {
    pub headers: Map<Seq<char>, Seq<char>>,
    pub timeout: Option<u64>,
    pub max_redirects: Option<u32>,
    pub user_agent: Option<Seq<char>>,
    pub accept_invalid_certs: bool,
    pub credentials: Map<Seq<char>, Seq<char>>,
    pub provider_settings: Map<Seq<char>, Seq<char>>,
    pub max_file_size: Option<u64>,
    pub use_compression: bool,
    pub proxy: Option<Seq<char>>,
}

impl ConfigView {
    /// The settings with which every connection starts.
    pub open spec fn initial() -> ConfigView {
        ConfigView {
            headers: Map::empty(),
            timeout: Some(300),
            max_redirects: Some(10),
            user_agent: Some("bytes-radar/1.0.0"@),
            accept_invalid_certs: false,
            credentials: Map::empty(),
            provider_settings: Map::empty(),
            max_file_size: Some(104857600u64),
            use_compression: true,
            proxy: None,
        }
    }

    /// These settings with those of one provider laid over them: the
    /// provider's headers, credentials and settings are added and win where
    /// both name a key; what the provider sets of the optional values
    /// replaces what stands here; and the provider's two flags are taken
    /// as they are.
    pub open spec fn overridden_by(self, specific: ConfigView) -> ConfigView {
        ConfigView {
            headers: self.headers.union_prefer_right(specific.headers),
            timeout: if specific.timeout is Some {
                specific.timeout
            } else {
                self.timeout
            },
            max_redirects: if specific.max_redirects is Some {
                specific.max_redirects
            } else {
                self.max_redirects
            },
            user_agent: if specific.user_agent is Some {
                specific.user_agent
            } else {
                self.user_agent
            },
            accept_invalid_certs: specific.accept_invalid_certs,
            credentials: self.credentials.union_prefer_right(specific.credentials),
            provider_settings: self.provider_settings.union_prefer_right(
                specific.provider_settings,
            ),
            max_file_size: if specific.max_file_size is Some {
                specific.max_file_size
            } else {
                self.max_file_size
            },
            use_compression: specific.use_compression,
            proxy: if specific.proxy is Some {
                specific.proxy
            } else {
                self.proxy
            },
        }
    }

    /// Why these settings are refused, if they are: a timeout of zero or of
    /// more than an hour, or a size limit of more than a gibibyte.
    pub open spec fn fault(self) -> Option<Seq<char>> {
        if self.timeout == Some(0u64) {
            Some("Timeout cannot be zero"@)
        } else if self.timeout is Some && self.timeout->0 > 3600 {
            Some("Timeout cannot exceed 1 hour"@)
        } else if self.max_file_size is Some && self.max_file_size->0 > 1073741824 {
            Some("Max file size cannot exceed 1GB"@)
        } else {
            None
        }
    }
}

/// The settings of the connections to a provider.
#[derive(Debug, Clone)]
pub struct ProviderConfig {
    pub headers: StringMap,
    pub timeout: Option<u64>,
    pub max_redirects: Option<u32>,
    pub user_agent: Option<String>,
    pub accept_invalid_certs: bool,
    pub credentials: StringMap,
    pub provider_settings: StringMap,
    pub max_file_size: Option<u64>,
    pub use_compression: bool,
    pub proxy: Option<String>,
}

impl View for ProviderConfig {
    type V = ConfigView;

    open spec fn view(&self) -> ConfigView {
        ConfigView {
            headers: self.headers@,
            timeout: self.timeout,
            max_redirects: self.max_redirects,
            user_agent: text_of(self.user_agent),
            accept_invalid_certs: self.accept_invalid_certs,
            credentials: self.credentials@,
            provider_settings: self.provider_settings@,
            max_file_size: self.max_file_size,
            use_compression: self.use_compression,
            proxy: text_of(self.proxy),
        }
    }
}

impl Default for ProviderConfig {
    fn default() -> (config: Self)
        ensures
            config@ == ConfigView::initial(),
    {
        ProviderConfig {
            headers: StringMap::new(),
            timeout: Some(300),
            max_redirects: Some(10),
            user_agent: Some("bytes-radar/1.0.0".to_string()),
            accept_invalid_certs: false,
            credentials: StringMap::new(),
            provider_settings: StringMap::new(),
            max_file_size: Some(100 * 1024 * 1024),
            use_compression: true,
            proxy: None,
        }
    }
}

/// A copy of an optional string.
fn copy_text(text: &Option<String>) -> (copy: Option<String>)
    ensures
        copy == *text,
{
    match text {
        Some(s) => Some(s.clone()),
        None => None,
    }
}

impl ProviderConfig {
    /// The settings with which every connection starts.
    pub fn new() -> (config: Self)
        ensures
            config@ == ConfigView::initial(),
    {
        ProviderConfig::default()
    }

    /// The same settings with the header `name` set to `value`.
    pub fn with_header(self, name: &str, value: &str) -> (config: Self)
        ensures
            config@ == (ConfigView { headers: self@.headers.insert(name@, value@), ..self@ }),
    {
        let mut config = self;
        config.headers.insert(name.to_string(), value.to_string());
        config
    }

    /// The same settings with a timeout of `timeout` seconds.
    pub fn with_timeout(self, timeout: u64) -> (config: Self)
        ensures
            config@ == (ConfigView { timeout: Some(timeout), ..self@ }),
    {
        let mut config = self;
        config.timeout = Some(timeout);
        config
    }

    /// The same settings with another user agent.
    pub fn with_user_agent(self, user_agent: &str) -> (config: Self)
        ensures
            config@ == (ConfigView { user_agent: Some(user_agent@), ..self@ }),
    {
        let mut config = self;
        config.user_agent = Some(user_agent.to_string());
        config
    }

    /// The same settings, accepting invalid certificates or not.
    pub fn with_accept_invalid_certs(self, accept: bool) -> (config: Self)
        ensures
            config@ == (ConfigView { accept_invalid_certs: accept, ..self@ }),
    {
        let mut config = self;
        config.accept_invalid_certs = accept;
        config
    }

    /// The same settings with the credential `key` set to `value`.
    pub fn with_credential(self, key: &str, value: &str) -> (config: Self)
        ensures
            config@ == (ConfigView {
                credentials: self@.credentials.insert(key@, value@),
                ..self@
            }),
    {
        let mut config = self;
        config.credentials.insert(key.to_string(), value.to_string());
        config
    }

    /// The same settings with the provider setting `key` set to `value`.
    pub fn with_provider_setting(self, key: &str, value: &str) -> (config: Self)
        ensures
            config@ == (ConfigView {
                provider_settings: self@.provider_settings.insert(key@, value@),
                ..self@
            }),
    {
        let mut config = self;
        config.provider_settings.insert(key.to_string(), value.to_string());
        config
    }

    /// The same settings with a limit of `size` bytes on a download.
    pub fn with_max_file_size(self, size: u64) -> (config: Self)
        ensures
            config@ == (ConfigView { max_file_size: Some(size), ..self@ }),
    {
        let mut config = self;
        config.max_file_size = Some(size);
        config
    }

    /// The same settings with a proxy.
    pub fn with_proxy(self, proxy: &str) -> (config: Self)
        ensures
            config@ == (ConfigView { proxy: Some(proxy@), ..self@ }),
    {
        let mut config = self;
        config.proxy = Some(proxy.to_string());
        config
    }

    /// Settings with the same content.
    pub fn duplicate(&self) -> (copy: Self)
        ensures
            copy@ == self@,
    {
        ProviderConfig {
            headers: self.headers.duplicate(),
            timeout: self.timeout,
            max_redirects: self.max_redirects,
            user_agent: copy_text(&self.user_agent),
            accept_invalid_certs: self.accept_invalid_certs,
            credentials: self.credentials.duplicate(),
            provider_settings: self.provider_settings.duplicate(),
            max_file_size: self.max_file_size,
            use_compression: self.use_compression,
            proxy: copy_text(&self.proxy),
        }
    }

    /// These settings with those of one provider laid over them.
    pub fn overridden_by(&self, specific: &ProviderConfig) -> (config: Self)
        ensures
            config@ == self@.overridden_by(specific@),
    {
        let mut config = self.duplicate();
        config.headers.extend(&specific.headers);
        config.credentials.extend(&specific.credentials);
        config.provider_settings.extend(&specific.provider_settings);
        if specific.timeout.is_some() {
            config.timeout = specific.timeout;
        }
        if specific.max_redirects.is_some() {
            config.max_redirects = specific.max_redirects;
        }
        if specific.user_agent.is_some() {
            config.user_agent = copy_text(&specific.user_agent);
        }
        if specific.max_file_size.is_some() {
            config.max_file_size = specific.max_file_size;
        }
        if specific.proxy.is_some() {
            config.proxy = copy_text(&specific.proxy);
        }
        config.accept_invalid_certs = specific.accept_invalid_certs;
        config.use_compression = specific.use_compression;
        config
    }

    /// Accepts the settings unless the timeout is zero or over an hour, or
    /// the size limit is over a gibibyte.
    pub fn validate(&self) -> (checked: std::result::Result<(), String>)
        ensures
            match checked {
                Ok(_) => self@.fault() is None,
                Err(reason) => self@.fault() == Some(reason@),
            },
    {
        if let Some(timeout) = self.timeout {
            if timeout == 0 {
                return Err("Timeout cannot be zero".to_string());
            }
            if timeout > 3600 {
                return Err("Timeout cannot exceed 1 hour".to_string());
            }
        }
        if let Some(max_file_size) = self.max_file_size {
            if max_file_size > 1024 * 1024 * 1024 {
                return Err("Max file size cannot exceed 1GB".to_string());
            }
        }
        Ok(())
    }
}

/// The mathematical content of a `ParsedRepository`.
pub struct RepositoryView {
    pub owner: Seq<char>,
    pub repo: Seq<char>,
    pub branch_or_commit: Option<Seq<char>>,
    pub is_commit: bool,
    pub project_name: Seq<char>,
    pub host: Option<Seq<char>>,
}

/// The first seven characters of a commit, or all of it where it is
/// shorter.
pub open spec fn short_commit(commit: Seq<char>) -> Seq<char> {
    commit.take(if commit.len() >= 7 {
        7
    } else {
        commit.len() as int
    })
}

impl RepositoryView {
    /// The repository `repo` of `owner`, with no branch, commit or host
    /// named. It is shown as `repo@main`.
    pub open spec fn new(owner: Seq<char>, repo: Seq<char>) -> RepositoryView {
        RepositoryView {
            owner,
            repo,
            branch_or_commit: None,
            is_commit: false,
            project_name: repo + "@main"@,
            host: None,
        }
    }

    /// The same repository at `branch`, shown as `repo@branch`.
    pub open spec fn with_branch(self, branch: Seq<char>) -> RepositoryView {
        RepositoryView {
            project_name: self.repo + "@"@ + branch,
            branch_or_commit: Some(branch),
            is_commit: false,
            ..self
        }
    }

    /// The same repository at `commit`, shown as `repo@` and the first
    /// seven characters of the commit.
    pub open spec fn with_commit(self, commit: Seq<char>) -> RepositoryView {
        RepositoryView {
            project_name: self.repo + "@"@ + short_commit(commit),
            branch_or_commit: Some(commit),
            is_commit: true,
            ..self
        }
    }

    /// The same repository on `host`.
    pub open spec fn with_host(self, host: Seq<char>) -> RepositoryView {
        RepositoryView { host: Some(host), ..self }
    }
}

/// The repository that a URL names.
#[derive(Debug, Clone)]
pub struct ParsedRepository {
    pub owner: String,
    pub repo: String,
    pub branch_or_commit: Option<String>,
    pub is_commit: bool,
    pub project_name: String,
    pub host: Option<String>,
}

impl View for ParsedRepository {
    type V = RepositoryView;

    open spec fn view(&self) -> RepositoryView {
        RepositoryView {
            owner: self.owner@,
            repo: self.repo@,
            branch_or_commit: text_of(self.branch_or_commit),
            is_commit: self.is_commit,
            project_name: self.project_name@,
            host: text_of(self.host),
        }
    }
}

/// The content of what a parser found.
pub open spec fn parsed_view(parsed: Option<ParsedRepository>) -> Option<RepositoryView> {
    match parsed {
        Some(repository) => Some(repository@),
        None => None,
    }
}

impl ParsedRepository {
    /// The repository `repo` of `owner`, with no branch, commit or host
    /// named.
    pub fn new(owner: String, repo: String) -> (parsed: Self)
        ensures
            parsed@ == RepositoryView::new(owner@, repo@),
    {
        let mut project_name = repo.clone();
        project_name.append("@main");
        ParsedRepository {
            owner,
            repo,
            branch_or_commit: None,
            is_commit: false,
            project_name,
            host: None,
        }
    }

    /// The same repository at `branch`.
    pub fn with_branch(self, branch: String) -> (parsed: Self)
        ensures
            parsed@ == self@.with_branch(branch@),
    {
        let mut parsed = self;
        let mut project_name = parsed.repo.clone();
        project_name.append("@");
        project_name.append(branch.as_str());
        parsed.project_name = project_name;
        parsed.branch_or_commit = Some(branch);
        parsed.is_commit = false;
        parsed
    }

    /// The same repository at `commit`.
    pub fn with_commit(self, commit: String) -> (parsed: Self)
        ensures
            parsed@ == self@.with_commit(commit@),
    {
        let mut parsed = self;
        let short = prefix(commit.as_str(), 7);
        let mut project_name = parsed.repo.clone();
        project_name.append("@");
        project_name.append(short.as_str());
        parsed.project_name = project_name;
        parsed.branch_or_commit = Some(commit);
        parsed.is_commit = true;
        parsed
    }

    /// The same repository on `host`.
    pub fn with_host(self, host: String) -> (parsed: Self)
        ensures
            parsed@ == self@.with_host(host@),
    {
        let mut parsed = self;
        parsed.host = Some(host);
        parsed
    }

    /// A repository with the same content.
    pub fn duplicate(&self) -> (copy: Self)
        ensures
            copy@ == self@,
    {
        ParsedRepository {
            owner: self.owner.clone(),
            repo: self.repo.clone(),
            branch_or_commit: copy_text(&self.branch_or_commit),
            is_commit: self.is_commit,
            project_name: self.project_name.clone(),
            host: copy_text(&self.host),
        }
    }
}

/// The name that the last piece of a path gives: the piece without the
/// first of `endings` that it ends in, removed as often as it stands at the
/// end; and the piece itself where it ends in none of them.
pub open spec fn stem(piece: Seq<char>, endings: Seq<Seq<char>>) -> Seq<char>
    decreases endings.len(),
{
    if endings.len() == 0 {
        piece
    } else if is_suffix(piece, endings[0]) {
        without_suffixes(piece, endings[0])
    } else {
        stem(piece, endings.drop_first())
    }
}

/// The last of the pieces of `url` between slashes.
pub open spec fn last_piece(url: Seq<char>) -> Seq<char> {
    split_on(url, '/').last()
}

/// The name of the archive that `url` ends in: its last piece without a
/// `.tar.gz` or `.tgz` ending.
pub open spec fn archive_stem(url: Seq<char>) -> Seq<char> {
    stem(last_piece(url), seq![".tar.gz"@, ".tgz"@])
}

/// The last of the pieces of `url` between slashes.
pub fn last_segment(url: &str) -> (piece: String)
    ensures
        piece@ == last_piece(url@),
{
    let mut parts = split(url, '/');
    let ghost all = parts@;
    let last = parts.pop();
    match last {
        Some(piece) => {
            assert(texts(all).last() == piece@);
            piece
        },
        None => String::new(),
    }
}

/// The name of the archive that `url` ends in.
pub fn archive_name(url: &str) -> (name: String)
    ensures
        name@ == archive_stem(url@),
{
    let piece = last_segment(url);
    proof {
        let endings = seq![".tar.gz"@, ".tgz"@];
        assert(endings.drop_first() =~= seq![".tgz"@]);
        assert(endings.drop_first().drop_first() =~= Seq::<Seq<char>>::empty());
        reveal_with_fuel(stem, 3);
    }
    if ends_with(piece.as_str(), ".tar.gz") {
        trim_end_str(piece.as_str(), ".tar.gz")
    } else if ends_with(piece.as_str(), ".tgz") {
        trim_end_str(piece.as_str(), ".tgz")
    } else {
        piece
    }
}

/// The place of the piece `marker` among `parts`, where it has a piece
/// after it and at least `least` pieces before it.
pub open spec fn marker_place(parts: Seq<Seq<char>>, marker: Seq<char>, least: int) -> Option<int> {
    match index_of(parts, marker) {
        Some(place) => if place + 1 < parts.len() && place >= least {
            Some(place)
        } else {
            None
        },
        None => None,
    }
}

/// The place of the piece `marker` among `parts`, where it has a piece
/// after it and at least `least` pieces before it.
pub fn find_marker(parts: &Vec<String>, marker: &str, least: usize) -> (place: Option<usize>)
    ensures
        match place {
            Some(at) => marker_place(texts(parts@), marker@, least as int) == Some(at as int)
                && least <= at && at + 1 < parts@.len(),
            None => marker_place(texts(parts@), marker@, least as int) is None,
        },
{
    match position(parts, marker) {
        Some(at) => if at < parts.len() - 1 && at >= least {
            Some(at)
        } else {
            None
        },
        None => None,
    }
}

/// A copy of the piece at place `at`.
pub fn part(parts: &Vec<String>, at: usize) -> (piece: String)
    requires
        at < parts@.len(),
    ensures
        piece@ == texts(parts@)[at as int],
{
    parts[at].clone()
}

/// The texts that `strings` hold, in order.
pub open spec fn url_texts(strings: Vec<String>) -> Seq<Seq<char>> {
    texts(strings@)
}

} // verus!
