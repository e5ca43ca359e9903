//! The analyzer of remote repositories: its settings, and the plan by which
//! it turns a repository reference into downloads.

pub mod provider;
pub mod providers;
pub mod resolver;
pub mod stream;
pub mod traits;

pub use crate::net::provider::{Provider, ProviderKind, Secret};
pub use crate::net::traits::{
    NoOpProgressHook, ParsedRepository, ProgressHook, ProviderConfig, RepositoryView,
};
use crate::cli::url_parser::{expand_url, expanded};
use crate::error::{AnalysisError, Result};
use crate::filter::IntelligentFilter;
use crate::net::providers::{
    ArchiveProvider, AzureDevOpsProvider, BitbucketProvider, CodebergProvider, GiteaProvider,
    GitHubProvider, GitLabProvider, SourceForgeProvider,
};
use crate::net::resolver::{
    candidate_urls, direct_archive, download_candidates, first_resolver, first_resolver_from,
    is_direct_archive, DownloadAttempts,
};
use crate::net::traits::{archive_name, archive_stem, url_texts, ConfigView};
use crate::string_map::StringMap;
use crate::text::{str_eq, trim_end_char, without_trailing};
use vstd::prelude::*;
use vstd::string::*;

verus! {

/// The order in which the providers are asked whether a URL is theirs.
/// The order matters: a URL may suit more than one of them, and the first
/// that finds a repository in it has it.
pub open spec fn standard_order() -> Seq<ProviderKind> {
    seq![
        ProviderKind::GitHub,
        ProviderKind::GitLab,
        ProviderKind::Bitbucket,
        ProviderKind::Codeberg,
        ProviderKind::Gitea,
        ProviderKind::SourceForge,
        ProviderKind::AzureDevOps,
        ProviderKind::Archive,
    ]
}

/// The kinds of `providers`, in order.
pub open spec fn kinds_of(providers: Seq<Provider>) -> Seq<ProviderKind> {
    Seq::new(providers.len(), |i: int| providers[i].kind())
}

/// The settings that are kept for the provider called `name`, looking from
/// place `from` on.
pub open spec fn settings_from(
    table: Seq<(String, ProviderConfig)>,
    name: Seq<char>,
    from: int,
) -> Option<ConfigView>
    decreases table.len() - from,
{
    if from < 0 || from >= table.len() {
        None
    } else if table[from].0@ == name {
        Some(table[from].1@)
    } else {
        settings_from(table, name, from + 1)
    }
}

/// The settings that are kept for the provider called `name`.
pub open spec fn settings_for(table: Seq<(String, ProviderConfig)>, name: Seq<char>) -> Option<
    ConfigView,
> {
    settings_from(table, name, 0)
}

/// The settings that hold for the provider called `name`: the global ones,
/// with those kept for the provider laid over them.
pub open spec fn effective_settings(
    global: ConfigView,
    table: Seq<(String, ProviderConfig)>,
    name: Seq<char>,
) -> ConfigView {
    match settings_for(table, name) {
        Some(specific) => global.overridden_by(specific),
        None => global,
    }
}

/// The message for a URL that no provider takes.
pub open spec fn unsupported_message(url: Seq<char>) -> Seq<char> {
    "Unsupported URL format: "@ + url
        + ". Supported formats include GitHub, GitLab, Bitbucket, Codeberg, Gitea, SourceForge, Azure DevOps, and direct archive URLs."@
}

/// The message for a repository for which no archive can be named.
pub open spec fn no_candidates_message(project: Seq<char>) -> Seq<char> {
    "No download URL can be built for "@ + project
}

/// The name of the project behind a URL that is downloaded as it stands:
/// the last piece of the URL, read without its trailing slashes and
/// without a `.tar.gz` or `.tgz` ending.
pub open spec fn direct_project_name(url: Seq<char>) -> Seq<char> {
    archive_stem(without_trailing(url, '/'))
}

/// How a repository reference is to be fetched.
pub enum Resolution {
    /// The URL is that of an archive and is downloaded as it stands.
    Direct { url: String, project_name: String },
    /// The provider at place `provider` found a repository in the URL.
    Repository { provider: usize, parsed: ParsedRepository },
}

/// The mathematical content of a `Resolution`.
pub enum ResolutionView {
    Direct { url: Seq<char>, project_name: Seq<char> },
    Repository { provider: int, parsed: RepositoryView },
}

impl View for Resolution {
    type V = ResolutionView;

    open spec fn view(&self) -> ResolutionView {
        match self {
            Resolution::Direct { url, project_name } => ResolutionView::Direct {
                url: url@,
                project_name: project_name@,
            },
            Resolution::Repository { provider, parsed } => ResolutionView::Repository {
                provider: *provider as int,
                parsed: parsed@,
            },
        }
    }
}

/// How the reference `url` is to be fetched by providers of `kinds`, if it
/// can be: the reference is expanded; what then ends like an archive is
/// downloaded as it stands; otherwise the first provider that finds a
/// repository in it has it.
pub open spec fn resolved(kinds: Seq<ProviderKind>, url: Seq<char>) -> Option<ResolutionView> {
    let full = expanded(url);
    if is_direct_archive(full) {
        Some(ResolutionView::Direct { url: full, project_name: direct_project_name(full) })
    } else {
        match first_resolver(kinds, full) {
            Some(place) => Some(
                ResolutionView::Repository { provider: place, parsed: kinds[place].parse(full)->0 },
            ),
            None => None,
        }
    }
}

/// The content of what a resolution gave.
pub open spec fn resolution_view(resolution: Result<Resolution>) -> Option<ResolutionView> {
    match resolution {
        Ok(found) => Some(found@),
        Err(_) => None,
    }
}

/// Analyzes remote repositories: holds the providers in their order, the
/// global settings, the settings kept for single providers, and the filter
/// for the entries of an archive.
pub struct RemoteAnalyzer {
    pub providers: Vec<Provider>,
    pub global_config: ProviderConfig,
    pub filter: IntelligentFilter,
    pub provider_configs: Vec<(String, ProviderConfig)>,
}

impl RemoteAnalyzer {
    /// Every provider presents what the settings that hold for it give.
    pub open spec fn configured(&self) -> bool {
        forall|i: int|
            0 <= i < self.providers@.len() ==> (#[trigger] self.providers@[i]).secret()
                == self.providers@[i].kind().keeps(
                effective_settings(
                    self.global_config@,
                    self.provider_configs@,
                    self.providers@[i].kind().label(),
                ),
            )
    }

    /// An analyzer with the providers in their standard order, the initial
    /// settings, no settings for single providers, and the default filter.
    pub fn new() -> (analyzer: Self)
        ensures
            kinds_of(analyzer.providers@) == standard_order(),
            analyzer.global_config@ == ConfigView::initial(),
            analyzer.provider_configs@.len() == 0,
            analyzer.filter.is_default(),
            analyzer.configured(),
    {
        let mut analyzer = RemoteAnalyzer {
            providers: Vec::new(),
            global_config: ProviderConfig::default(),
            filter: IntelligentFilter::default(),
            provider_configs: Vec::new(),
        };
        analyzer.register_default_providers();
        analyzer.apply_config_to_providers();
        analyzer
    }

    /// Adds the eight providers in their standard order.
    fn register_default_providers(&mut self)
        requires
            old(self).providers@.len() == 0,
        ensures
            kinds_of(final(self).providers@) == standard_order(),
            final(self).global_config == old(self).global_config,
            final(self).provider_configs == old(self).provider_configs,
            final(self).filter == old(self).filter,
    {
        self.providers.push(Provider::GitHub(GitHubProvider::new()));
        self.providers.push(Provider::GitLab(GitLabProvider::new()));
        self.providers.push(Provider::Bitbucket(BitbucketProvider::new()));
        self.providers.push(Provider::Codeberg(CodebergProvider::new()));
        self.providers.push(Provider::Gitea(GiteaProvider::new()));
        self.providers.push(Provider::SourceForge(SourceForgeProvider::new()));
        self.providers.push(Provider::AzureDevOps(AzureDevOpsProvider::new()));
        self.providers.push(Provider::Archive(ArchiveProvider::new()));
        proof {
            assert(kinds_of(self.providers@) =~= standard_order());
        }
    }

    /// The place of the settings kept for the provider called `name`.
    fn position_of(&self, name: &str) -> (place: Option<usize>)
        ensures
            match place {
                Some(at) => at < self.provider_configs@.len() && settings_for(
                    self.provider_configs@,
                    name@,
                ) == Some(self.provider_configs@[at as int].1@)
                    && self.provider_configs@[at as int].0@ == name@ && forall|earlier: int|
                    0 <= earlier < at ==> (#[trigger] self.provider_configs@[earlier]).0@ != name@,
                None => settings_for(self.provider_configs@, name@) is None && forall|i: int|
                    0 <= i < self.provider_configs@.len() ==> (
                    #[trigger] self.provider_configs@[i]).0@ != name@,
            },
    {
        let mut at: usize = 0;
        while at < self.provider_configs.len()
            invariant
                at <= self.provider_configs@.len(),
                forall|earlier: int|
                    0 <= earlier < at ==> (#[trigger] self.provider_configs@[earlier]).0@ != name@,
            decreases self.provider_configs@.len() - at,
        {
            if str_eq(self.provider_configs[at].0.as_str(), name) {
                proof {
                    lemma_settings_from(self.provider_configs@, name@, 0, at as int);
                }
                return Some(at);
            }
            at += 1;
        }
        proof {
            lemma_settings_from(self.provider_configs@, name@, 0, at as int);
        }
        None
    }

    /// The settings that hold for the provider called `provider_name`.
    pub fn get_effective_config(&self, provider_name: &str) -> (config: ProviderConfig)
        ensures
            config@ == effective_settings(
                self.global_config@,
                self.provider_configs@,
                provider_name@,
            ),
    {
        match self.position_of(provider_name) {
            Some(at) => self.global_config.overridden_by(&self.provider_configs[at].1),
            None => self.global_config.duplicate(),
        }
    }

    /// Hands every provider the settings that hold for it.
    pub fn apply_config_to_providers(&mut self)
        ensures
            kinds_of(final(self).providers@) == kinds_of(old(self).providers@),
            final(self).global_config == old(self).global_config,
            final(self).provider_configs == old(self).provider_configs,
            final(self).filter == old(self).filter,
            final(self).configured(),
    {
        let ghost kinds = kinds_of(self.providers@);
        let mut at: usize = 0;
        while at < self.providers.len()
            invariant
                at <= self.providers@.len(),
                kinds_of(self.providers@) == kinds,
                self.global_config == old(self).global_config,
                self.provider_configs == old(self).provider_configs,
                self.filter == old(self).filter,
                forall|i: int|
                    0 <= i < at ==> (#[trigger] self.providers@[i]).secret()
                        == self.providers@[i].kind().keeps(
                        effective_settings(
                            self.global_config@,
                            self.provider_configs@,
                            self.providers@[i].kind().label(),
                        ),
                    ),
            decreases self.providers@.len() - at,
        {
            let config = self.get_effective_config(self.providers[at].name());
            let ghost before = self.providers@;
            let mut provider = self.providers.remove(at);
            provider.apply_config(&config);
            self.providers.insert(at, provider);
            proof {
                assert(self.providers@ =~= before.update(at as int, provider));
                assert(kinds_of(self.providers@) =~= kinds_of(before));
                assert forall|i: int| 0 <= i < at + 1 implies (
                #[trigger] self.providers@[i]).secret() == self.providers@[i].kind().keeps(
                    effective_settings(
                        self.global_config@,
                        self.provider_configs@,
                        self.providers@[i].kind().label(),
                    ),
                ) by {
                    if i < at {
                        assert(self.providers@[i] == before[i]);
                    }
                }
            }
            at += 1;
        }
    }

    /// Replaces the global settings.
    pub fn set_global_config(&mut self, config: ProviderConfig)
        ensures
            final(self).global_config == config,
            kinds_of(final(self).providers@) == kinds_of(old(self).providers@),
            final(self).provider_configs == old(self).provider_configs,
            final(self).filter == old(self).filter,
            final(self).configured(),
    {
        self.global_config = config;
        self.apply_config_to_providers();
    }

    /// Keeps `config` as the settings of the provider called
    /// `provider_name`, in place of what was kept for it before. What is
    /// kept for other providers stays.
    pub fn set_provider_config(&mut self, provider_name: &str, config: ProviderConfig)
        ensures
            settings_for(final(self).provider_configs@, provider_name@) == Some(config@),
            forall|other: Seq<char>|
                other != provider_name@ ==> settings_for(final(self).provider_configs@, other)
                    == settings_for(old(self).provider_configs@, other),
            kinds_of(final(self).providers@) == kinds_of(old(self).providers@),
            final(self).global_config == old(self).global_config,
            final(self).filter == old(self).filter,
            final(self).configured(),
    {
        let ghost before = self.provider_configs@;
        match self.position_of(provider_name) {
            Some(at) => {
                self.provider_configs.set(at, (provider_name.to_string(), config));
                proof {
                    lemma_settings_after_set(
                        before,
                        self.provider_configs@,
                        provider_name@,
                        at as int,
                    );
                }
            },
            None => {
                self.provider_configs.push((provider_name.to_string(), config));
                proof {
                    lemma_settings_after_push(before, self.provider_configs@, provider_name@);
                }
            },
        }
        self.apply_config_to_providers();
    }

    /// Replaces the filter for the entries of an archive.
    pub fn set_filter(&mut self, filter: IntelligentFilter)
        ensures
            final(self).filter == filter,
            final(self).providers == old(self).providers,
            final(self).global_config == old(self).global_config,
            final(self).provider_configs == old(self).provider_configs,
    {
        self.filter = filter;
    }

    /// Takes the aggressive filter, or goes back to the default one.
    pub fn set_aggressive_filtering(&mut self, enabled: bool)
        ensures
            enabled ==> final(self).filter.is_aggressive(),
            !enabled ==> final(self).filter.is_default(),
            final(self).providers == old(self).providers,
            final(self).global_config == old(self).global_config,
            final(self).provider_configs == old(self).provider_configs,
    {
        if enabled {
            self.filter = IntelligentFilter::aggressive();
        } else {
            self.filter = IntelligentFilter::default();
        }
    }

    /// Sets the global timeout, in seconds.
    pub fn set_timeout(&mut self, timeout: u64)
        ensures
            final(self).global_config@ == (ConfigView {
                timeout: Some(timeout),
                ..old(self).global_config@
            }),
            kinds_of(final(self).providers@) == kinds_of(old(self).providers@),
            final(self).provider_configs == old(self).provider_configs,
            final(self).filter == old(self).filter,
            final(self).configured(),
    {
        self.global_config.timeout = Some(timeout);
        self.apply_config_to_providers();
    }

    /// Sets globally whether invalid certificates are accepted.
    pub fn set_allow_insecure(&mut self, allow_insecure: bool)
        ensures
            final(self).global_config@ == (ConfigView {
                accept_invalid_certs: allow_insecure,
                ..old(self).global_config@
            }),
            kinds_of(final(self).providers@) == kinds_of(old(self).providers@),
            final(self).provider_configs == old(self).provider_configs,
            final(self).filter == old(self).filter,
            final(self).configured(),
    {
        self.global_config.accept_invalid_certs = allow_insecure;
        self.apply_config_to_providers();
    }

    /// Adds `credentials` to those kept for the provider called
    /// `provider_name`, for which the initial settings are taken where none
    /// were kept.
    pub fn set_provider_credentials(&mut self, provider_name: &str, credentials: StringMap)
        ensures
            settings_for(final(self).provider_configs@, provider_name@) == Some(
                ({
                    let kept = match settings_for(old(self).provider_configs@, provider_name@) {
                        Some(kept) => kept,
                        None => ConfigView::initial(),
                    };
                    ConfigView {
                        credentials: kept.credentials.union_prefer_right(credentials@),
                        ..kept
                    }
                }),
            ),
            forall|other: Seq<char>|
                other != provider_name@ ==> settings_for(final(self).provider_configs@, other)
                    == settings_for(old(self).provider_configs@, other),
            kinds_of(final(self).providers@) == kinds_of(old(self).providers@),
            final(self).global_config == old(self).global_config,
            final(self).filter == old(self).filter,
            final(self).configured(),
    {
        let mut config = match self.position_of(provider_name) {
            Some(at) => self.provider_configs[at].1.duplicate(),
            None => ProviderConfig::default(),
        };
        config.credentials.extend(&credentials);
        self.set_provider_config(provider_name, config);
    }

    /// Keeps `token` as the credential `token` of the provider `github`,
    /// beside what else is kept for it.
    pub fn set_github_token(&mut self, token: &str)
        ensures
            settings_for(final(self).provider_configs@, "github"@) == Some(
                ({
                    let kept = match settings_for(old(self).provider_configs@, "github"@) {
                        Some(kept) => kept,
                        None => ConfigView::initial(),
                    };
                    ConfigView { credentials: kept.credentials.insert("token"@, token@), ..kept }
                }),
            ),
            forall|other: Seq<char>|
                other != "github"@ ==> settings_for(final(self).provider_configs@, other)
                    == settings_for(old(self).provider_configs@, other),
            kinds_of(final(self).providers@) == kinds_of(old(self).providers@),
            final(self).global_config == old(self).global_config,
            final(self).filter == old(self).filter,
            final(self).configured(),
    {
        let mut credentials = StringMap::new();
        credentials.insert("token".to_string(), token.to_string());
        proof {
            assert forall|kept: Map<Seq<char>, Seq<char>>| #[trigger]
                kept.union_prefer_right(credentials@) =~= kept.insert("token"@, token@) by {}
        }
        self.set_provider_credentials("github", credentials);
    }

    /// The full URL that a repository reference stands for.
    pub fn expand_url(&self, url: &str) -> (full: String)
        ensures
            full@ == expanded(url@),
    {
        expand_url(url)
    }

    /// The name of the project behind a URL that is downloaded as it
    /// stands.
    pub fn extract_project_name_from_url(&self, url: &str) -> (name: String)
        ensures
            name@ == direct_project_name(url@),
    {
        let trimmed = trim_end_char(url, '/');
        archive_name(trimmed.as_str())
    }

    /// How the reference `url` is to be fetched. A reference that no
    /// provider takes is refused as a URL that cannot be parsed.
    pub fn resolve(&self, url: &str) -> (resolution: Result<Resolution>)
        ensures
            resolution_view(resolution) == resolved(kinds_of(self.providers@), url@),
            resolution matches Ok(Resolution::Repository { provider, .. }) ==> provider
                < self.providers@.len(),
            resolution matches Err(error) ==> (error matches AnalysisError::UrlParsingError {
                url: message,
            } && message@ == unsupported_message(expanded(url@))),
    {
        let full = self.expand_url(url);
        if direct_archive(full.as_str()) {
            let project_name = self.extract_project_name_from_url(full.as_str());
            return Ok(Resolution::Direct { url: full, project_name });
        }
        let ghost kinds = kinds_of(self.providers@);
        let mut at: usize = 0;
        while at < self.providers.len()
            invariant
                at <= self.providers@.len(),
                kinds == kinds_of(self.providers@),
                full@ == expanded(url@),
                !is_direct_archive(full@),
                first_resolver(kinds, full@) == first_resolver_from(kinds, full@, at as int),
            decreases self.providers@.len() - at,
        {
            if self.providers[at].can_handle(full.as_str()) {
                if let Some(parsed) = self.providers[at].parse_url(full.as_str()) {
                    return Ok(Resolution::Repository { provider: at, parsed });
                }
            }
            at += 1;
        }
        let mut message = "Unsupported URL format: ".to_string();
        message.append(full.as_str());
        message.append(
            ". Supported formats include GitHub, GitLab, Bitbucket, Codeberg, Gitea, SourceForge, Azure DevOps, and direct archive URLs.",
        );
        Err(AnalysisError::UrlParsingError { url: message })
    }

    /// Whether the service of the provider at place `provider` is to be
    /// asked for the default branch of `parsed`: it is where the URL named
    /// no reference and the service can tell.
    pub fn wants_default_branch(&self, provider: usize, parsed: &ParsedRepository) -> (wanted: bool)
        requires
            provider < self.providers@.len(),
        ensures
            wanted == (parsed@.branch_or_commit is None && self.providers@[provider as int].kind().knows_default_branch()),
    {
        parsed.branch_or_commit.is_none() && self.providers[provider].kind()
            == ProviderKind::GitHub
    }

    /// The archives to try for `parsed`, in order, as the provider at place
    /// `provider` names them. `discovered` is the default branch, where the
    /// service told it. A repository for which no archive can be named is
    /// refused as a URL that cannot be parsed.
    pub fn plan_downloads(
        &self,
        provider: usize,
        parsed: &ParsedRepository,
        discovered: Option<&str>,
    ) -> (plan: Result<DownloadAttempts>)
        requires
            provider < self.providers@.len(),
        ensures
            ({
                let candidates = download_candidates(
                    self.providers@[provider as int].kind(),
                    parsed@,
                    match discovered {
                        Some(branch) => Some(branch@),
                        None => None,
                    },
                );
                match plan {
                    Ok(attempts) => candidates.len() > 0 && url_texts(attempts.urls) == candidates
                        && attempts.tried == 0 && !attempts.done,
                    Err(error) => candidates.len() == 0 && (
                    error matches AnalysisError::UrlParsingError { url: message } && message@
                        == no_candidates_message(parsed@.project_name)),
                }
            }),
    {
        let urls = candidate_urls(&self.providers[provider], parsed, discovered);
        if urls.len() == 0 {
            let mut message = "No download URL can be built for ".to_string();
            message.append(parsed.project_name.as_str());
            return Err(AnalysisError::UrlParsingError { url: message });
        }
        Ok(DownloadAttempts::new(urls))
    }
}

impl Default for RemoteAnalyzer {
    fn default() -> (analyzer: Self)
        ensures
            kinds_of(analyzer.providers@) == standard_order(),
            analyzer.global_config@ == ConfigView::initial(),
            analyzer.provider_configs@.len() == 0,
            analyzer.filter.is_default(),
            analyzer.configured(),
    {
        RemoteAnalyzer::new()
    }
}

/// An entry for `name` after none for it is the one that is found; and
/// where there is none, none is found.
proof fn lemma_settings_from(
    table: Seq<(String, ProviderConfig)>,
    name: Seq<char>,
    from: int,
    at: int,
)
    requires
        0 <= from <= at <= table.len(),
        forall|earlier: int| from <= earlier < at ==> (#[trigger] table[earlier]).0@ != name,
        at < table.len() ==> table[at].0@ == name,
    ensures
        settings_from(table, name, from) == if at < table.len() {
            Some(table[at].1@)
        } else {
            None
        },
    decreases at - from,
{
    if from < at {
        assert(table[from].0@ != name);
        lemma_settings_from(table, name, from + 1, at);
    }
}

/// Two tables that hold entries of the same names and settings from some
/// place on give the same settings from that place on.
proof fn lemma_settings_agree(
    first: Seq<(String, ProviderConfig)>,
    second: Seq<(String, ProviderConfig)>,
    name: Seq<char>,
    from: int,
)
    requires
        0 <= from,
        first.len() == second.len(),
        forall|i: int|
            from <= i < first.len() ==> (#[trigger] first[i]).0@ == second[i].0@ && (first[i].0@
                == name ==> first[i].1@ == second[i].1@),
    ensures
        settings_from(first, name, from) == settings_from(second, name, from),
    decreases first.len() - from,
{
    if from < first.len() {
        assert(first[from].0@ == second[from].0@);
        lemma_settings_agree(first, second, name, from + 1);
    }
}

/// What replacing the entry for a name does to the settings found.
proof fn lemma_settings_after_set(
    before: Seq<(String, ProviderConfig)>,
    after: Seq<(String, ProviderConfig)>,
    name: Seq<char>,
    at: int,
)
    requires
        0 <= at < before.len(),
        after.len() == before.len(),
        after[at].0@ == name,
        before[at].0@ == name,
        forall|i: int| 0 <= i < before.len() && i != at ==> after[i] == before[i],
        forall|earlier: int| 0 <= earlier < at ==> (#[trigger] before[earlier]).0@ != name,
    ensures
        settings_for(after, name) == Some(after[at].1@),
        forall|other: Seq<char>|
            other != name ==> settings_for(after, other) == settings_for(before, other),
{
    assert forall|earlier: int| 0 <= earlier < at implies (#[trigger] after[earlier]).0@
        != name by {
        assert(after[earlier] == before[earlier]);
    }
    lemma_settings_from(after, name, 0, at);
    assert forall|other: Seq<char>| other != name implies settings_for(after, other)
        == settings_for(before, other) by {
        assert forall|i: int| 0 <= i < after.len() implies (#[trigger] after[i]).0@
            == before[i].0@ && (after[i].0@ == other ==> after[i].1@ == before[i].1@) by {
            if i != at {
                assert(after[i] == before[i]);
            }
        }
        lemma_settings_agree(after, before, other, 0);
    }
}

/// What adding an entry for a name that had none does to the settings
/// found.
proof fn lemma_settings_after_push(
    before: Seq<(String, ProviderConfig)>,
    after: Seq<(String, ProviderConfig)>,
    name: Seq<char>,
)
    requires
        after.len() == before.len() + 1,
        after[before.len() as int].0@ == name,
        forall|i: int| 0 <= i < before.len() ==> after[i] == before[i],
        forall|i: int| 0 <= i < before.len() ==> (#[trigger] before[i]).0@ != name,
    ensures
        settings_for(after, name) == Some(after[before.len() as int].1@),
        forall|other: Seq<char>|
            other != name ==> settings_for(after, other) == settings_for(before, other),
{
    assert forall|earlier: int| 0 <= earlier < before.len() implies (#[trigger] after[earlier]).0@
        != name by {
        assert(after[earlier] == before[earlier]);
    }
    lemma_settings_from(after, name, 0, before.len() as int);
    assert forall|other: Seq<char>| other != name implies settings_for(after, other)
        == settings_for(before, other) by {
        lemma_settings_prefix(before, after, other, 0);
    }
}

/// An entry for another name at the end of a table changes nothing for
/// `name`.
proof fn lemma_settings_prefix(
    before: Seq<(String, ProviderConfig)>,
    after: Seq<(String, ProviderConfig)>,
    name: Seq<char>,
    from: int,
)
    requires
        0 <= from <= before.len(),
        after.len() == before.len() + 1,
        after[before.len() as int].0@ != name,
        forall|i: int| 0 <= i < before.len() ==> after[i] == before[i],
    ensures
        settings_from(after, name, from) == settings_from(before, name, from),
    decreases before.len() - from,
{
    if from < before.len() {
        assert(after[from] == before[from]);
        lemma_settings_prefix(before, after, name, from + 1);
    } else {
        assert(settings_from(after, name, from + 1) is None);
    }
}

} // verus!
