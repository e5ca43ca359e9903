//! The hosting conventions that the library knows, as one type.

use crate::net::providers::archive::{archive_file_stem, archive_handles, archive_parse};
use crate::net::providers::azure_devops::{
    azure_downloads, azure_handles, azure_parse, azure_project_name,
};
use crate::net::providers::bitbucket::{
    bitbucket_downloads, bitbucket_handles, bitbucket_parse, bitbucket_project_name,
};
use crate::net::providers::codeberg::{
    codeberg_downloads, codeberg_handles, codeberg_parse, codeberg_project_name,
};
use crate::net::providers::gitea::{
    gitea_downloads, gitea_handles, gitea_parse, gitea_project_name,
};
use crate::net::providers::github::{github_downloads, github_parse, github_project_name};
use crate::net::providers::gitlab::{
    gitlab_downloads, gitlab_handles, gitlab_parse, gitlab_project_name,
};
use crate::net::providers::sourceforge::{
    sourceforge_downloads, sourceforge_handles, sourceforge_parse, sourceforge_project_name,
};
use crate::net::providers::{
    ArchiveProvider, AzureDevOpsProvider, BitbucketProvider, CodebergProvider, GiteaProvider,
    GitHubProvider, GitLabProvider, SourceForgeProvider,
};
use crate::net::traits::{
    last_piece, parsed_view, text_of, url_texts, ConfigView, ParsedRepository, ProviderConfig,
    RepositoryView,
};
use crate::text::is_infix;
use vstd::prelude::*;
use vstd::string::*;

verus! {

/// The hosting conventions, without the settings of a provider.
#[derive(Debug, Clone, Copy, PartialEq, Eq, Structural)]
pub enum ProviderKind {
    GitHub,
    GitLab,
    Bitbucket,
    Codeberg,
    Gitea,
    SourceForge,
    AzureDevOps,
    Archive,
}

impl ProviderKind {
    /// The name by which settings are addressed to providers of this kind.
    pub open spec fn label(self) -> Seq<char> {
        match self {
            ProviderKind::GitHub => "github"@,
            ProviderKind::GitLab => "gitlab"@,
            ProviderKind::Bitbucket => "bitbucket"@,
            ProviderKind::Codeberg => "codeberg"@,
            ProviderKind::Gitea => "gitea"@,
            ProviderKind::SourceForge => "sourceforge"@,
            ProviderKind::AzureDevOps => "azure_devops"@,
            ProviderKind::Archive => "archive"@,
        }
    }

    /// Whether providers of this kind take a URL for one of theirs.
    pub open spec fn handles(self, url: Seq<char>) -> bool {
        match self {
            ProviderKind::GitHub => is_infix(url, "github.com"@),
            ProviderKind::GitLab => gitlab_handles(url),
            ProviderKind::Bitbucket => bitbucket_handles(url),
            ProviderKind::Codeberg => codeberg_handles(url),
            ProviderKind::Gitea => gitea_handles(url),
            ProviderKind::SourceForge => sourceforge_handles(url),
            ProviderKind::AzureDevOps => azure_handles(url),
            ProviderKind::Archive => archive_handles(url),
        }
    }

    /// The repository that providers of this kind find in a URL.
    pub open spec fn parse(self, url: Seq<char>) -> Option<RepositoryView> {
        match self {
            ProviderKind::GitHub => github_parse(url),
            ProviderKind::GitLab => gitlab_parse(url),
            ProviderKind::Bitbucket => bitbucket_parse(url),
            ProviderKind::Codeberg => codeberg_parse(url),
            ProviderKind::Gitea => gitea_parse(url),
            ProviderKind::SourceForge => sourceforge_parse(url),
            ProviderKind::AzureDevOps => azure_parse(url),
            ProviderKind::Archive => archive_parse(url),
        }
    }

    /// The archives that providers of this kind try for a repository, in
    /// order.
    pub open spec fn downloads(self, parsed: RepositoryView) -> Seq<Seq<char>> {
        match self {
            ProviderKind::GitHub => github_downloads(parsed),
            ProviderKind::GitLab => gitlab_downloads(parsed),
            ProviderKind::Bitbucket => bitbucket_downloads(parsed),
            ProviderKind::Codeberg => codeberg_downloads(parsed),
            ProviderKind::Gitea => gitea_downloads(parsed),
            ProviderKind::SourceForge => sourceforge_downloads(parsed),
            ProviderKind::AzureDevOps => azure_downloads(parsed),
            ProviderKind::Archive => Seq::empty(),
        }
    }

    /// The name under which providers of this kind show the project at a
    /// URL.
    pub open spec fn project_name(self, url: Seq<char>) -> Seq<char> {
        match self {
            ProviderKind::GitHub => github_project_name(url),
            ProviderKind::GitLab => gitlab_project_name(url),
            ProviderKind::Bitbucket => bitbucket_project_name(url),
            ProviderKind::Codeberg => codeberg_project_name(url),
            ProviderKind::Gitea => gitea_project_name(url),
            ProviderKind::SourceForge => sourceforge_project_name(url),
            ProviderKind::AzureDevOps => azure_project_name(url),
            ProviderKind::Archive => archive_file_stem(last_piece(url)),
        }
    }

    /// What a provider of this kind keeps of the settings handed to it:
    /// GitHub the credential `token`; GitLab the credential `token`, or
    /// `private_token` where there is no `token`; every other kind all the
    /// credentials.
    pub open spec fn keeps(self, config: ConfigView) -> Secret {
        match self {
            ProviderKind::GitHub => Secret::Token(
                if config.credentials.contains_key("token"@) {
                    Some(config.credentials["token"@])
                } else {
                    None
                },
            ),
            ProviderKind::GitLab => Secret::Token(
                if config.credentials.contains_key("token"@) {
                    Some(config.credentials["token"@])
                } else if config.credentials.contains_key("private_token"@) {
                    Some(config.credentials["private_token"@])
                } else {
                    None
                },
            ),
            _ => Secret::Credentials(config.credentials),
        }
    }

    /// Whether a service of this kind can be asked for the default branch
    /// of a repository.
    pub open spec fn knows_default_branch(self) -> bool {
        self == ProviderKind::GitHub
    }
}

/// What a provider presents to its service to be let in.
pub enum Secret {
    Token(Option<Seq<char>>),
    Credentials(Map<Seq<char>, Seq<char>>),
}

/// A provider of one of the known kinds.
pub enum Provider {
    GitHub(GitHubProvider),
    GitLab(GitLabProvider),
    Bitbucket(BitbucketProvider),
    Codeberg(CodebergProvider),
    Gitea(GiteaProvider),
    SourceForge(SourceForgeProvider),
    AzureDevOps(AzureDevOpsProvider),
    Archive(ArchiveProvider),
}

impl Provider {
    /// The kind of this provider.
    pub open spec fn spec_kind(&self) -> ProviderKind {
        match self {
            Provider::GitHub(_) => ProviderKind::GitHub,
            Provider::GitLab(_) => ProviderKind::GitLab,
            Provider::Bitbucket(_) => ProviderKind::Bitbucket,
            Provider::Codeberg(_) => ProviderKind::Codeberg,
            Provider::Gitea(_) => ProviderKind::Gitea,
            Provider::SourceForge(_) => ProviderKind::SourceForge,
            Provider::AzureDevOps(_) => ProviderKind::AzureDevOps,
            Provider::Archive(_) => ProviderKind::Archive,
        }
    }

    /// What this provider presents to its service.
    pub open spec fn secret(&self) -> Secret {
        match self {
            Provider::GitHub(p) => Secret::Token(text_of(p.token)),
            Provider::GitLab(p) => Secret::Token(text_of(p.token)),
            Provider::Bitbucket(p) => Secret::Credentials(p.credentials@),
            Provider::Codeberg(p) => Secret::Credentials(p.credentials@),
            Provider::Gitea(p) => Secret::Credentials(p.credentials@),
            Provider::SourceForge(p) => Secret::Credentials(p.credentials@),
            Provider::AzureDevOps(p) => Secret::Credentials(p.credentials@),
            Provider::Archive(p) => Secret::Credentials(p.credentials@),
        }
    }

    /// The kind of this provider.
    #[verifier::when_used_as_spec(spec_kind)]
    pub fn kind(&self) -> (kind: ProviderKind)
        ensures
            kind == self.spec_kind(),
    {
        match self {
            Provider::GitHub(_) => ProviderKind::GitHub,
            Provider::GitLab(_) => ProviderKind::GitLab,
            Provider::Bitbucket(_) => ProviderKind::Bitbucket,
            Provider::Codeberg(_) => ProviderKind::Codeberg,
            Provider::Gitea(_) => ProviderKind::Gitea,
            Provider::SourceForge(_) => ProviderKind::SourceForge,
            Provider::AzureDevOps(_) => ProviderKind::AzureDevOps,
            Provider::Archive(_) => ProviderKind::Archive,
        }
    }

    /// The name by which settings are addressed to this provider.
    pub fn name(&self) -> (name: &'static str)
        ensures
            name@ == self.kind().label(),
    {
        match self {
            Provider::GitHub(p) => p.name(),
            Provider::GitLab(p) => p.name(),
            Provider::Bitbucket(p) => p.name(),
            Provider::Codeberg(p) => p.name(),
            Provider::Gitea(p) => p.name(),
            Provider::SourceForge(p) => p.name(),
            Provider::AzureDevOps(p) => p.name(),
            Provider::Archive(p) => p.name(),
        }
    }

    /// Whether this provider takes `url` for one of its own.
    pub fn can_handle(&self, url: &str) -> (handles: bool)
        ensures
            handles == self.kind().handles(url@),
    {
        match self {
            Provider::GitHub(p) => p.can_handle(url),
            Provider::GitLab(p) => p.can_handle(url),
            Provider::Bitbucket(p) => p.can_handle(url),
            Provider::Codeberg(p) => p.can_handle(url),
            Provider::Gitea(p) => p.can_handle(url),
            Provider::SourceForge(p) => p.can_handle(url),
            Provider::AzureDevOps(p) => p.can_handle(url),
            Provider::Archive(p) => p.can_handle(url),
        }
    }

    /// The repository that this provider finds in `url`.
    pub fn parse_url(&self, url: &str) -> (parsed: Option<ParsedRepository>)
        ensures
            parsed_view(parsed) == self.kind().parse(url@),
    {
        match self {
            Provider::GitHub(p) => p.parse_url(url),
            Provider::GitLab(p) => p.parse_url(url),
            Provider::Bitbucket(p) => p.parse_url(url),
            Provider::Codeberg(p) => p.parse_url(url),
            Provider::Gitea(p) => p.parse_url(url),
            Provider::SourceForge(p) => p.parse_url(url),
            Provider::AzureDevOps(p) => p.parse_url(url),
            Provider::Archive(p) => p.parse_url(url),
        }
    }

    /// The archives that this provider tries for a repository, in order.
    pub fn build_download_urls(&self, parsed: &ParsedRepository) -> (urls: Vec<String>)
        ensures
            url_texts(urls) == self.kind().downloads(parsed@),
    {
        match self {
            Provider::GitHub(p) => p.build_download_urls(parsed),
            Provider::GitLab(p) => p.build_download_urls(parsed),
            Provider::Bitbucket(p) => p.build_download_urls(parsed),
            Provider::Codeberg(p) => p.build_download_urls(parsed),
            Provider::Gitea(p) => p.build_download_urls(parsed),
            Provider::SourceForge(p) => p.build_download_urls(parsed),
            Provider::AzureDevOps(p) => p.build_download_urls(parsed),
            Provider::Archive(p) => {
                let urls = p.build_download_urls(parsed);
                assert(url_texts(urls) =~= Seq::<Seq<char>>::empty());
                urls
            },
        }
    }

    /// Hands the settings to the provider, which keeps of them what it
    /// presents to its service. The kind of the provider stays.
    pub fn apply_config(&mut self, config: &ProviderConfig)
        ensures
            final(self).kind() == old(self).kind(),
            final(self).secret() == old(self).kind().keeps(config@),
    {
        match self {
            Provider::GitHub(p) => p.apply_config(config),
            Provider::GitLab(p) => p.apply_config(config),
            Provider::Bitbucket(p) => p.apply_config(config),
            Provider::Codeberg(p) => p.apply_config(config),
            Provider::Gitea(p) => p.apply_config(config),
            Provider::SourceForge(p) => p.apply_config(config),
            Provider::AzureDevOps(p) => p.apply_config(config),
            Provider::Archive(p) => p.apply_config(config),
        }
    }

    /// The name under which this provider shows the project at `url`.
    pub fn get_project_name(&self, url: &str) -> (name: String)
        ensures
            name@ == self.kind().project_name(url@),
    {
        match self {
            Provider::GitHub(p) => p.get_project_name(url),
            Provider::GitLab(p) => p.get_project_name(url),
            Provider::Bitbucket(p) => p.get_project_name(url),
            Provider::Codeberg(p) => p.get_project_name(url),
            Provider::Gitea(p) => p.get_project_name(url),
            Provider::SourceForge(p) => p.get_project_name(url),
            Provider::AzureDevOps(p) => p.get_project_name(url),
            Provider::Archive(p) => p.get_project_name(url),
        }
    }
}

} // verus!
