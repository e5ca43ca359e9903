//! Repositories on gitlab.com and on self-hosted GitLab.

use crate::net::traits::{
    archive_name, archive_stem, find_marker, marker_place, parsed_view, part, text_of, url_texts,
    ParsedRepository, ProviderConfig, RepositoryView,
};
use crate::text::{
    contains, index_holding, is_infix, position_holding, split, split_on, texts, trim_end_char,
    without_trailing,
};
use vstd::prelude::*;
use vstd::string::*;

verus! {

/// Whether a URL is one of a GitLab host: it mentions `gitlab.com` or
/// `gitlab.`.
pub open spec fn gitlab_handles(url: Seq<char>) -> bool {
    is_infix(url, "gitlab.com"@) || is_infix(url, "gitlab."@)
}

/// Host, owner and repository as a GitLab URL gives them: the first piece
/// that holds `gitlab` is the host, and the two pieces after it are owner
/// and repository.
pub open spec fn gitlab_repository(parts: Seq<Seq<char>>) -> Option<RepositoryView> {
    match index_holding(parts, "gitlab"@) {
        Some(place) => if place + 2 < parts.len() {
            Some(RepositoryView::new(parts[place + 1], parts[place + 2]))
        } else {
            None
        },
        None => None,
    }
}

/// The host that a GitLab URL gives: the first piece that holds `gitlab`.
pub open spec fn gitlab_host(parts: Seq<Seq<char>>) -> Seq<char> {
    parts[index_holding(parts, "gitlab"@)->0]
}

/// The repository that a URL with a `tree` piece names: the piece after
/// `tree`, which must have three pieces or more before it, is the branch.
pub open spec fn gitlab_tree(url: Seq<char>) -> Option<RepositoryView> {
    let parts = split_on(url, '/');
    match (marker_place(parts, "tree"@, 3), gitlab_repository(parts)) {
        (Some(place), Some(repository)) => Some(
            repository.with_branch(parts[place + 1]).with_host(gitlab_host(parts)),
        ),
        _ => None,
    }
}

/// The repository that a URL with a `commit` piece names: the piece after
/// `commit`, which must have three pieces or more before it, is the commit.
pub open spec fn gitlab_commit(url: Seq<char>) -> Option<RepositoryView> {
    let parts = split_on(url, '/');
    match (marker_place(parts, "commit"@, 3), gitlab_repository(parts)) {
        (Some(place), Some(repository)) => Some(
            repository.with_commit(parts[place + 1]).with_host(gitlab_host(parts)),
        ),
        _ => None,
    }
}

/// The repository that a plain URL names.
pub open spec fn gitlab_basic(url: Seq<char>) -> Option<RepositoryView> {
    let parts = split_on(url, '/');
    match gitlab_repository(parts) {
        Some(repository) => Some(repository.with_host(gitlab_host(parts))),
        None => None,
    }
}

/// The repository that a URL names, if the URL is one of a GitLab host:
/// the URL is read without its trailing slashes, as a tree URL if it holds
/// `/-/tree/`, else as a commit URL if it holds `/-/commit/`, else as a
/// plain one.
pub open spec fn gitlab_parse(url: Seq<char>) -> Option<RepositoryView> {
    let trimmed = without_trailing(url, '/');
    if !gitlab_handles(url) {
        None
    } else if is_infix(trimmed, "/-/tree/"@) {
        gitlab_tree(trimmed)
    } else if is_infix(trimmed, "/-/commit/"@) {
        gitlab_commit(trimmed)
    } else {
        gitlab_basic(trimmed)
    }
}

/// The path of a project below its host.
pub open spec fn gitlab_project_path(owner: Seq<char>, repo: Seq<char>) -> Seq<char> {
    owner + "/"@ + repo
}

/// The archive to try for a repository: that of the reference it names, on
/// its host or on `gitlab.com`; and none where it names no reference.
pub open spec fn gitlab_downloads(parsed: RepositoryView) -> Seq<Seq<char>> {
    let host = match parsed.host {
        Some(host) => host,
        None => "gitlab.com"@,
    };
    match parsed.branch_or_commit {
        Some(reference) => seq![
            "https://"@ + host + "/"@ + gitlab_project_path(parsed.owner, parsed.repo)
                + "/-/archive/"@ + reference + "/"@ + parsed.repo + "-"@ + reference
                + ".tar.gz"@,
        ],
        None => Seq::empty(),
    }
}

/// The name under which the project at `url` is shown.
pub open spec fn gitlab_project_name(url: Seq<char>) -> Seq<char> {
    match gitlab_parse(url) {
        Some(parsed) => parsed.project_name,
        None => archive_stem(url),
    }
}

/// Reads the URLs of GitLab hosts and names the archives of their
/// repositories.
pub struct GitLabProvider {
    pub token: Option<String>,
}

impl Default for GitLabProvider {
    fn default() -> (provider: Self)
        ensures
            provider.token is None,
    {
        GitLabProvider { token: None }
    }
}

impl GitLabProvider {
    /// A provider that presents no token.
    pub fn new() -> (provider: Self)
        ensures
            provider.token is None,
    {
        GitLabProvider { token: None }
    }

    /// The name by which settings are addressed to this provider.
    pub fn name(&self) -> (name: &'static str)
        ensures
            name@ == "gitlab"@,
    {
        "gitlab"
    }

    /// Takes the credential `token` of `config` as the token to present,
    /// and the credential `private_token` where there is no `token`.
    pub fn apply_config(&mut self, config: &ProviderConfig)
        ensures
            text_of(final(self).token) == if config@.credentials.contains_key("token"@) {
                Some(config@.credentials["token"@])
            } else if config@.credentials.contains_key("private_token"@) {
                Some(config@.credentials["private_token"@])
            } else {
                None
            },
    {
        self.token = match config.credentials.get("token") {
            Some(token) => Some(token.clone()),
            None => match config.credentials.get("private_token") {
                Some(token) => Some(token.clone()),
                None => None,
            },
        };
    }

    /// Whether `url` is taken for one of this host.
    pub fn can_handle(&self, url: &str) -> (handles: bool)
        ensures
            handles == gitlab_handles(url@),
    {
        contains(url, "gitlab.com") || contains(url, "gitlab.")
    }

    /// The repository that `url` names, where the URL is one of this host and
    /// names one.
    pub fn parse_url(&self, url: &str) -> (parsed: Option<ParsedRepository>)
        ensures
            parsed_view(parsed) == gitlab_parse(url@),
    {
        if !self.can_handle(url) {
            return None;
        }
        let trimmed = trim_end_char(url, '/');
        if contains(trimmed.as_str(), "/-/tree/") {
            return self.parse_tree_url(trimmed.as_str());
        }
        if contains(trimmed.as_str(), "/-/commit/") {
            return self.parse_commit_url(trimmed.as_str());
        }
        self.parse_basic_url(trimmed.as_str())
    }

    /// The archives to try for `parsed`, in order.
    pub fn build_download_urls(&self, parsed: &ParsedRepository) -> (urls: Vec<String>)
        ensures
            url_texts(urls) == gitlab_downloads(parsed@),
    {
        let mut urls: Vec<String> = Vec::new();
        if let Some(reference) = &parsed.branch_or_commit {
            let mut url = "https://".to_string();
            match &parsed.host {
                Some(host) => url.append(host.as_str()),
                None => url.append("gitlab.com"),
            }
            url.append("/");
            let path = self.build_project_path(parsed.owner.as_str(), parsed.repo.as_str());
            url.append(path.as_str());
            url.append("/-/archive/");
            url.append(reference.as_str());
            url.append("/");
            url.append(parsed.repo.as_str());
            url.append("-");
            url.append(reference.as_str());
            url.append(".tar.gz");
            urls.push(url);
        }
        proof {
            assert(url_texts(urls) =~= gitlab_downloads(parsed@));
        }
        urls
    }

    /// The name under which the project at `url` is shown.
    pub fn get_project_name(&self, url: &str) -> (name: String)
        ensures
            name@ == gitlab_project_name(url@),
    {
        match self.parse_url(url) {
            Some(parsed) => parsed.project_name,
            None => archive_name(url),
        }
    }

    /// Owner and repository as the pieces of a URL give them, and the host.
    fn repository_of(&self, parts: &Vec<String>) -> (found: Option<(ParsedRepository, String)>)
        ensures
            match found {
                Some((repository, host)) => gitlab_repository(texts(parts@)) == Some(repository@)
                    && host@ == gitlab_host(texts(parts@)),
                None => gitlab_repository(texts(parts@)) is None,
            },
    {
        match position_holding(parts, "gitlab") {
            Some(place) => if parts.len() - place > 2 {
                Some(
                    (
                        ParsedRepository::new(part(parts, place + 1), part(parts, place + 2)),
                        part(parts, place),
                    ),
                )
            } else {
                None
            },
            None => None,
        }
    }

    /// The repository that a URL with a `tree` piece names.
    pub fn parse_tree_url(&self, url: &str) -> (parsed: Option<ParsedRepository>)
        ensures
            parsed_view(parsed) == gitlab_tree(url@),
    {
        let parts = split(url, '/');
        match find_marker(&parts, "tree", 3) {
            Some(place) => match self.repository_of(&parts) {
                Some((repository, host)) => Some(
                    repository.with_branch(part(&parts, place + 1)).with_host(host),
                ),
                None => None,
            },
            None => None,
        }
    }

    /// The repository that a URL that names a commit names.
    pub fn parse_commit_url(&self, url: &str) -> (parsed: Option<ParsedRepository>)
        ensures
            parsed_view(parsed) == gitlab_commit(url@),
    {
        let parts = split(url, '/');
        match find_marker(&parts, "commit", 3) {
            Some(place) => match self.repository_of(&parts) {
                Some((repository, host)) => Some(
                    repository.with_commit(part(&parts, place + 1)).with_host(host),
                ),
                None => None,
            },
            None => None,
        }
    }

    /// The repository that a plain URL names.
    pub fn parse_basic_url(&self, url: &str) -> (parsed: Option<ParsedRepository>)
        ensures
            parsed_view(parsed) == gitlab_basic(url@),
    {
        let parts = split(url, '/');
        match self.repository_of(&parts) {
            Some((repository, host)) => Some(repository.with_host(host)),
            None => None,
        }
    }

    /// The path of a project below its host.
    pub fn build_project_path(&self, owner: &str, repo: &str) -> (path: String)
        ensures
            path@ == gitlab_project_path(owner@, repo@),
    {
        let mut path = owner.to_string();
        path.append("/");
        path.append(repo);
        path
    }
}

} // verus!
