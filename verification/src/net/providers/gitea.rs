//! Repositories on Gitea and on hosts that look like it.

use crate::net::traits::{
    archive_name, archive_stem, find_marker, marker_place, parsed_view, part, url_texts,
    ParsedRepository, ProviderConfig, RepositoryView,
};
use crate::string_map::StringMap;
use crate::text::{contains, is_infix, split, split_on, str_eq, trim_end_char, without_trailing};
use vstd::prelude::*;
use vstd::string::*;

verus! {

/// Whether a URL may be one of a Gitea host: it mentions `gitea.`, `/gitea`
/// or `git.`.
pub open spec fn gitea_handles(url: Seq<char>) -> bool {
    is_infix(url, "gitea."@) || is_infix(url, "/gitea"@) || is_infix(url, "git."@)
}

/// The repository that a URL with a `commit` piece names: the third piece
/// is the host, the two pieces before `commit` are owner and repository,
/// the piece after it is the commit.
pub open spec fn gitea_commit(url: Seq<char>) -> Option<RepositoryView> {
    let parts = split_on(url, '/');
    match marker_place(parts, "commit"@, 4) {
        Some(place) => Some(
            RepositoryView::new(parts[place - 2], parts[place - 1]).with_commit(
                parts[place + 1],
            ).with_host(parts[2]),
        ),
        None => None,
    }
}

/// The repository that a URL with a `branch` piece names: the third piece
/// is the host, owner and repository stand three and two pieces before
/// `branch`, the piece after it is the branch.
pub open spec fn gitea_branch(url: Seq<char>) -> Option<RepositoryView> {
    let parts = split_on(url, '/');
    match marker_place(parts, "branch"@, 5) {
        Some(place) => Some(
            RepositoryView::new(parts[place - 3], parts[place - 2]).with_branch(
                parts[place + 1],
            ).with_host(parts[2]),
        ),
        None => None,
    }
}

/// The repository that a plain URL names: of a URL that begins with
/// `https:` and has five pieces or more, the third piece is the host and
/// the next two are owner and repository.
pub open spec fn gitea_basic(url: Seq<char>) -> Option<RepositoryView> {
    let parts = split_on(url, '/');
    if parts.len() >= 5 && parts[0] == "https:"@ {
        Some(RepositoryView::new(parts[3], parts[4]).with_host(parts[2]))
    } else {
        None
    }
}

/// The repository that a URL names, if the URL may be one of a Gitea host:
/// the URL is read without its trailing slashes, as a commit URL if it
/// holds `/commit/`, else as a branch URL if it holds `/src/branch/`, else
/// as a plain one.
pub open spec fn gitea_parse(url: Seq<char>) -> Option<RepositoryView> {
    let trimmed = without_trailing(url, '/');
    if !gitea_handles(url) {
        None
    } else if is_infix(trimmed, "/commit/"@) {
        gitea_commit(trimmed)
    } else if is_infix(trimmed, "/src/branch/"@) {
        gitea_branch(trimmed)
    } else {
        gitea_basic(trimmed)
    }
}

/// The host of a repository, or `fallback` where none is named.
pub open spec fn host_or(parsed: RepositoryView, fallback: Seq<char>) -> Seq<char> {
    match parsed.host {
        Some(host) => host,
        None => fallback,
    }
}

/// The archive to try for a repository: that of the reference it names, on
/// its host or on `gitea.com`; and none where it names no reference.
pub open spec fn gitea_downloads(parsed: RepositoryView) -> Seq<Seq<char>> {
    match parsed.branch_or_commit {
        Some(reference) => seq![
            "https://"@ + host_or(parsed, "gitea.com"@) + "/"@ + parsed.owner + "/"@ + parsed.repo
                + "/archive/"@ + reference + ".tar.gz"@,
        ],
        None => Seq::empty(),
    }
}

/// The name under which the project at `url` is shown.
pub open spec fn gitea_project_name(url: Seq<char>) -> Seq<char> {
    match gitea_parse(url) {
        Some(parsed) => parsed.project_name,
        None => archive_stem(url),
    }
}

/// Reads the URLs of Gitea hosts and names the archives of their
/// repositories.
pub struct GiteaProvider {
    pub credentials: StringMap,
}

impl Default for GiteaProvider {
    fn default() -> (provider: Self)
        ensures
            provider.credentials@ == Map::<Seq<char>, Seq<char>>::empty(),
    {
        GiteaProvider { credentials: StringMap::new() }
    }
}

impl GiteaProvider {
    /// A provider that presents no credentials.
    pub fn new() -> (provider: Self)
        ensures
            provider.credentials@ == Map::<Seq<char>, Seq<char>>::empty(),
    {
        GiteaProvider { credentials: StringMap::new() }
    }

    /// The name by which settings are addressed to this provider.
    pub fn name(&self) -> (name: &'static str)
        ensures
            name@ == "gitea"@,
    {
        "gitea"
    }

    /// Takes the credentials of `config` as those to present.
    pub fn apply_config(&mut self, config: &ProviderConfig)
        ensures
            final(self).credentials@ == config@.credentials,
    {
        self.credentials = config.credentials.duplicate();
    }

    /// Whether `url` is taken for one of this host.
    pub fn can_handle(&self, url: &str) -> (handles: bool)
        ensures
            handles == gitea_handles(url@),
    {
        contains(url, "gitea.") || contains(url, "/gitea") || contains(url, "git.")
            || self.is_likely_gitea(url)
    }

    /// The repository that `url` names, where the URL is one of this host and
    /// names one.
    pub fn parse_url(&self, url: &str) -> (parsed: Option<ParsedRepository>)
        ensures
            parsed_view(parsed) == gitea_parse(url@),
    {
        if !self.can_handle(url) {
            return None;
        }
        let trimmed = trim_end_char(url, '/');
        if contains(trimmed.as_str(), "/commit/") {
            return self.parse_commit_url(trimmed.as_str());
        }
        if contains(trimmed.as_str(), "/src/branch/") {
            return self.parse_branch_url(trimmed.as_str());
        }
        self.parse_basic_url(trimmed.as_str())
    }

    /// No URL is taken for one of a Gitea host on other grounds.
    pub fn is_likely_gitea(&self, _url: &str) -> (likely: bool)
        ensures
            !likely,
    {
        false
    }

    /// The archives to try for `parsed`, in order.
    pub fn build_download_urls(&self, parsed: &ParsedRepository) -> (urls: Vec<String>)
        ensures
            url_texts(urls) == gitea_downloads(parsed@),
    {
        let mut urls: Vec<String> = Vec::new();
        if let Some(reference) = &parsed.branch_or_commit {
            let mut url = "https://".to_string();
            match &parsed.host {
                Some(host) => url.append(host.as_str()),
                None => url.append("gitea.com"),
            }
            url.append("/");
            url.append(parsed.owner.as_str());
            url.append("/");
            url.append(parsed.repo.as_str());
            url.append("/archive/");
            url.append(reference.as_str());
            url.append(".tar.gz");
            urls.push(url);
        }
        proof {
            assert(url_texts(urls) =~= gitea_downloads(parsed@));
        }
        urls
    }

    /// The name under which the project at `url` is shown.
    pub fn get_project_name(&self, url: &str) -> (name: String)
        ensures
            name@ == gitea_project_name(url@),
    {
        match self.parse_url(url) {
            Some(parsed) => parsed.project_name,
            None => archive_name(url),
        }
    }

    /// The repository that a URL that names a commit names.
    pub fn parse_commit_url(&self, url: &str) -> (parsed: Option<ParsedRepository>)
        ensures
            parsed_view(parsed) == gitea_commit(url@),
    {
        let parts = split(url, '/');
        match find_marker(&parts, "commit", 4) {
            Some(place) => Some(
                ParsedRepository::new(
                    part(&parts, place - 2),
                    part(&parts, place - 1),
                ).with_commit(part(&parts, place + 1)).with_host(part(&parts, 2)),
            ),
            None => None,
        }
    }

    /// The repository that a URL that names a branch names.
    pub fn parse_branch_url(&self, url: &str) -> (parsed: Option<ParsedRepository>)
        ensures
            parsed_view(parsed) == gitea_branch(url@),
    {
        let parts = split(url, '/');
        match find_marker(&parts, "branch", 5) {
            Some(place) => Some(
                ParsedRepository::new(
                    part(&parts, place - 3),
                    part(&parts, place - 2),
                ).with_branch(part(&parts, place + 1)).with_host(part(&parts, 2)),
            ),
            None => None,
        }
    }

    /// The repository that a plain URL names.
    pub fn parse_basic_url(&self, url: &str) -> (parsed: Option<ParsedRepository>)
        ensures
            parsed_view(parsed) == gitea_basic(url@),
    {
        let parts = split(url, '/');
        if parts.len() >= 5 && str_eq(parts[0].as_str(), "https:") {
            Some(ParsedRepository::new(part(&parts, 3), part(&parts, 4)).with_host(part(&parts, 2)))
        } else {
            None
        }
    }
}

} // verus!
