//! Repositories on github.com.

use crate::net::traits::{
    archive_name, archive_stem, find_marker, marker_place, parsed_view, part, text_of, url_texts,
    ParsedRepository, ProviderConfig, RepositoryView,
};
use crate::text::{
    contains, index_of, is_infix, is_prefix, position, split, split_on, starts_with, suffix_from,
    trim_end_char, without_trailing,
};
use vstd::prelude::*;
use vstd::string::*;

verus! {

/// The repository that a URL with a `tree` piece names: the two pieces
/// before `tree` are owner and repository, the piece after it is the
/// branch.
pub open spec fn github_tree(url: Seq<char>) -> Option<RepositoryView> {
    let parts = split_on(url, '/');
    match marker_place(parts, "tree"@, 2) {
        Some(place) => Some(
            RepositoryView::new(parts[place - 2], parts[place - 1]).with_branch(
                parts[place + 1],
            ).with_host("github.com"@),
        ),
        None => None,
    }
}

/// The repository that a URL with a `commit` piece names: the two pieces
/// before `commit` are owner and repository, the piece after it is the
/// commit.
pub open spec fn github_commit(url: Seq<char>) -> Option<RepositoryView> {
    let parts = split_on(url, '/');
    match marker_place(parts, "commit"@, 2) {
        Some(place) => Some(
            RepositoryView::new(parts[place - 2], parts[place - 1]).with_commit(
                parts[place + 1],
            ).with_host("github.com"@),
        ),
        None => None,
    }
}

/// The repository that a plain URL names: the two pieces after the piece
/// `github.com` are owner and repository; failing that, the first two
/// pieces of what follows `https://github.com/`.
pub open spec fn github_basic(url: Seq<char>) -> Option<RepositoryView> {
    let parts = split_on(url, '/');
    let front = "https://github.com/"@;
    let rest = split_on(url.skip(front.len() as int), '/');
    if index_of(parts, "github.com"@) is Some && index_of(parts, "github.com"@)->0 + 2
        < parts.len() {
        let place = index_of(parts, "github.com"@)->0;
        Some(RepositoryView::new(parts[place + 1], parts[place + 2]).with_host("github.com"@))
    } else if is_prefix(url, front) && rest.len() >= 2 {
        Some(RepositoryView::new(rest[0], rest[1]).with_host("github.com"@))
    } else {
        None
    }
}

/// The repository that a URL names, if the URL mentions `github.com`: the
/// URL is read without its trailing slashes, as a tree URL if it holds
/// `/tree/`, else as a commit URL if it holds `/commit/`, else as a plain
/// one.
pub open spec fn github_parse(url: Seq<char>) -> Option<RepositoryView> {
    let trimmed = without_trailing(url, '/');
    if !is_infix(url, "github.com"@) {
        None
    } else if is_infix(trimmed, "/tree/"@) {
        github_tree(trimmed)
    } else if is_infix(trimmed, "/commit/"@) {
        github_commit(trimmed)
    } else {
        github_basic(trimmed)
    }
}

/// The archives to try for a repository: for a commit the archive of the
/// commit; for another reference the archive of the branch of that name,
/// then that of the tag; and none where no reference is named.
pub open spec fn github_downloads(parsed: RepositoryView) -> Seq<Seq<char>> {
    let base = "https://github.com/"@ + parsed.owner + "/"@ + parsed.repo;
    match parsed.branch_or_commit {
        Some(reference) => if parsed.is_commit {
            seq![base + "/archive/"@ + reference + ".tar.gz"@]
        } else {
            seq![
                base + "/archive/refs/heads/"@ + reference + ".tar.gz"@,
                base + "/archive/refs/tags/"@ + reference + ".tar.gz"@,
            ]
        },
        None => Seq::empty(),
    }
}

/// Where the service tells what is known of a repository, its default
/// branch among it.
pub open spec fn github_api_url(parsed: RepositoryView) -> Seq<char> {
    "https://api.github.com/repos/"@ + parsed.owner + "/"@ + parsed.repo
}

/// The name under which the project at `url` is shown.
pub open spec fn github_project_name(url: Seq<char>) -> Seq<char> {
    match github_parse(url) {
        Some(parsed) => parsed.project_name,
        None => archive_stem(url),
    }
}

/// Reads the URLs of github.com and names the archives of its
/// repositories.
pub struct GitHubProvider {
    pub token: Option<String>,
}

impl Default for GitHubProvider {
    fn default() -> (provider: Self)
        ensures
            provider.token is None,
    {
        GitHubProvider { token: None }
    }
}

impl GitHubProvider {
    /// A provider that presents no token.
    pub fn new() -> (provider: Self)
        ensures
            provider.token is None,
    {
        GitHubProvider { token: None }
    }

    /// The name by which settings are addressed to this provider.
    pub fn name(&self) -> (name: &'static str)
        ensures
            name@ == "github"@,
    {
        "github"
    }

    /// Whether `url` is taken for one of this host.
    pub fn can_handle(&self, url: &str) -> (handles: bool)
        ensures
            handles == is_infix(url@, "github.com"@),
    {
        contains(url, "github.com")
    }

    /// The repository that `url` names, where the URL is one of this host and
    /// names one.
    pub fn parse_url(&self, url: &str) -> (parsed: Option<ParsedRepository>)
        ensures
            parsed_view(parsed) == github_parse(url@),
    {
        if !self.can_handle(url) {
            return None;
        }
        let trimmed = trim_end_char(url, '/');
        if contains(trimmed.as_str(), "/tree/") {
            return self.parse_tree_url(trimmed.as_str());
        }
        if contains(trimmed.as_str(), "/commit/") {
            return self.parse_commit_url(trimmed.as_str());
        }
        self.parse_basic_url(trimmed.as_str())
    }

    /// The archives to try for `parsed`, in order.
    pub fn build_download_urls(&self, parsed: &ParsedRepository) -> (urls: Vec<String>)
        ensures
            url_texts(urls) == github_downloads(parsed@),
    {
        let mut urls: Vec<String> = Vec::new();
        if let Some(reference) = &parsed.branch_or_commit {
            let mut base = "https://github.com/".to_string();
            base.append(parsed.owner.as_str());
            base.append("/");
            base.append(parsed.repo.as_str());
            if parsed.is_commit {
                let mut url = base;
                url.append("/archive/");
                url.append(reference.as_str());
                url.append(".tar.gz");
                urls.push(url);
            } else {
                let mut heads = base.clone();
                heads.append("/archive/refs/heads/");
                heads.append(reference.as_str());
                heads.append(".tar.gz");
                urls.push(heads);
                let mut tags = base;
                tags.append("/archive/refs/tags/");
                tags.append(reference.as_str());
                tags.append(".tar.gz");
                urls.push(tags);
            }
        }
        proof {
            assert(url_texts(urls) =~= github_downloads(parsed@));
        }
        urls
    }

    /// Takes the credential `token` of `config` as the token to present.
    pub fn apply_config(&mut self, config: &ProviderConfig)
        ensures
            text_of(final(self).token) == if config@.credentials.contains_key("token"@) {
                Some(config@.credentials["token"@])
            } else {
                None
            },
    {
        self.token = match config.credentials.get("token") {
            Some(token) => Some(token.clone()),
            None => None,
        };
    }

    /// The name under which the project at `url` is shown.
    pub fn get_project_name(&self, url: &str) -> (name: String)
        ensures
            name@ == github_project_name(url@),
    {
        match self.parse_url(url) {
            Some(parsed) => parsed.project_name,
            None => archive_name(url),
        }
    }

    /// Where the service is asked for the default branch of `parsed`.
    pub fn default_branch_url(&self, parsed: &ParsedRepository) -> (url: String)
        ensures
            url@ == github_api_url(parsed@),
    {
        let mut url = "https://api.github.com/repos/".to_string();
        url.append(parsed.owner.as_str());
        url.append("/");
        url.append(parsed.repo.as_str());
        url
    }

    /// What is put into the `Authorization` header of a request to the
    /// service: the word `token` and the token, where there is one.
    pub fn authorization(&self) -> (header: Option<String>)
        ensures
            text_of(header) == match self.token {
                Some(token) => Some("token "@ + token@),
                None => None,
            },
    {
        match &self.token {
            Some(token) => {
                let mut header = "token ".to_string();
                header.append(token.as_str());
                Some(header)
            },
            None => None,
        }
    }

    /// The repository that a URL with a `tree` piece names.
    pub fn parse_tree_url(&self, url: &str) -> (parsed: Option<ParsedRepository>)
        ensures
            parsed_view(parsed) == github_tree(url@),
    {
        let parts = split(url, '/');
        match find_marker(&parts, "tree", 2) {
            Some(place) => Some(
                ParsedRepository::new(part(&parts, place - 2), part(&parts, place - 1)).with_branch(
                    part(&parts, place + 1),
                ).with_host("github.com".to_string()),
            ),
            None => None,
        }
    }

    /// The repository that a URL that names a commit names.
    pub fn parse_commit_url(&self, url: &str) -> (parsed: Option<ParsedRepository>)
        ensures
            parsed_view(parsed) == github_commit(url@),
    {
        let parts = split(url, '/');
        match find_marker(&parts, "commit", 2) {
            Some(place) => Some(
                ParsedRepository::new(part(&parts, place - 2), part(&parts, place - 1)).with_commit(
                    part(&parts, place + 1),
                ).with_host("github.com".to_string()),
            ),
            None => None,
        }
    }

    /// The repository that a plain URL names.
    pub fn parse_basic_url(&self, url: &str) -> (parsed: Option<ParsedRepository>)
        ensures
            parsed_view(parsed) == github_basic(url@),
    {
        let parts = split(url, '/');
        if let Some(place) = position(&parts, "github.com") {
            if parts.len() - place > 2 {
                return Some(
                    ParsedRepository::new(part(&parts, place + 1), part(&parts, place + 2)).with_host(
                        "github.com".to_string(),
                    ),
                );
            }
        }
        if starts_with(url, "https://github.com/") {
            let front = "https://github.com/".unicode_len();
            let stripped = suffix_from(url, front);
            let rest = split(stripped.as_str(), '/');
            if rest.len() >= 2 {
                return Some(
                    ParsedRepository::new(part(&rest, 0), part(&rest, 1)).with_host(
                        "github.com".to_string(),
                    ),
                );
            }
        }
        None
    }
}

} // verus!
