//! Repositories on codeberg.org.

use crate::net::traits::{
    archive_name, archive_stem, find_marker, marker_place, parsed_view, part, url_texts,
    ParsedRepository, ProviderConfig, RepositoryView,
};
use crate::string_map::StringMap;
use crate::text::{
    contains, index_of, is_infix, position, split, split_on, trim_end_char, without_trailing,
};
use vstd::prelude::*;
use vstd::string::*;

verus! {

/// Whether a URL is one of this host: it mentions `codeberg.org`.
pub open spec fn codeberg_handles(url: Seq<char>) -> bool {
    is_infix(url, "codeberg.org"@)
}

/// The repository that a URL with a `commit` piece names: the two
/// pieces before `commit` are owner and repository, the piece after it
/// is the commit.
pub open spec fn codeberg_commit(url: Seq<char>) -> Option<RepositoryView> {
    let parts = split_on(url, '/');
    match marker_place(parts, "commit"@, 2) {
        Some(place) => Some(
            RepositoryView::new(parts[place - 2], parts[place - 1]).with_commit(
                parts[place + 1],
            ).with_host("codeberg.org"@),
        ),
        None => None,
    }
}

/// The repository that a URL with a `branch` piece names: owner and
/// repository stand 3 and 2 pieces before `branch`, the piece after it
/// is the branch.
pub open spec fn codeberg_branch(url: Seq<char>) -> Option<RepositoryView> {
    let parts = split_on(url, '/');
    match marker_place(parts, "branch"@, 3) {
        Some(place) => Some(
            RepositoryView::new(parts[place - 3], parts[place - 2]).with_branch(
                parts[place + 1],
            ).with_host("codeberg.org"@),
        ),
        None => None,
    }
}

/// The repository that a plain URL names: the two pieces after the piece
/// `codeberg.org` are owner and repository.
pub open spec fn codeberg_basic(url: Seq<char>) -> Option<RepositoryView> {
    let parts = split_on(url, '/');
    match index_of(parts, "codeberg.org"@) {
        Some(place) => if place + 2 < parts.len() {
            Some(RepositoryView::new(parts[place + 1], parts[place + 2]).with_host("codeberg.org"@))
        } else {
            None
        },
        None => None,
    }
}

/// The repository that a URL names, if the URL is one of this host: the
/// URL is read without its trailing slashes, as a commit URL if it holds
/// `/commit/`, else as a branch URL if it holds `/src/branch/`, else
/// as a plain one.
pub open spec fn codeberg_parse(url: Seq<char>) -> Option<RepositoryView> {
    let trimmed = without_trailing(url, '/');
    if !codeberg_handles(url) {
        None
    } else if is_infix(trimmed, "/commit/"@) {
        codeberg_commit(trimmed)
    } else if is_infix(trimmed, "/src/branch/"@) {
        codeberg_branch(trimmed)
    } else {
        codeberg_basic(trimmed)
    }
}

/// The archive to try for a repository: that of the reference it names,
/// and none where it names no reference.
pub open spec fn codeberg_downloads(parsed: RepositoryView) -> Seq<Seq<char>> {
    match parsed.branch_or_commit {
        Some(reference) => seq![
            "https://codeberg.org/"@ + parsed.owner + "/"@ + parsed.repo + "/archive/"@ + reference + ".tar.gz"@,
        ],
        None => Seq::empty(),
    }
}

/// The name under which the project at `url` is shown.
pub open spec fn codeberg_project_name(url: Seq<char>) -> Seq<char> {
    match codeberg_parse(url) {
        Some(parsed) => parsed.project_name,
        None => archive_stem(url),
    }
}

/// Reads the URLs of codeberg.org and names the archives of its
/// repositories.
pub struct CodebergProvider {
    pub credentials: StringMap,
}

impl Default for CodebergProvider {
    fn default() -> (provider: Self)
        ensures
            provider.credentials@ == Map::<Seq<char>, Seq<char>>::empty(),
    {
        CodebergProvider { credentials: StringMap::new() }
    }
}

impl CodebergProvider {
    /// A provider that presents no credentials.
    pub fn new() -> (provider: Self)
        ensures
            provider.credentials@ == Map::<Seq<char>, Seq<char>>::empty(),
    {
        CodebergProvider { credentials: StringMap::new() }
    }

    /// The name by which settings are addressed to this provider.
    pub fn name(&self) -> (name: &'static str)
        ensures
            name@ == "codeberg"@,
    {
        "codeberg"
    }

    /// Takes the credentials of `config` as those to present.
    pub fn apply_config(&mut self, config: &ProviderConfig)
        ensures
            final(self).credentials@ == config@.credentials,
    {
        self.credentials = config.credentials.duplicate();
    }

    /// Whether `url` is taken for one of this host.
    pub fn can_handle(&self, url: &str) -> (handles: bool)
        ensures
            handles == codeberg_handles(url@),
    {
        contains(url, "codeberg.org")
    }

    /// The repository that `url` names, where the URL is one of this host and
    /// names one.
    pub fn parse_url(&self, url: &str) -> (parsed: Option<ParsedRepository>)
        ensures
            parsed_view(parsed) == codeberg_parse(url@),
    {
        if !self.can_handle(url) {
            return None;
        }
        let trimmed = trim_end_char(url, '/');
        if contains(trimmed.as_str(), "/commit/") {
            return self.parse_commit_url(trimmed.as_str());
        }
        if contains(trimmed.as_str(), "/src/branch/") {
            return self.parse_branch_url(trimmed.as_str());
        }
        self.parse_basic_url(trimmed.as_str())
    }

    /// The archives to try for `parsed`, in order.
    pub fn build_download_urls(&self, parsed: &ParsedRepository) -> (urls: Vec<String>)
        ensures
            url_texts(urls) == codeberg_downloads(parsed@),
    {
        let mut urls: Vec<String> = Vec::new();
        if let Some(reference) = &parsed.branch_or_commit {
            let mut url = "https://codeberg.org/".to_string();
            url.append(parsed.owner.as_str());
            url.append("/");
            url.append(parsed.repo.as_str());
            url.append("/archive/");
            url.append(reference.as_str());
            url.append(".tar.gz");
            urls.push(url);
        }
        proof {
            assert(url_texts(urls) =~= codeberg_downloads(parsed@));
        }
        urls
    }

    /// The name under which the project at `url` is shown.
    pub fn get_project_name(&self, url: &str) -> (name: String)
        ensures
            name@ == codeberg_project_name(url@),
    {
        match self.parse_url(url) {
            Some(parsed) => parsed.project_name,
            None => archive_name(url),
        }
    }

    /// The repository that a URL that names a commit names.
    pub fn parse_commit_url(&self, url: &str) -> (parsed: Option<ParsedRepository>)
        ensures
            parsed_view(parsed) == codeberg_commit(url@),
    {
        let parts = split(url, '/');
        match find_marker(&parts, "commit", 2) {
            Some(place) => Some(
                ParsedRepository::new(
                    part(&parts, place - 2),
                    part(&parts, place - 1),
                ).with_commit(part(&parts, place + 1)).with_host("codeberg.org".to_string()),
            ),
            None => None,
        }
    }

    /// The repository that a URL that names a branch names.
    pub fn parse_branch_url(&self, url: &str) -> (parsed: Option<ParsedRepository>)
        ensures
            parsed_view(parsed) == codeberg_branch(url@),
    {
        let parts = split(url, '/');
        match find_marker(&parts, "branch", 3) {
            Some(place) => Some(
                ParsedRepository::new(
                    part(&parts, place - 3),
                    part(&parts, place - 2),
                ).with_branch(part(&parts, place + 1)).with_host("codeberg.org".to_string()),
            ),
            None => None,
        }
    }

    /// The repository that a plain URL names.
    pub fn parse_basic_url(&self, url: &str) -> (parsed: Option<ParsedRepository>)
        ensures
            parsed_view(parsed) == codeberg_basic(url@),
    {
        let parts = split(url, '/');
        match position(&parts, "codeberg.org") {
            Some(place) => if parts.len() - place > 2 {
                Some(
                    ParsedRepository::new(part(&parts, place + 1), part(&parts, place + 2)).with_host(
                        "codeberg.org".to_string(),
                    ),
                )
            } else {
                None
            },
            None => None,
        }
    }
}

} // verus!
