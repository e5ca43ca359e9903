//! Repositories on bitbucket.org.

use crate::net::traits::{
    archive_name, archive_stem, find_marker, marker_place, parsed_view, part, url_texts,
    ParsedRepository, ProviderConfig, RepositoryView,
};
use crate::string_map::StringMap;
use crate::text::{
    contains, index_of, is_infix, position, split, split_on, trim_end_char, without_trailing,
};
use vstd::prelude::*;
use vstd::string::*;

verus! {

/// Whether a URL is one of this host: it mentions `bitbucket.org`.
pub open spec fn bitbucket_handles(url: Seq<char>) -> bool {
    is_infix(url, "bitbucket.org"@)
}

/// The repository that a URL with a `commits` piece names: the two
/// pieces before `commits` are owner and repository, the piece after it
/// is the commit.
pub open spec fn bitbucket_commit(url: Seq<char>) -> Option<RepositoryView> {
    let parts = split_on(url, '/');
    match marker_place(parts, "commits"@, 2) {
        Some(place) => Some(
            RepositoryView::new(parts[place - 2], parts[place - 1]).with_commit(
                parts[place + 1],
            ).with_host("bitbucket.org"@),
        ),
        None => None,
    }
}

/// The repository that a URL with a `branch` piece names: owner and
/// repository stand 2 and 1 pieces before `branch`, the piece after it
/// is the branch.
pub open spec fn bitbucket_branch(url: Seq<char>) -> Option<RepositoryView> {
    let parts = split_on(url, '/');
    match marker_place(parts, "branch"@, 2) {
        Some(place) => Some(
            RepositoryView::new(parts[place - 2], parts[place - 1]).with_branch(
                parts[place + 1],
            ).with_host("bitbucket.org"@),
        ),
        None => None,
    }
}

/// The repository that a plain URL names: the two pieces after the piece
/// `bitbucket.org` are owner and repository.
pub open spec fn bitbucket_basic(url: Seq<char>) -> Option<RepositoryView> {
    let parts = split_on(url, '/');
    match index_of(parts, "bitbucket.org"@) {
        Some(place) => if place + 2 < parts.len() {
            Some(RepositoryView::new(parts[place + 1], parts[place + 2]).with_host("bitbucket.org"@))
        } else {
            None
        },
        None => None,
    }
}

/// The repository that a URL names, if the URL is one of this host: the
/// URL is read without its trailing slashes, as a commit URL if it holds
/// `/commits/`, else as a branch URL if it holds `/branch/`, else
/// as a plain one.
pub open spec fn bitbucket_parse(url: Seq<char>) -> Option<RepositoryView> {
    let trimmed = without_trailing(url, '/');
    if !bitbucket_handles(url) {
        None
    } else if is_infix(trimmed, "/commits/"@) {
        bitbucket_commit(trimmed)
    } else if is_infix(trimmed, "/branch/"@) {
        bitbucket_branch(trimmed)
    } else {
        bitbucket_basic(trimmed)
    }
}

/// The archive to try for a repository: that of the reference it names,
/// and none where it names no reference.
pub open spec fn bitbucket_downloads(parsed: RepositoryView) -> Seq<Seq<char>> {
    match parsed.branch_or_commit {
        Some(reference) => seq![
            "https://bitbucket.org/"@ + parsed.owner + "/"@ + parsed.repo + "/get/"@ + reference + ".tar.gz"@,
        ],
        None => Seq::empty(),
    }
}

/// The name under which the project at `url` is shown.
pub open spec fn bitbucket_project_name(url: Seq<char>) -> Seq<char> {
    match bitbucket_parse(url) {
        Some(parsed) => parsed.project_name,
        None => archive_stem(url),
    }
}

/// Reads the URLs of bitbucket.org and names the archives of its
/// repositories.
pub struct BitbucketProvider {
    pub credentials: StringMap,
}

impl Default for BitbucketProvider {
    fn default() -> (provider: Self)
        ensures
            provider.credentials@ == Map::<Seq<char>, Seq<char>>::empty(),
    {
        BitbucketProvider { credentials: StringMap::new() }
    }
}

impl BitbucketProvider {
    /// A provider that presents no credentials.
    pub fn new() -> (provider: Self)
        ensures
            provider.credentials@ == Map::<Seq<char>, Seq<char>>::empty(),
    {
        BitbucketProvider { credentials: StringMap::new() }
    }

    /// The name by which settings are addressed to this provider.
    pub fn name(&self) -> (name: &'static str)
        ensures
            name@ == "bitbucket"@,
    {
        "bitbucket"
    }

    /// Takes the credentials of `config` as those to present.
    pub fn apply_config(&mut self, config: &ProviderConfig)
        ensures
            final(self).credentials@ == config@.credentials,
    {
        self.credentials = config.credentials.duplicate();
    }

    /// Whether `url` is taken for one of this host.
    pub fn can_handle(&self, url: &str) -> (handles: bool)
        ensures
            handles == bitbucket_handles(url@),
    {
        contains(url, "bitbucket.org")
    }

    /// The repository that `url` names, where the URL is one of this host and
    /// names one.
    pub fn parse_url(&self, url: &str) -> (parsed: Option<ParsedRepository>)
        ensures
            parsed_view(parsed) == bitbucket_parse(url@),
    {
        if !self.can_handle(url) {
            return None;
        }
        let trimmed = trim_end_char(url, '/');
        if contains(trimmed.as_str(), "/commits/") {
            return self.parse_commit_url(trimmed.as_str());
        }
        if contains(trimmed.as_str(), "/branch/") {
            return self.parse_branch_url(trimmed.as_str());
        }
        self.parse_basic_url(trimmed.as_str())
    }

    /// The archives to try for `parsed`, in order.
    pub fn build_download_urls(&self, parsed: &ParsedRepository) -> (urls: Vec<String>)
        ensures
            url_texts(urls) == bitbucket_downloads(parsed@),
    {
        let mut urls: Vec<String> = Vec::new();
        if let Some(reference) = &parsed.branch_or_commit {
            let mut url = "https://bitbucket.org/".to_string();
            url.append(parsed.owner.as_str());
            url.append("/");
            url.append(parsed.repo.as_str());
            url.append("/get/");
            url.append(reference.as_str());
            url.append(".tar.gz");
            urls.push(url);
        }
        proof {
            assert(url_texts(urls) =~= bitbucket_downloads(parsed@));
        }
        urls
    }

    /// The name under which the project at `url` is shown.
    pub fn get_project_name(&self, url: &str) -> (name: String)
        ensures
            name@ == bitbucket_project_name(url@),
    {
        match self.parse_url(url) {
            Some(parsed) => parsed.project_name,
            None => archive_name(url),
        }
    }

    /// The repository that a URL that names a commit names.
    pub fn parse_commit_url(&self, url: &str) -> (parsed: Option<ParsedRepository>)
        ensures
            parsed_view(parsed) == bitbucket_commit(url@),
    {
        let parts = split(url, '/');
        match find_marker(&parts, "commits", 2) {
            Some(place) => Some(
                ParsedRepository::new(
                    part(&parts, place - 2),
                    part(&parts, place - 1),
                ).with_commit(part(&parts, place + 1)).with_host("bitbucket.org".to_string()),
            ),
            None => None,
        }
    }

    /// The repository that a URL that names a branch names.
    pub fn parse_branch_url(&self, url: &str) -> (parsed: Option<ParsedRepository>)
        ensures
            parsed_view(parsed) == bitbucket_branch(url@),
    {
        let parts = split(url, '/');
        match find_marker(&parts, "branch", 2) {
            Some(place) => Some(
                ParsedRepository::new(
                    part(&parts, place - 2),
                    part(&parts, place - 1),
                ).with_branch(part(&parts, place + 1)).with_host("bitbucket.org".to_string()),
            ),
            None => None,
        }
    }

    /// The repository that a plain URL names.
    pub fn parse_basic_url(&self, url: &str) -> (parsed: Option<ParsedRepository>)
        ensures
            parsed_view(parsed) == bitbucket_basic(url@),
    {
        let parts = split(url, '/');
        match position(&parts, "bitbucket.org") {
            Some(place) => if parts.len() - place > 2 {
                Some(
                    ParsedRepository::new(part(&parts, place + 1), part(&parts, place + 2)).with_host(
                        "bitbucket.org".to_string(),
                    ),
                )
            } else {
                None
            },
            None => None,
        }
    }
}

} // verus!
