//! Projects on sourceforge.net.

use crate::net::traits::{
    archive_name, archive_stem, find_marker, marker_place, parsed_view, part, url_texts,
    ParsedRepository, ProviderConfig, RepositoryView,
};
use crate::string_map::StringMap;
use crate::text::{
    contains, index_of, is_infix, position, split, split_on, trim_end_char, without_trailing,
};
use vstd::prelude::*;
use vstd::string::*;

verus! {

/// Whether a URL is one of SourceForge: it mentions `sourceforge.net` or
/// `sf.net`.
pub open spec fn sourceforge_handles(url: Seq<char>) -> bool {
    is_infix(url, "sourceforge.net"@) || is_infix(url, "sf.net"@)
}

/// The project that a URL with a `ci` piece names: the piece before `ci`,
/// which must have three pieces or more before it, is the project, and the
/// piece after it is the commit.
pub open spec fn sourceforge_commit(url: Seq<char>) -> Option<RepositoryView> {
    let parts = split_on(url, '/');
    match marker_place(parts, "ci"@, 3) {
        Some(place) => Some(
            RepositoryView::new("sourceforge"@, parts[place - 1]).with_commit(
                parts[place + 1],
            ).with_host("sourceforge.net"@),
        ),
        None => None,
    }
}

/// The project that a URL with a `tree` and a `ci` piece names: the piece
/// after `tree` is the branch, and the piece before `ci`, which must have
/// three pieces or more before it, is the project.
pub open spec fn sourceforge_tree(url: Seq<char>) -> Option<RepositoryView> {
    let parts = split_on(url, '/');
    match (marker_place(parts, "tree"@, 0), index_of(parts, "ci"@)) {
        (Some(tree), Some(ci)) => if ci >= 3 {
            Some(
                RepositoryView::new("sourceforge"@, parts[ci - 1]).with_branch(
                    parts[tree + 1],
                ).with_host("sourceforge.net"@),
            )
        } else {
            None
        },
        _ => None,
    }
}

/// The project that a plain URL names: of a URL that holds `/p/` and
/// `/code`, the piece after the piece `p` is the project.
pub open spec fn sourceforge_basic(url: Seq<char>) -> Option<RepositoryView> {
    let parts = split_on(url, '/');
    if is_infix(url, "/p/"@) && is_infix(url, "/code"@) {
        match marker_place(parts, "p"@, 0) {
            Some(place) => Some(
                RepositoryView::new("sourceforge"@, parts[place + 1]).with_host(
                    "sourceforge.net"@,
                ),
            ),
            None => None,
        }
    } else {
        None
    }
}

/// The project that a URL names, if the URL is one of SourceForge: the URL
/// is read without its trailing slashes, as a tree URL if it holds `/ci/`
/// and `/tree/`, else as a commit URL if it holds `/ci/`, else as a plain
/// one.
pub open spec fn sourceforge_parse(url: Seq<char>) -> Option<RepositoryView> {
    let trimmed = without_trailing(url, '/');
    if !sourceforge_handles(url) {
        None
    } else if is_infix(trimmed, "/ci/"@) && is_infix(trimmed, "/tree/"@) {
        sourceforge_tree(trimmed)
    } else if is_infix(trimmed, "/ci/"@) {
        sourceforge_commit(trimmed)
    } else {
        sourceforge_basic(trimmed)
    }
}

/// The archive to try for a project: the tarball of the reference it
/// names, and none where it names no reference.
pub open spec fn sourceforge_downloads(parsed: RepositoryView) -> Seq<Seq<char>> {
    match parsed.branch_or_commit {
        Some(reference) => seq![
            "https://sourceforge.net/p/"@ + parsed.repo + "/code/ci/"@ + reference + "/tarball"@,
        ],
        None => Seq::empty(),
    }
}

/// The name under which the project at `url` is shown.
pub open spec fn sourceforge_project_name(url: Seq<char>) -> Seq<char> {
    match sourceforge_parse(url) {
        Some(parsed) => parsed.project_name,
        None => archive_stem(url),
    }
}

/// Reads the URLs of sourceforge.net and names the archives of its
/// projects.
pub struct SourceForgeProvider {
    pub credentials: StringMap,
}

impl Default for SourceForgeProvider {
    fn default() -> (provider: Self)
        ensures
            provider.credentials@ == Map::<Seq<char>, Seq<char>>::empty(),
    {
        SourceForgeProvider { credentials: StringMap::new() }
    }
}

impl SourceForgeProvider {
    /// A provider that presents no credentials.
    pub fn new() -> (provider: Self)
        ensures
            provider.credentials@ == Map::<Seq<char>, Seq<char>>::empty(),
    {
        SourceForgeProvider { credentials: StringMap::new() }
    }

    /// The name by which settings are addressed to this provider.
    pub fn name(&self) -> (name: &'static str)
        ensures
            name@ == "sourceforge"@,
    {
        "sourceforge"
    }

    /// Takes the credentials of `config` as those to present.
    pub fn apply_config(&mut self, config: &ProviderConfig)
        ensures
            final(self).credentials@ == config@.credentials,
    {
        self.credentials = config.credentials.duplicate();
    }

    /// Whether `url` is taken for one of this host.
    pub fn can_handle(&self, url: &str) -> (handles: bool)
        ensures
            handles == sourceforge_handles(url@),
    {
        contains(url, "sourceforge.net") || contains(url, "sf.net")
    }

    /// The repository that `url` names, where the URL is one of this host and
    /// names one.
    pub fn parse_url(&self, url: &str) -> (parsed: Option<ParsedRepository>)
        ensures
            parsed_view(parsed) == sourceforge_parse(url@),
    {
        if !self.can_handle(url) {
            return None;
        }
        let trimmed = trim_end_char(url, '/');
        if contains(trimmed.as_str(), "/ci/") && contains(trimmed.as_str(), "/tree/") {
            return self.parse_tree_url(trimmed.as_str());
        }
        if contains(trimmed.as_str(), "/ci/") {
            return self.parse_commit_url(trimmed.as_str());
        }
        self.parse_basic_url(trimmed.as_str())
    }

    /// The archives to try for `parsed`, in order.
    pub fn build_download_urls(&self, parsed: &ParsedRepository) -> (urls: Vec<String>)
        ensures
            url_texts(urls) == sourceforge_downloads(parsed@),
    {
        let mut urls: Vec<String> = Vec::new();
        if let Some(reference) = &parsed.branch_or_commit {
            let mut url = "https://sourceforge.net/p/".to_string();
            url.append(parsed.repo.as_str());
            url.append("/code/ci/");
            url.append(reference.as_str());
            url.append("/tarball");
            urls.push(url);
        }
        proof {
            assert(url_texts(urls) =~= sourceforge_downloads(parsed@));
        }
        urls
    }

    /// The name under which the project at `url` is shown.
    pub fn get_project_name(&self, url: &str) -> (name: String)
        ensures
            name@ == sourceforge_project_name(url@),
    {
        match self.parse_url(url) {
            Some(parsed) => parsed.project_name,
            None => archive_name(url),
        }
    }

    /// The repository that a URL that names a commit names.
    pub fn parse_commit_url(&self, url: &str) -> (parsed: Option<ParsedRepository>)
        ensures
            parsed_view(parsed) == sourceforge_commit(url@),
    {
        let parts = split(url, '/');
        match find_marker(&parts, "ci", 3) {
            Some(place) => Some(
                ParsedRepository::new("sourceforge".to_string(), part(&parts, place - 1)).with_commit(
                    part(&parts, place + 1),
                ).with_host("sourceforge.net".to_string()),
            ),
            None => None,
        }
    }

    /// The repository that a URL with a `tree` piece names.
    pub fn parse_tree_url(&self, url: &str) -> (parsed: Option<ParsedRepository>)
        ensures
            parsed_view(parsed) == sourceforge_tree(url@),
    {
        let parts = split(url, '/');
        match find_marker(&parts, "tree", 0) {
            Some(tree) => match position(&parts, "ci") {
                Some(ci) => if ci >= 3 {
                    Some(
                        ParsedRepository::new(
                            "sourceforge".to_string(),
                            part(&parts, ci - 1),
                        ).with_branch(part(&parts, tree + 1)).with_host(
                            "sourceforge.net".to_string(),
                        ),
                    )
                } else {
                    None
                },
                None => None,
            },
            None => None,
        }
    }

    /// The repository that a plain URL names.
    pub fn parse_basic_url(&self, url: &str) -> (parsed: Option<ParsedRepository>)
        ensures
            parsed_view(parsed) == sourceforge_basic(url@),
    {
        if contains(url, "/p/") && contains(url, "/code") {
            let parts = split(url, '/');
            match find_marker(&parts, "p", 0) {
                Some(place) => Some(
                    ParsedRepository::new(
                        "sourceforge".to_string(),
                        part(&parts, place + 1),
                    ).with_host("sourceforge.net".to_string()),
                ),
                None => None,
            }
        } else {
            None
        }
    }
}

} // verus!
