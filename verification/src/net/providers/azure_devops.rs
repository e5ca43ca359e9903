//! Repositories on Azure DevOps.

use crate::net::traits::{
    last_piece, last_segment, parsed_view, part, stem, url_texts, ParsedRepository, ProviderConfig,
    RepositoryView,
};
use crate::string_map::StringMap;
use crate::text::{
    contains, cut_at, ends_with, index_of, is_infix, position, split, split_on, split_once,
    trim_end_char, trim_end_str, without_trailing,
};
use vstd::prelude::*;
use vstd::string::*;

verus! {

/// Whether a URL is one of Azure DevOps: it mentions `dev.azure.com`,
/// `visualstudio.com` or `_git/`.
pub open spec fn azure_handles(url: Seq<char>) -> bool {
    is_infix(url, "dev.azure.com"@) || is_infix(url, "visualstudio.com"@) || is_infix(
        url,
        "_git/"@,
    )
}

/// The repository that a plain URL names. The URL must have seven pieces
/// or more, one of them `_git`; its third piece is the host, its fifth the
/// project and its seventh the repository. On `dev.azure.com` the fourth
/// piece is the organisation; on `visualstudio.com` the organisation is
/// what stands before the first dot of the host. The owner is organisation
/// and project with a slash between them.
pub open spec fn azure_basic(url: Seq<char>) -> Option<RepositoryView> {
    let parts = split_on(url, '/');
    let well_formed = parts.len() >= 7 && index_of(parts, "_git"@) is Some;
    if is_infix(url, "dev.azure.com"@) {
        if well_formed {
            Some(RepositoryView::new(parts[3] + "/"@ + parts[4], parts[6]).with_host(parts[2]))
        } else {
            None
        }
    } else if is_infix(url, "visualstudio.com"@) {
        if well_formed {
            Some(
                RepositoryView::new(
                    split_on(parts[2], '.')[0] + "/"@ + parts[4],
                    parts[6],
                ).with_host(parts[2]),
            )
        } else {
            None
        }
    } else {
        None
    }
}

/// The repository that a URL with `?version=GB` names: what stands before
/// that mark is read as a plain URL, what stands after it is the branch.
pub open spec fn azure_branch(url: Seq<char>) -> Option<RepositoryView> {
    match cut_at(url, "?version=GB"@) {
        Some((base, branch)) => match azure_basic(base) {
            Some(repository) => Some(repository.with_branch(branch)),
            None => None,
        },
        None => None,
    }
}

/// The repository that a URL with `?version=GC` names: what stands before
/// that mark is read as a plain URL, what stands after it is the commit.
pub open spec fn azure_commit(url: Seq<char>) -> Option<RepositoryView> {
    match cut_at(url, "?version=GC"@) {
        Some((base, commit)) => match azure_basic(base) {
            Some(repository) => Some(repository.with_commit(commit)),
            None => None,
        },
        None => None,
    }
}

/// The repository that a URL names, if the URL is one of Azure DevOps: the
/// URL is read without its trailing slashes, as a branch URL if it holds
/// `?version=GB`, else as a commit URL if it holds `?version=GC`, else as
/// a plain one.
pub open spec fn azure_parse(url: Seq<char>) -> Option<RepositoryView> {
    let trimmed = without_trailing(url, '/');
    if !azure_handles(url) {
        None
    } else if is_infix(trimmed, "?version=GB"@) {
        azure_branch(trimmed)
    } else if is_infix(trimmed, "?version=GC"@) {
        azure_commit(trimmed)
    } else {
        azure_basic(trimmed)
    }
}

/// The archive to try for a repository: that of the reference it names, on
/// its host or on `dev.azure.com`, asked for as a commit or as a branch;
/// and none where it names no reference.
pub open spec fn azure_downloads(parsed: RepositoryView) -> Seq<Seq<char>> {
    let host = match parsed.host {
        Some(host) => host,
        None => "dev.azure.com"@,
    };
    let front = "https://"@ + host + "/"@ + parsed.owner + "/"@ + split_on(parsed.repo, '/')[0]
        + "/_apis/git/repositories/"@ + parsed.repo;
    match parsed.branch_or_commit {
        Some(reference) => if parsed.is_commit {
            seq![
                front + "/items?path=/&versionDescriptor.version="@ + reference
                    + "&$format=zip"@,
            ]
        } else {
            seq![
                front
                    + "/items?path=/&versionDescriptor.versionType=branch&versionDescriptor.version="@
                    + reference + "&$format=zip"@,
            ]
        },
        None => Seq::empty(),
    }
}

/// The name under which the project at `url` is shown.
pub open spec fn azure_project_name(url: Seq<char>) -> Seq<char> {
    match azure_parse(url) {
        Some(parsed) => parsed.project_name,
        None => stem(last_piece(url), seq![".zip"@]),
    }
}

/// Reads the URLs of Azure DevOps and names the archives of its
/// repositories.
pub struct AzureDevOpsProvider {
    pub credentials: StringMap,
}

impl Default for AzureDevOpsProvider {
    fn default() -> (provider: Self)
        ensures
            provider.credentials@ == Map::<Seq<char>, Seq<char>>::empty(),
    {
        AzureDevOpsProvider { credentials: StringMap::new() }
    }
}

impl AzureDevOpsProvider {
    /// A provider that presents no credentials.
    pub fn new() -> (provider: Self)
        ensures
            provider.credentials@ == Map::<Seq<char>, Seq<char>>::empty(),
    {
        AzureDevOpsProvider { credentials: StringMap::new() }
    }

    /// The name by which settings are addressed to this provider.
    pub fn name(&self) -> (name: &'static str)
        ensures
            name@ == "azure_devops"@,
    {
        "azure_devops"
    }

    /// Takes the credentials of `config` as those to present.
    pub fn apply_config(&mut self, config: &ProviderConfig)
        ensures
            final(self).credentials@ == config@.credentials,
    {
        self.credentials = config.credentials.duplicate();
    }

    /// Whether `url` is taken for one of this host.
    pub fn can_handle(&self, url: &str) -> (handles: bool)
        ensures
            handles == azure_handles(url@),
    {
        contains(url, "dev.azure.com") || contains(url, "visualstudio.com") || contains(
            url,
            "_git/",
        )
    }

    /// The repository that `url` names, where the URL is one of this host and
    /// names one.
    pub fn parse_url(&self, url: &str) -> (parsed: Option<ParsedRepository>)
        ensures
            parsed_view(parsed) == azure_parse(url@),
    {
        if !self.can_handle(url) {
            return None;
        }
        let trimmed = trim_end_char(url, '/');
        if contains(trimmed.as_str(), "?version=GB") {
            return self.parse_branch_url(trimmed.as_str());
        }
        if contains(trimmed.as_str(), "?version=GC") {
            return self.parse_commit_url(trimmed.as_str());
        }
        self.parse_basic_url(trimmed.as_str())
    }

    /// The archives to try for `parsed`, in order.
    pub fn build_download_urls(&self, parsed: &ParsedRepository) -> (urls: Vec<String>)
        ensures
            url_texts(urls) == azure_downloads(parsed@),
    {
        let mut urls: Vec<String> = Vec::new();
        if let Some(reference) = &parsed.branch_or_commit {
            let pieces = split(parsed.repo.as_str(), '/');
            let mut url = "https://".to_string();
            match &parsed.host {
                Some(host) => url.append(host.as_str()),
                None => url.append("dev.azure.com"),
            }
            url.append("/");
            url.append(parsed.owner.as_str());
            url.append("/");
            url.append(part(&pieces, 0).as_str());
            url.append("/_apis/git/repositories/");
            url.append(parsed.repo.as_str());
            if parsed.is_commit {
                url.append("/items?path=/&versionDescriptor.version=");
            } else {
                url.append(
                    "/items?path=/&versionDescriptor.versionType=branch&versionDescriptor.version=",
                );
            }
            url.append(reference.as_str());
            url.append("&$format=zip");
            urls.push(url);
        }
        proof {
            assert(url_texts(urls) =~= azure_downloads(parsed@));
        }
        urls
    }

    /// The name under which the project at `url` is shown.
    pub fn get_project_name(&self, url: &str) -> (name: String)
        ensures
            name@ == azure_project_name(url@),
    {
        match self.parse_url(url) {
            Some(parsed) => parsed.project_name,
            None => {
                let piece = last_segment(url);
                proof {
                    let endings = seq![".zip"@];
                    assert(endings.drop_first() =~= Seq::<Seq<char>>::empty());
                    reveal_with_fuel(stem, 2);
                }
                if ends_with(piece.as_str(), ".zip") {
                    trim_end_str(piece.as_str(), ".zip")
                } else {
                    piece
                }
            },
        }
    }

    /// The repository that a URL that names a commit names.
    pub fn parse_commit_url(&self, url: &str) -> (parsed: Option<ParsedRepository>)
        ensures
            parsed_view(parsed) == azure_commit(url@),
    {
        match split_once(url, "?version=GC") {
            Some((base, commit)) => match self.parse_basic_url(base.as_str()) {
                Some(repository) => Some(repository.with_commit(commit)),
                None => None,
            },
            None => None,
        }
    }

    /// The repository that a URL that names a branch names.
    pub fn parse_branch_url(&self, url: &str) -> (parsed: Option<ParsedRepository>)
        ensures
            parsed_view(parsed) == azure_branch(url@),
    {
        match split_once(url, "?version=GB") {
            Some((base, branch)) => match self.parse_basic_url(base.as_str()) {
                Some(repository) => Some(repository.with_branch(branch)),
                None => None,
            },
            None => None,
        }
    }

    /// The repository that a plain URL names.
    pub fn parse_basic_url(&self, url: &str) -> (parsed: Option<ParsedRepository>)
        ensures
            parsed_view(parsed) == azure_basic(url@),
    {
        let on_azure = contains(url, "dev.azure.com");
        if !on_azure && !contains(url, "visualstudio.com") {
            return None;
        }
        let parts = split(url, '/');
        if parts.len() < 7 || position(&parts, "_git").is_none() {
            return None;
        }
        let organisation = if on_azure {
            part(&parts, 3)
        } else {
            let labels = split(parts[2].as_str(), '.');
            part(&labels, 0)
        };
        let mut owner = organisation;
        owner.append("/");
        owner.append(parts[4].as_str());
        Some(ParsedRepository::new(owner, part(&parts, 6)).with_host(part(&parts, 2)))
    }
}

} // verus!
