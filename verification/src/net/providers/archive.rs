//! Direct links to archives.

use crate::net::traits::{
    last_piece, last_segment, parsed_view, stem, ParsedRepository, ProviderConfig, RepositoryView,
};
use crate::string_map::StringMap;
use crate::text::{contains, cut_at, ends_with, is_infix, is_suffix, split_once, trim_end_str};
use vstd::prelude::*;
use vstd::string::*;

verus! {

/// Whether a URL points at an archive: it ends in `.tar.gz`, `.tgz`,
/// `.tar.bz2`, `.tar.xz` or `.zip`, or holds `/archive/`, `/tarball/` or
/// `/zipball/`.
pub open spec fn archive_handles(url: Seq<char>) -> bool {
    ||| is_suffix(url, ".tar.gz"@)
    ||| is_suffix(url, ".tgz"@)
    ||| is_suffix(url, ".tar.bz2"@)
    ||| is_suffix(url, ".tar.xz"@)
    ||| is_suffix(url, ".zip"@)
    ||| is_infix(url, "/archive/"@)
    ||| is_infix(url, "/tarball/"@)
    ||| is_infix(url, "/zipball/"@)
}

/// The endings that mark a file as an archive.
pub open spec fn archive_endings() -> Seq<Seq<char>> {
    seq![".tar.gz"@, ".tgz"@, ".tar.bz2"@, ".tar.xz"@, ".zip"@]
}

/// The name of an archive file without its ending.
pub open spec fn archive_file_stem(filename: Seq<char>) -> Seq<char> {
    stem(filename, archive_endings())
}

/// The host of a URL: what stands between the first `://` and the next
/// slash, or the end; and `unknown` where the URL has no `://`.
pub open spec fn url_host(url: Seq<char>) -> Seq<char> {
    match cut_at(url, "://"@) {
        Some((_, after)) => match cut_at(after, "/"@) {
            Some((host, _)) => host,
            None => after,
        },
        None => "unknown"@,
    }
}

/// What a link to an archive names: a repository of the owner `archive`,
/// called after the file without its ending, on the host of the link.
pub open spec fn archive_parse(url: Seq<char>) -> Option<RepositoryView> {
    if archive_handles(url) {
        Some(
            RepositoryView::new("archive"@, archive_file_stem(last_piece(url))).with_host(
                url_host(url),
            ),
        )
    } else {
        None
    }
}

/// Takes direct links to archives.
pub struct ArchiveProvider {
    pub credentials: StringMap,
}

impl Default for ArchiveProvider {
    fn default() -> (provider: Self)
        ensures
            provider.credentials@ == Map::<Seq<char>, Seq<char>>::empty(),
    {
        ArchiveProvider { credentials: StringMap::new() }
    }
}

impl ArchiveProvider {
    /// A provider that presents no credentials.
    pub fn new() -> (provider: Self)
        ensures
            provider.credentials@ == Map::<Seq<char>, Seq<char>>::empty(),
    {
        ArchiveProvider { credentials: StringMap::new() }
    }

    /// The name by which settings are addressed to this provider.
    pub fn name(&self) -> (name: &'static str)
        ensures
            name@ == "archive"@,
    {
        "archive"
    }

    /// Takes the credentials of `config` as those to present.
    pub fn apply_config(&mut self, config: &ProviderConfig)
        ensures
            final(self).credentials@ == config@.credentials,
    {
        self.credentials = config.credentials.duplicate();
    }

    /// Whether `url` is taken for one of this host.
    pub fn can_handle(&self, url: &str) -> (handles: bool)
        ensures
            handles == archive_handles(url@),
    {
        ends_with(url, ".tar.gz") || ends_with(url, ".tgz") || ends_with(url, ".tar.bz2")
            || ends_with(url, ".tar.xz") || ends_with(url, ".zip") || contains(url, "/archive/")
            || contains(url, "/tarball/") || contains(url, "/zipball/")
    }

    /// The repository that `url` names, where the URL is one of this host and
    /// names one.
    pub fn parse_url(&self, url: &str) -> (parsed: Option<ParsedRepository>)
        ensures
            parsed_view(parsed) == archive_parse(url@),
    {
        if !self.can_handle(url) {
            return None;
        }
        let filename = last_segment(url);
        let name = self.extract_name_from_filename(filename.as_str());
        Some(
            ParsedRepository::new("archive".to_string(), name).with_host(
                self.extract_host_from_url(url),
            ),
        )
    }

    /// A link to an archive is its own download: no other URL is built.
    pub fn build_download_urls(&self, _parsed: &ParsedRepository) -> (urls: Vec<String>)
        ensures
            urls@.len() == 0,
    {
        Vec::new()
    }

    /// The name under which the project at `url` is shown.
    pub fn get_project_name(&self, url: &str) -> (name: String)
        ensures
            name@ == archive_file_stem(last_piece(url@)),
    {
        let filename = last_segment(url);
        self.extract_name_from_filename(filename.as_str())
    }

    /// The name of an archive file without its ending.
    pub fn extract_name_from_filename(&self, filename: &str) -> (name: String)
        ensures
            name@ == archive_file_stem(filename@),
    {
        proof {
            let e0 = archive_endings();
            let e1 = e0.drop_first();
            let e2 = e1.drop_first();
            let e3 = e2.drop_first();
            let e4 = e3.drop_first();
            assert(e1 =~= seq![".tgz"@, ".tar.bz2"@, ".tar.xz"@, ".zip"@]);
            assert(e2 =~= seq![".tar.bz2"@, ".tar.xz"@, ".zip"@]);
            assert(e3 =~= seq![".tar.xz"@, ".zip"@]);
            assert(e4 =~= seq![".zip"@]);
            assert(e4.drop_first() =~= Seq::<Seq<char>>::empty());
            reveal_with_fuel(stem, 6);
        }
        if ends_with(filename, ".tar.gz") {
            trim_end_str(filename, ".tar.gz")
        } else if ends_with(filename, ".tgz") {
            trim_end_str(filename, ".tgz")
        } else if ends_with(filename, ".tar.bz2") {
            trim_end_str(filename, ".tar.bz2")
        } else if ends_with(filename, ".tar.xz") {
            trim_end_str(filename, ".tar.xz")
        } else if ends_with(filename, ".zip") {
            trim_end_str(filename, ".zip")
        } else {
            filename.to_string()
        }
    }

    /// The host of `url`.
    pub fn extract_host_from_url(&self, url: &str) -> (host: String)
        ensures
            host@ == url_host(url@),
    {
        match split_once(url, "://") {
            Some((_, after)) => match split_once(after.as_str(), "/") {
                Some((host, _)) => host,
                None => after,
            },
            None => "unknown".to_string(),
        }
    }
}

} // verus!
