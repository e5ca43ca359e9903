//! The plan by which a repository reference becomes a list of archives to
//! try, and the order in which they are tried.

use crate::error::AnalysisError;
use crate::net::provider::{Provider, ProviderKind};
use crate::net::traits::{url_texts, ParsedRepository, RepositoryView};
use crate::text::{ends_with, is_suffix, str_eq};
use vstd::prelude::*;
use vstd::string::*;

verus! {

/// A URL that is downloaded as it stands: one that ends in `.tar.gz` or
/// `.tgz`.
pub open spec fn is_direct_archive(url: Seq<char>) -> bool {
    is_suffix(url, ".tar.gz"@) || is_suffix(url, ".tgz"@)
}

/// Whether `url` is downloaded as it stands.
pub fn direct_archive(url: &str) -> (direct: bool)
    ensures
        direct == is_direct_archive(url@),
{
    ends_with(url, ".tar.gz") || ends_with(url, ".tgz")
}

/// The place of the first of `kinds` that finds a repository in `url`,
/// looking from place `from` on.
pub open spec fn first_resolver_from(kinds: Seq<ProviderKind>, url: Seq<char>, from: int) -> Option<
    int,
>
    decreases kinds.len() - from,
{
    if from < 0 || from >= kinds.len() {
        None
    } else if kinds[from].handles(url) && kinds[from].parse(url) is Some {
        Some(from)
    } else {
        first_resolver_from(kinds, url, from + 1)
    }
}

/// The place of the first of `kinds` that takes `url` for its own and finds
/// a repository in it.
pub open spec fn first_resolver(kinds: Seq<ProviderKind>, url: Seq<char>) -> Option<int> {
    first_resolver_from(kinds, url, 0)
}

/// The branches that are tried where a URL names none.
pub open spec fn usual_branches() -> Seq<Seq<char>> {
    seq!["main"@, "master"@, "develop"@, "dev"@]
}

/// `names` without every occurrence of `name`.
pub open spec fn without(names: Seq<Seq<char>>, name: Seq<char>) -> Seq<Seq<char>>
    decreases names.len(),
{
    if names.len() == 0 {
        names
    } else if names.last() == name {
        without(names.drop_last(), name)
    } else {
        without(names.drop_last(), name).push(names.last())
    }
}

/// The branches to try for a repository of which no branch is named: the
/// default branch, where the service told it, and then the usual ones
/// without it.
pub open spec fn branch_candidates(discovered: Option<Seq<char>>) -> Seq<Seq<char>> {
    match discovered {
        Some(branch) => seq![branch] + without(usual_branches(), branch),
        None => usual_branches(),
    }
}

/// The same repository with `branch` as its reference.
pub open spec fn at_branch(parsed: RepositoryView, branch: Seq<char>) -> RepositoryView {
    RepositoryView { branch_or_commit: Some(branch), ..parsed }
}

/// The archives to try for each of `branches`, in order.
pub open spec fn branch_downloads(
    kind: ProviderKind,
    parsed: RepositoryView,
    branches: Seq<Seq<char>>,
) -> Seq<Seq<char>>
    decreases branches.len(),
{
    if branches.len() == 0 {
        Seq::empty()
    } else {
        branch_downloads(kind, parsed, branches.drop_last()) + kind.downloads(
            at_branch(parsed, branches.last()),
        )
    }
}

/// The archives to try for a repository, in order: those of the reference
/// that it names; and where it names none, those of each branch that is a
/// candidate.
pub open spec fn download_candidates(
    kind: ProviderKind,
    parsed: RepositoryView,
    discovered: Option<Seq<char>>,
) -> Seq<Seq<char>> {
    if kind.downloads(parsed).len() == 0 && parsed.branch_or_commit is None {
        branch_downloads(kind, parsed, branch_candidates(discovered))
    } else {
        kind.downloads(parsed)
    }
}

/// What is left of a sequence without repetitions has no repetitions, and
/// holds nothing but what the sequence held, and not the name taken out.
proof fn lemma_without_distinct(names: Seq<Seq<char>>, name: Seq<char>)
    requires
        names.no_duplicates(),
    ensures
        without(names, name).no_duplicates(),
        forall|i: int|
            0 <= i < without(names, name).len() ==> names.contains(
                #[trigger] without(names, name)[i],
            ) && without(names, name)[i] != name,
    decreases names.len(),
{
    if names.len() > 0 {
        let front = names.drop_last();
        lemma_without_distinct(front, name);
        let kept = without(front, name);
        assert forall|i: int| 0 <= i < kept.len() implies names.contains(#[trigger] kept[i])
            && kept[i] != names.last() by {
            assert(front.contains(kept[i]));
            let at = choose|at: int| 0 <= at < front.len() && front[at] == kept[i];
            assert(names[at] == kept[i]);
        }
        if names.last() != name {
            assert(names[names.len() - 1] == names.last());
        }
    }
}

/// No branch is a candidate twice.
pub proof fn law_branch_candidates_distinct(discovered: Option<Seq<char>>)
    ensures
        branch_candidates(discovered).no_duplicates(),
{
    reveal_strlit("main");
    reveal_strlit("master");
    reveal_strlit("develop");
    reveal_strlit("dev");
    let usual = usual_branches();
    assert(usual.no_duplicates()) by {
        assert(usual[0].len() == 4);
        assert(usual[1].len() == 6);
        assert(usual[2].len() == 7);
        assert(usual[3].len() == 3);
    }
    match discovered {
        Some(branch) => {
            let rest = without(usual, branch);
            lemma_without_distinct(usual, branch);
            assert forall|i: int, j: int|
                0 <= i < branch_candidates(discovered).len() && 0 <= j < branch_candidates(
                    discovered,
                ).len() && i != j implies branch_candidates(discovered)[i] != branch_candidates(
                discovered,
            )[j] by {
                let all = branch_candidates(discovered);
                if i > 0 {
                    assert(all[i] == rest[i - 1]);
                }
                if j > 0 {
                    assert(all[j] == rest[j - 1]);
                }
            }
        },
        None => {},
    }
}

/// The branches to try for a repository of which no branch is named.
pub fn branches_to_try(discovered: Option<&str>) -> (branches: Vec<String>)
    ensures
        url_texts(branches) == branch_candidates(
            match discovered {
                Some(branch) => Some(branch@),
                None => None,
            },
        ),
{
    let mut branches: Vec<String> = Vec::new();
    match discovered {
        Some(branch) => {
            let ghost all = usual_branches();
            let ghost three = all.drop_last();
            let ghost two = three.drop_last();
            let ghost one = two.drop_last();
            proof {
                assert(three =~= seq!["main"@, "master"@, "develop"@]);
                assert(two =~= seq!["main"@, "master"@]);
                assert(one =~= seq!["main"@]);
                assert(one.drop_last() =~= Seq::<Seq<char>>::empty());
            }
            branches.push(branch.to_string());
            assert(url_texts(branches) =~= seq![branch@] + without(one.drop_last(), branch@));
            if !str_eq("main", branch) {
                branches.push("main".to_string());
            }
            assert(url_texts(branches) =~= seq![branch@] + without(one, branch@));
            if !str_eq("master", branch) {
                branches.push("master".to_string());
            }
            assert(url_texts(branches) =~= seq![branch@] + without(two, branch@));
            if !str_eq("develop", branch) {
                branches.push("develop".to_string());
            }
            assert(url_texts(branches) =~= seq![branch@] + without(three, branch@));
            if !str_eq("dev", branch) {
                branches.push("dev".to_string());
            }
            assert(url_texts(branches) =~= seq![branch@] + without(all, branch@));
        },
        None => {
            branches.push("main".to_string());
            branches.push("master".to_string());
            branches.push("develop".to_string());
            branches.push("dev".to_string());
            proof {
                assert(url_texts(branches) =~= usual_branches());
            }
        },
    }
    branches
}

/// The archives to try for a repository, in order.
pub fn candidate_urls(provider: &Provider, parsed: &ParsedRepository, discovered: Option<&str>) -> (urls:
    Vec<String>)
    ensures
        url_texts(urls) == download_candidates(
            provider.kind(),
            parsed@,
            match discovered {
                Some(branch) => Some(branch@),
                None => None,
            },
        ),
{
    let direct = provider.build_download_urls(parsed);
    if direct.len() > 0 || parsed.branch_or_commit.is_some() {
        return direct;
    }
    let branches = branches_to_try(discovered);
    let ghost names = url_texts(branches);
    let mut urls: Vec<String> = Vec::new();
    let mut i: usize = 0;
    proof {
        assert(names.take(0) =~= Seq::<Seq<char>>::empty());
        assert(url_texts(urls) =~= Seq::<Seq<char>>::empty());
    }
    while i < branches.len()
        invariant
            i <= branches@.len(),
            names == url_texts(branches),
            url_texts(urls) == branch_downloads(provider.kind(), parsed@, names.take(i as int)),
        decreases branches@.len() - i,
    {
        let mut at = parsed.duplicate();
        at.branch_or_commit = Some(branches[i].clone());
        let mut more = provider.build_download_urls(&at);
        let ghost before = url_texts(urls);
        let ghost added = url_texts(more);
        proof {
            assert(names.take(i + 1).drop_last() =~= names.take(i as int));
            assert(at@ == at_branch(parsed@, names[i as int]));
        }
        urls.append(&mut more);
        proof {
            assert(url_texts(urls) =~= before + added);
        }
        i += 1;
    }
    proof {
        assert(names.take(i as int) =~= names);
    }
    urls
}

/// How an attempt to fetch an archive ended.
#[derive(Debug, Clone, Copy, PartialEq, Eq, Structural)]
pub enum FetchOutcome {
    /// The archive was fetched and read.
    Succeeded,
    /// The archive could not be fetched, or could not be read.
    Failed,
}

/// The archives of one repository, and how far the attempts on them have
/// come.
pub struct DownloadAttempts {
    pub urls: Vec<String>,
    pub tried: usize,
    pub done: bool,
}

/// What is to be done next for a repository.
pub enum NextStep {
    /// Fetch this archive.
    Fetch(String),
    /// Every archive has failed: report this error.
    GiveUp(AnalysisError),
    /// An archive has been read: nothing is left to do.
    Done,
}

impl DownloadAttempts {
    /// No archive has been tried more than once, and none out of turn.
    pub open spec fn in_order(&self) -> bool {
        self.tried <= self.urls@.len()
    }

    /// The attempts on `urls`, none of them made yet.
    pub fn new(urls: Vec<String>) -> (attempts: Self)
        ensures
            attempts.urls == urls,
            attempts.tried == 0,
            !attempts.done,
            attempts.in_order(),
    {
        DownloadAttempts { urls, tried: 0, done: false }
    }

    /// What is to be done next, given how the last attempt ended, if there
    /// was one.
    ///
    /// Once an attempt has succeeded nothing is left to do, whatever is
    /// reported afterwards. Until then, at the start and after each
    /// failure, the next archive in order is fetched; and when none is left
    /// the failure of all of them is reported as a network error. An
    /// archive once fetched is not fetched again.
    pub fn next_step(&mut self, last: Option<FetchOutcome>) -> (step: NextStep)
        requires
            old(self).in_order(),
        ensures
            final(self).in_order(),
            final(self).urls == old(self).urls,
            final(self).done == (old(self).done || last == Some(FetchOutcome::Succeeded)),
            final(self).done ==> step is Done && final(self).tried == old(self).tried,
            !final(self).done && old(self).tried < old(self).urls@.len() ==> final(self).tried
                == old(self).tried + 1 && (step matches NextStep::Fetch(url) && url == old(
                self,
            ).urls@[old(self).tried as int]),
            !final(self).done && old(self).tried >= old(self).urls@.len() ==> final(self).tried
                == old(self).tried && (
            step matches NextStep::GiveUp(AnalysisError::NetworkError { message }) && message@
                == "All download URLs failed"@),
    {
        if let Some(outcome) = last {
            if outcome == FetchOutcome::Succeeded {
                self.done = true;
            }
        }
        if self.done {
            NextStep::Done
        } else if self.tried < self.urls.len() {
            let url = self.urls[self.tried].clone();
            self.tried += 1;
            NextStep::Fetch(url)
        } else {
            NextStep::GiveUp(AnalysisError::network("All download URLs failed"))
        }
    }
}

} // verus!
