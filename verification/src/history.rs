//! Recorded histories: what an upstream would answer, held in memory, and
//! what a walk through such a history amounts to.

use vstd::prelude::*;
use crate::engine::{AggregationError, RequestView, UpstreamQueryError, PAGE_SIZE};
use crate::model::{
    copy_files,
    FileChange,
    FileChangeView,
    RepositoryRef,
    RepositoryView,
    Timestamp,
};
use crate::tally::{fits, record_all, EntryView};

verus! {

/// What the upstream answers when asked for the detail of a commit.
#[derive(Debug, Clone, PartialEq, Eq)]
pub enum RecordedDetail {
    /// The files that the commit touched.
    Files(Vec<FileChange>),
    /// A detail without its list of files.
    MissingFiles,
    /// The fetch fails.
    Failure,
}

/// What a [`RecordedDetail`] says, as mathematics.
pub enum DetailView {
    Files(Seq<FileChangeView>),
    MissingFiles,
    Failure,
}

impl View for RecordedDetail {
    type V = DetailView;

    open spec fn view(&self) -> DetailView {
        match self {
            RecordedDetail::Files(files) => DetailView::Files(files.deep_view()),
            RecordedDetail::MissingFiles => DetailView::MissingFiles,
            RecordedDetail::Failure => DetailView::Failure,
        }
    }
}

/// A commit of a recorded history.
#[derive(Debug, Clone, PartialEq, Eq)]
pub struct RecordedCommit {
    pub sha: String,
    pub detail: RecordedDetail,
}

/// What a [`RecordedCommit`] says, as mathematics.
pub struct CommitView {
    pub sha: Seq<char>,
    pub detail: DetailView,
}

impl View for RecordedCommit {
    type V = CommitView;

    open spec fn view(&self) -> CommitView {
        CommitView { sha: self.sha@, detail: self.detail@ }
    }
}

impl DeepView for RecordedCommit {
    type V = CommitView;

    open spec fn deep_view(&self) -> CommitView {
        self@
    }
}

impl RecordedCommit {
    /// A copy of the commit.
    pub fn duplicate(&self) -> (copy: RecordedCommit)
        ensures
            copy@ == self@,
    {
        let detail = match &self.detail {
            RecordedDetail::Files(files) => RecordedDetail::Files(copy_files(files)),
            RecordedDetail::MissingFiles => RecordedDetail::MissingFiles,
            RecordedDetail::Failure => RecordedDetail::Failure,
        };
        RecordedCommit { sha: self.sha.clone(), detail }
    }
}

/// A page of a recorded history.
#[derive(Debug, Clone, PartialEq, Eq)]
pub enum RecordedPage {
    /// The commits on the page.
    Commits(Vec<RecordedCommit>),
    /// Fetching the page fails.
    Failure,
}

/// What a [`RecordedPage`] says, as mathematics.
pub enum RecordedPageView {
    Commits(Seq<CommitView>),
    Failure,
}

impl View for RecordedPage {
    type V = RecordedPageView;

    open spec fn view(&self) -> RecordedPageView {
        match self {
            RecordedPage::Commits(commits) => RecordedPageView::Commits(commits.deep_view()),
            RecordedPage::Failure => RecordedPageView::Failure,
        }
    }
}

impl DeepView for RecordedPage {
    type V = RecordedPageView;

    open spec fn deep_view(&self) -> RecordedPageView {
        self@
    }
}

/// The recorded history of one repository: its pages, in the order in which
/// the cursors lead through them. Every page but the last announces the next.
/// A repository without pages answers a listing with one empty page.
#[derive(Debug, Clone, PartialEq, Eq)]
pub struct RecordedRepository {
    pub target: RepositoryRef,
    pub pages: Vec<RecordedPage>,
}

/// What a [`RecordedRepository`] says, as mathematics.
pub struct RecordedRepositoryView {
    pub target: RepositoryView,
    pub pages: Seq<RecordedPageView>,
}

impl View for RecordedRepository {
    type V = RecordedRepositoryView;

    open spec fn view(&self) -> RecordedRepositoryView {
        RecordedRepositoryView { target: self.target@, pages: self.pages.deep_view() }
    }
}

impl DeepView for RecordedRepository {
    type V = RecordedRepositoryView;

    open spec fn deep_view(&self) -> RecordedRepositoryView {
        self@
    }
}

/// A walk, seen from outside: how it ended, and the requests that were made
/// on the way, in order.
pub struct Walk {
    pub outcome: Result<Seq<EntryView>, AggregationError>,
    pub requests: Seq<RequestView>,
}

/// The request for the first page of a repository.
pub open spec fn listing_request(
    target: RepositoryView,
    author: Seq<char>,
    since: Timestamp,
) -> RequestView {
    RequestView::ListCommits {
        owner: target.owner,
        repository: target.name,
        author,
        since,
        per_page: PAGE_SIZE as nat,
    }
}

/// The request for the detail of a commit.
pub open spec fn detail_request(target: RepositoryView, sha: Seq<char>) -> RequestView {
    RequestView::CommitDetail { owner: target.owner, repository: target.name, sha }
}

/// The hashes of a list of commits.
pub open spec fn hashes(commits: Seq<CommitView>) -> Seq<Seq<char>> {
    commits.map_values(|commit: CommitView| commit.sha)
}

/// The walk through the commits of one page, from the tally `t`: the detail
/// of each commit is asked for and its files are counted, up to the first
/// commit that fails.
pub open spec fn walk_commits(
    t: Seq<EntryView>,
    target: RepositoryView,
    commits: Seq<CommitView>,
) -> Walk
    decreases commits.len(),
{
    if commits.len() == 0 {
        Walk { outcome: Ok(t), requests: Seq::empty() }
    } else {
        let asked = seq![detail_request(target, commits.first().sha)];
        match commits.first().detail {
            DetailView::Failure => Walk {
                outcome: Err(AggregationError::Upstream(UpstreamQueryError::CommitDetail)),
                requests: asked,
            },
            DetailView::MissingFiles => Walk {
                outcome: Err(AggregationError::Upstream(UpstreamQueryError::MissingFileList)),
                requests: asked,
            },
            DetailView::Files(files) => {
                if fits(record_all(t, files)) {
                    let rest = walk_commits(record_all(t, files), target, commits.drop_first());
                    Walk { outcome: rest.outcome, requests: asked + rest.requests }
                } else {
                    Walk { outcome: Err(AggregationError::Overflow), requests: asked }
                }
            },
        }
    }
}

/// The walk through the pages of a repository, from the tally `t`, once the
/// first of `pages` has been asked for. `first` says whether that page is the
/// first of the repository.
pub open spec fn walk_pages(
    t: Seq<EntryView>,
    target: RepositoryView,
    pages: Seq<RecordedPageView>,
    first: bool,
) -> Walk
    decreases pages.len(),
{
    if pages.len() == 0 {
        Walk { outcome: Ok(t), requests: Seq::empty() }
    } else {
        match pages.first() {
            RecordedPageView::Failure => Walk {
                outcome: Err(
                    AggregationError::Upstream(
                        if first {
                            UpstreamQueryError::ListCommits
                        } else {
                            UpstreamQueryError::NextPage
                        },
                    ),
                ),
                requests: Seq::empty(),
            },
            RecordedPageView::Commits(commits) => {
                let here = walk_commits(t, target, commits);
                match here.outcome {
                    Err(_) => here,
                    Ok(counted) => {
                        if pages.len() == 1 {
                            here
                        } else {
                            let rest = walk_pages(counted, target, pages.drop_first(), false);
                            Walk {
                                outcome: rest.outcome,
                                requests: here.requests + seq![RequestView::NextPage]
                                    + rest.requests,
                            }
                        }
                    },
                }
            },
        }
    }
}

/// The walk through one repository, from the tally `t`.
pub open spec fn walk_repository(
    t: Seq<EntryView>,
    repository: RecordedRepositoryView,
    author: Seq<char>,
    since: Timestamp,
) -> Walk {
    let pages = walk_pages(t, repository.target, repository.pages, true);
    Walk {
        outcome: pages.outcome,
        requests: seq![listing_request(repository.target, author, since)] + pages.requests,
    }
}

/// The walk through a list of repositories, from the tally `t`: one after
/// the other, up to the first that fails.
pub open spec fn walk_repositories(
    t: Seq<EntryView>,
    repositories: Seq<RecordedRepositoryView>,
    author: Seq<char>,
    since: Timestamp,
) -> Walk
    decreases repositories.len(),
{
    if repositories.len() == 0 {
        Walk { outcome: Ok(t), requests: Seq::empty() }
    } else {
        let here = walk_repository(t, repositories.first(), author, since);
        match here.outcome {
            Err(_) => here,
            Ok(counted) => {
                let rest = walk_repositories(counted, repositories.drop_first(), author, since);
                Walk { outcome: rest.outcome, requests: here.requests + rest.requests }
            },
        }
    }
}

/// The walk through a recorded history, from the empty tally.
pub open spec fn walk(
    history: Seq<RecordedRepositoryView>,
    author: Seq<char>,
    since: Timestamp,
) -> Walk {
    walk_repositories(Seq::empty(), history, author, since)
}

} // verus!
