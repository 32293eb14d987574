//! What a walk accounts for: a walk that succeeds has counted every file of
//! the history, in order, and a walk succeeds exactly when nothing in the
//! history fails and the totals stay in range.

use vstd::prelude::*;
use crate::engine::AggregationError;
use crate::history::{
    walk,
    walk_commits,
    walk_pages,
    walk_repositories,
    CommitView,
    DetailView,
    RecordedPageView,
    RecordedRepositoryView,
};
use crate::model::{FileChangeView, RepositoryView, Timestamp};
use crate::tally::{
    fits,
    has_entry,
    lemma_overflow_persists,
    lemma_record_all_concat,
    lemma_record_all_extends,
    record_all,
    total_of,
    well_formed,
    EntryView,
};
use crate::totals::{first_changes, lemma_total_is_sum_plus_first, mentions, sum_changes};

verus! {

/// The files that a commit is recorded with; none where the detail fails or
/// lacks its list.
pub open spec fn files_of_commit(commit: CommitView) -> Seq<FileChangeView> {
    match commit.detail {
        DetailView::Files(files) => files,
        _ => Seq::empty(),
    }
}

/// The files of a list of commits, in order.
pub open spec fn files_of_commits(commits: Seq<CommitView>) -> Seq<FileChangeView>
    decreases commits.len(),
{
    if commits.len() == 0 {
        Seq::empty()
    } else {
        files_of_commit(commits.first()) + files_of_commits(commits.drop_first())
    }
}

/// The commits on a page; none where fetching the page fails.
pub open spec fn commits_of_page(page: RecordedPageView) -> Seq<CommitView> {
    match page {
        RecordedPageView::Commits(commits) => commits,
        RecordedPageView::Failure => Seq::empty(),
    }
}

/// The commits of a list of pages, in order.
pub open spec fn commits_of_pages(pages: Seq<RecordedPageView>) -> Seq<CommitView>
    decreases pages.len(),
{
    if pages.len() == 0 {
        Seq::empty()
    } else {
        commits_of_page(pages.first()) + commits_of_pages(pages.drop_first())
    }
}

/// The commits of a history, in the order of the walk.
pub open spec fn commits_of(history: Seq<RecordedRepositoryView>) -> Seq<CommitView>
    decreases history.len(),
{
    if history.len() == 0 {
        Seq::empty()
    } else {
        commits_of_pages(history.first().pages) + commits_of(history.drop_first())
    }
}

/// The files of a history, in the order of the walk.
pub open spec fn files_of(history: Seq<RecordedRepositoryView>) -> Seq<FileChangeView> {
    files_of_commits(commits_of(history))
}

/// Every commit comes with its list of files.
pub open spec fn flawless_commits(commits: Seq<CommitView>) -> bool {
    forall|i: int| 0 <= i < commits.len() ==> (#[trigger] commits[i]).detail is Files
}

/// Every page can be fetched, and every commit on it comes with its files.
pub open spec fn flawless_pages(pages: Seq<RecordedPageView>) -> bool {
    forall|i: int|
        0 <= i < pages.len() ==> (#[trigger] pages[i]) is Commits && flawless_commits(
            commits_of_page(pages[i]),
        )
}

/// Nothing in the history fails.
pub open spec fn flawless(history: Seq<RecordedRepositoryView>) -> bool {
    forall|i: int| 0 <= i < history.len() ==> flawless_pages((#[trigger] history[i]).pages)
}

/// A walk through a history in which nothing fails can only be given up for
/// a total that left its range.
pub open spec fn overflow_or_ok(outcome: Result<Seq<EntryView>, AggregationError>) -> bool {
    outcome is Ok || outcome == Err::<Seq<EntryView>, AggregationError>(AggregationError::Overflow)
}

/// The files of two lists of commits, one after the other.
pub proof fn lemma_files_of_commits_concat(front: Seq<CommitView>, back: Seq<CommitView>)
    ensures
        files_of_commits(front + back) == files_of_commits(front) + files_of_commits(back),
        flawless_commits(front + back) <==> flawless_commits(front) && flawless_commits(back),
    decreases front.len(),
{
    if front.len() == 0 {
        assert(front + back =~= back);
        assert(files_of_commits(front) + files_of_commits(back) =~= files_of_commits(back));
    } else {
        assert((front + back).first() == front.first());
        assert((front + back).drop_first() =~= front.drop_first() + back);
        lemma_files_of_commits_concat(front.drop_first(), back);
        assert(files_of_commit(front.first()) + (files_of_commits(front.drop_first())
            + files_of_commits(back)) =~= files_of_commits(front) + files_of_commits(back));
    }
    let whole = front + back;
    if flawless_commits(whole) {
        assert forall|i: int| 0 <= i < front.len() implies (#[trigger] front[i]).detail is Files by {
            assert(whole[i] == front[i]);
        }
        assert forall|i: int| 0 <= i < back.len() implies (#[trigger] back[i]).detail is Files by {
            assert(whole[front.len() + i] == back[i]);
        }
    }
}

/// A list of commits is flawless when its first commit and the rest are.
proof fn lemma_flawless_commits_unfold(commits: Seq<CommitView>)
    requires
        commits.len() > 0,
    ensures
        flawless_commits(commits) <==> commits.first().detail is Files && flawless_commits(
            commits.drop_first(),
        ),
{
    let rest = commits.drop_first();
    if flawless_commits(commits) {
        assert(commits[0].detail is Files);
        assert forall|i: int| 0 <= i < rest.len() implies (#[trigger] rest[i]).detail is Files by {
            assert(commits[i + 1] == rest[i]);
        }
    }
    if commits.first().detail is Files && flawless_commits(rest) {
        assert forall|i: int| 0 <= i < commits.len() implies (#[trigger] commits[i]).detail is Files by {
            if i > 0 {
                assert(rest[i - 1] == commits[i]);
            }
        }
    }
}

/// A list of pages is flawless when its first page and the rest are.
proof fn lemma_flawless_pages_unfold(pages: Seq<RecordedPageView>)
    requires
        pages.len() > 0,
    ensures
        flawless_pages(pages) <==> pages.first() is Commits && flawless_commits(
            commits_of_page(pages.first()),
        ) && flawless_pages(pages.drop_first()),
{
    let rest = pages.drop_first();
    if flawless_pages(pages) {
        assert(pages[0] is Commits);
        assert forall|i: int| 0 <= i < rest.len() implies (#[trigger] rest[i]) is Commits
            && flawless_commits(commits_of_page(rest[i])) by {
            assert(pages[i + 1] == rest[i]);
        }
    }
    if pages.first() is Commits && flawless_commits(commits_of_page(pages.first()))
        && flawless_pages(rest) {
        assert forall|i: int| 0 <= i < pages.len() implies (#[trigger] pages[i]) is Commits
            && flawless_commits(commits_of_page(pages[i])) by {
            if i > 0 {
                assert(rest[i - 1] == pages[i]);
            }
        }
    }
}

/// A history is flawless when its first repository and the rest are.
proof fn lemma_flawless_unfold(history: Seq<RecordedRepositoryView>)
    requires
        history.len() > 0,
    ensures
        flawless(history) <==> flawless_pages(history.first().pages) && flawless(
            history.drop_first(),
        ),
{
    let rest = history.drop_first();
    if flawless(history) {
        assert(flawless_pages(history[0].pages));
        assert forall|i: int| 0 <= i < rest.len() implies flawless_pages(
            (#[trigger] rest[i]).pages,
        ) by {
            assert(history[i + 1] == rest[i]);
        }
    }
    if flawless_pages(history.first().pages) && flawless(rest) {
        assert forall|i: int| 0 <= i < history.len() implies flawless_pages(
            (#[trigger] history[i]).pages,
        ) by {
            if i > 0 {
                assert(rest[i - 1] == history[i]);
            }
        }
    }
}

/// The walk through the commits of a page succeeds exactly when every commit
/// comes with its files and the totals stay in range, and it then has
/// counted the files of all of them, in order.
pub proof fn lemma_walk_commits_accounts(
    t: Seq<EntryView>,
    target: RepositoryView,
    commits: Seq<CommitView>,
)
    requires
        well_formed(t),
        fits(t),
    ensures
        walk_commits(t, target, commits).outcome is Ok <==> flawless_commits(commits) && fits(
            record_all(t, files_of_commits(commits)),
        ),
        walk_commits(t, target, commits).outcome matches Ok(counted) ==> counted == record_all(
            t,
            files_of_commits(commits),
        ) && well_formed(counted) && fits(counted),
        flawless_commits(commits) ==> overflow_or_ok(walk_commits(t, target, commits).outcome),
    decreases commits.len(),
{
    if commits.len() == 0 {
        assert(files_of_commits(commits) =~= Seq::<FileChangeView>::empty());
    } else {
        let rest = commits.drop_first();
        lemma_flawless_commits_unfold(commits);
        match commits.first().detail {
            DetailView::Files(files) => {
                let next = record_all(t, files);
                lemma_record_all_extends(t, files);
                lemma_record_all_concat(t, files, files_of_commits(rest));
                if fits(next) {
                    lemma_walk_commits_accounts(next, target, rest);
                } else {
                    lemma_overflow_persists(next, files_of_commits(rest));
                }
            },
            _ => {},
        }
    }
}

/// The walk through the pages of a repository succeeds exactly when nothing
/// on them fails and the totals stay in range, and it then has counted the
/// files of all their commits, in order.
pub proof fn lemma_walk_pages_accounts(
    t: Seq<EntryView>,
    target: RepositoryView,
    pages: Seq<RecordedPageView>,
    first: bool,
)
    requires
        well_formed(t),
        fits(t),
    ensures
        walk_pages(t, target, pages, first).outcome is Ok <==> flawless_pages(pages) && fits(
            record_all(t, files_of_commits(commits_of_pages(pages))),
        ),
        walk_pages(t, target, pages, first).outcome matches Ok(counted) ==> counted == record_all(
            t,
            files_of_commits(commits_of_pages(pages)),
        ) && well_formed(counted) && fits(counted),
        flawless_pages(pages) ==> overflow_or_ok(walk_pages(t, target, pages, first).outcome),
    decreases pages.len(),
{
    if pages.len() == 0 {
        assert(files_of_commits(commits_of_pages(pages)) =~= Seq::<FileChangeView>::empty());
    } else {
        let rest = pages.drop_first();
        lemma_flawless_pages_unfold(pages);
        match pages.first() {
            RecordedPageView::Failure => {},
            RecordedPageView::Commits(commits) => {
                let later = commits_of_pages(rest);
                lemma_walk_commits_accounts(t, target, commits);
                lemma_files_of_commits_concat(commits, later);
                lemma_record_all_concat(t, files_of_commits(commits), files_of_commits(later));
                let next = record_all(t, files_of_commits(commits));
                lemma_record_all_extends(t, files_of_commits(commits));
                if pages.len() == 1 {
                    assert(rest.len() == 0);
                    assert(later =~= Seq::<CommitView>::empty());
                    assert(files_of_commits(later) =~= Seq::<FileChangeView>::empty());
                    assert(flawless_pages(rest));
                } else if fits(next) {
                    if flawless_commits(commits) {
                        lemma_walk_pages_accounts(next, target, rest, false);
                    }
                } else {
                    lemma_overflow_persists(next, files_of_commits(later));
                }
            },
        }
    }
}

/// The walk through a list of repositories succeeds exactly when nothing in
/// their histories fails and the totals stay in range, and it then has
/// counted every file, in order.
pub proof fn lemma_walk_repositories_accounts(
    t: Seq<EntryView>,
    repositories: Seq<RecordedRepositoryView>,
    author: Seq<char>,
    since: Timestamp,
)
    requires
        well_formed(t),
        fits(t),
    ensures
        walk_repositories(t, repositories, author, since).outcome is Ok <==> flawless(repositories)
            && fits(record_all(t, files_of(repositories))),
        walk_repositories(t, repositories, author, since).outcome matches Ok(counted) ==> counted
            == record_all(t, files_of(repositories)) && well_formed(counted) && fits(counted),
        flawless(repositories) ==> overflow_or_ok(
            walk_repositories(t, repositories, author, since).outcome,
        ),
    decreases repositories.len(),
{
    if repositories.len() == 0 {
        assert(files_of(repositories) =~= Seq::<FileChangeView>::empty());
    } else {
        let here = repositories.first();
        let rest = repositories.drop_first();
        lemma_flawless_unfold(repositories);
        lemma_walk_pages_accounts(t, here.target, here.pages, true);
        let front = commits_of_pages(here.pages);
        lemma_files_of_commits_concat(front, commits_of(rest));
        lemma_record_all_concat(t, files_of_commits(front), files_of(rest));
        let next = record_all(t, files_of_commits(front));
        lemma_record_all_extends(t, files_of_commits(front));
        if fits(next) {
            if flawless_pages(here.pages) {
                lemma_walk_repositories_accounts(next, rest, author, since);
            }
        } else {
            lemma_overflow_persists(next, files_of(rest));
        }
    }
}

/// A walk through a history succeeds exactly when nothing in the history
/// fails and the totals stay in range. Its tally is then the tally of all
/// files of the history, counted in order from nothing.
pub proof fn lemma_walk_accounts(
    history: Seq<RecordedRepositoryView>,
    author: Seq<char>,
    since: Timestamp,
)
    ensures
        walk(history, author, since).outcome is Ok <==> flawless(history) && fits(
            record_all(Seq::empty(), files_of(history)),
        ),
        walk(history, author, since).outcome matches Ok(counted) ==> counted == record_all(
            Seq::empty(),
            files_of(history),
        ) && well_formed(counted),
        flawless(history) ==> overflow_or_ok(walk(history, author, since).outcome),
{
    lemma_walk_repositories_accounts(Seq::empty(), history, author, since);
}

/// After a walk that succeeds, an extension has a line exactly when some file
/// of the history is counted under it, and its total is the sum of the
/// changes of those files, plus once more the changes of the first of them.
pub proof fn lemma_walk_totals(
    history: Seq<RecordedRepositoryView>,
    author: Seq<char>,
    since: Timestamp,
    ext: Seq<char>,
)
    requires
        walk(history, author, since).outcome is Ok,
    ensures
        walk(history, author, since).outcome matches Ok(counted) && (has_entry(counted, ext)
            <==> mentions(files_of(history), ext)) && total_of(counted, ext) == sum_changes(
            files_of(history),
            ext,
        ) + first_changes(files_of(history), ext),
{
    lemma_walk_accounts(history, author, since);
    lemma_total_is_sum_plus_first(files_of(history), ext);
}

/// A walk that is given up has an error to show and nothing else: the same
/// history never gives a tally one time and an error another.
pub proof fn lemma_walk_fails_without_tally(
    history: Seq<RecordedRepositoryView>,
    author: Seq<char>,
    since: Timestamp,
)
    requires
        !flawless(history),
    ensures
        walk(history, author, since).outcome is Err,
{
    lemma_walk_accounts(history, author, since);
}

} // verus!
