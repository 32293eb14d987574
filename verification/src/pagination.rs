//! Pages: however the commits of a repository are cut into pages, the walk
//! fetches every page once, visits every commit once, and counts the same.

use vstd::prelude::*;
use crate::accounting::{
    commits_of_page,
    commits_of_pages,
    files_of_commits,
    flawless_commits,
    flawless_pages,
    lemma_files_of_commits_concat,
    lemma_walk_pages_accounts,
};
use crate::engine::{AggregationError, RequestView};
use crate::history::{
    detail_request,
    hashes,
    listing_request,
    walk_commits,
    walk_pages,
    walk_repository,
    CommitView,
    DetailView,
    RecordedCommit,
    RecordedPage,
    RecordedPageView,
    RecordedRepositoryView,
};
use crate::model::{RepositoryView, Timestamp};
use crate::tally::{fits, record_all, well_formed, EntryView};

verus! {

/// The commits cut into pages of `size` commits each; the last page holds
/// what is left. No commits, no pages.
pub open spec fn paginate(commits: Seq<CommitView>, size: nat) -> Seq<RecordedPageView>
    decreases commits.len(),
{
    if size == 0 || commits.len() == 0 {
        Seq::empty()
    } else if commits.len() <= size {
        seq![RecordedPageView::Commits(commits)]
    } else {
        seq![RecordedPageView::Commits(commits.take(size as int))] + paginate(
            commits.skip(size as int),
            size,
        )
    }
}

/// Cuts a list of commits into pages of `size` commits each: see
/// [`paginate`].
pub fn cut_into_pages(commits: &Vec<RecordedCommit>, size: usize) -> (pages: Vec<RecordedPage>)
    ensures
        pages.deep_view() == paginate(commits.deep_view(), size as nat),
{
    let ghost all = commits.deep_view();
    let mut pages: Vec<RecordedPage> = Vec::new();
    if size == 0 {
        assert(pages.deep_view() =~= paginate(all, 0));
        return pages;
    }
    let n = commits.len();
    let mut start: usize = 0;
    assert(all.skip(0) =~= all);
    assert(pages.deep_view() + paginate(all, size as nat) =~= paginate(all, size as nat));
    while start < n
        invariant
            start <= n,
            n == commits.len(),
            size > 0,
            all == commits.deep_view(),
            pages.deep_view() + paginate(all.skip(start as int), size as nat) == paginate(
                all,
                size as nat,
            ),
        decreases n - start,
    {
        let end = if n - start <= size {
            n
        } else {
            start + size
        };
        let mut page: Vec<RecordedCommit> = Vec::new();
        let mut i: usize = start;
        while i < end
            invariant
                start <= i <= end <= n,
                n == commits.len(),
                all == commits.deep_view(),
                page.deep_view() == all.subrange(start as int, i as int),
            decreases end - i,
        {
            let ghost copied = page.deep_view();
            page.push(commits[i].duplicate());
            assert(page.deep_view() =~= copied.push(all[i as int]));
            assert(all.subrange(start as int, i + 1) =~= all.subrange(start as int, i as int).push(
                all[i as int],
            ));
            i += 1;
        }
        let ghost rest = all.skip(start as int);
        let ghost cut = pages.deep_view();
        let ghost here = RecordedPageView::Commits(page.deep_view());
        pages.push(RecordedPage::Commits(page));
        proof {
            assert(pages.deep_view() =~= cut.push(here));
            if n - start <= size {
                assert(all.subrange(start as int, end as int) =~= rest);
                assert(all.skip(end as int) =~= Seq::<CommitView>::empty());
                assert(cut.push(here) + paginate(all.skip(end as int), size as nat) =~= cut
                    + paginate(rest, size as nat));
            } else {
                assert(all.subrange(start as int, end as int) =~= rest.take(size as int));
                assert(all.skip(end as int) =~= rest.skip(size as int));
                assert(cut.push(here) + paginate(all.skip(end as int), size as nat) =~= cut
                    + paginate(rest, size as nat));
            }
        }
        start = end;
    }
    assert(pages.deep_view() + Seq::<RecordedPageView>::empty() =~= pages.deep_view());
    pages
}

/// The number of requests for a page among `requests`: first pages and
/// further pages alike.
pub open spec fn page_fetches(requests: Seq<RequestView>) -> nat
    decreases requests.len(),
{
    if requests.len() == 0 {
        0
    } else {
        let here: nat = if requests.first() is CommitDetail {
            0
        } else {
            1
        };
        here + page_fetches(requests.drop_first())
    }
}

/// The hashes of the commits whose detail is asked for among `requests`, in
/// order, each as often as it is asked for.
pub open spec fn visited(requests: Seq<RequestView>) -> Seq<Seq<char>>
    decreases requests.len(),
{
    if requests.len() == 0 {
        Seq::empty()
    } else {
        let here = match requests.first() {
            RequestView::CommitDetail { sha, .. } => seq![sha],
            _ => Seq::empty(),
        };
        here + visited(requests.drop_first())
    }
}

/// Page fetches and visits of two lists of requests, one after the other.
pub proof fn lemma_requests_concat(front: Seq<RequestView>, back: Seq<RequestView>)
    ensures
        page_fetches(front + back) == page_fetches(front) + page_fetches(back),
        visited(front + back) == visited(front) + visited(back),
    decreases front.len(),
{
    if front.len() == 0 {
        assert(front + back =~= back);
        assert(visited(front) + visited(back) =~= visited(back));
    } else {
        assert((front + back).first() == front.first());
        assert((front + back).drop_first() =~= front.drop_first() + back);
        lemma_requests_concat(front.drop_first(), back);
        let here = match front.first() {
            RequestView::CommitDetail { sha, .. } => seq![sha],
            _ => Seq::empty(),
        };
        assert(here + (visited(front.drop_first()) + visited(back)) =~= visited(front) + visited(
            back,
        ));
    }
}

/// Page fetches and visits of a single request.
pub proof fn lemma_single_request(request: RequestView)
    ensures
        page_fetches(seq![request]) == (if request is CommitDetail {
            0nat
        } else {
            1nat
        }),
        visited(seq![request]) == (match request {
            RequestView::CommitDetail { sha, .. } => seq![sha],
            _ => Seq::<Seq<char>>::empty(),
        }),
{
    let single = seq![request];
    assert(single.first() == request);
    assert(single.drop_first() =~= Seq::<RequestView>::empty());
    assert(page_fetches(single.drop_first()) == 0);
    assert(visited(single.drop_first()) =~= Seq::<Seq<char>>::empty());
    let here = match request {
        RequestView::CommitDetail { sha, .. } => seq![sha],
        _ => Seq::<Seq<char>>::empty(),
    };
    assert(here + Seq::<Seq<char>>::empty() =~= here);
}

/// The hashes of two lists of commits, one after the other.
pub proof fn lemma_hashes_concat(front: Seq<CommitView>, back: Seq<CommitView>)
    ensures
        hashes(front + back) == hashes(front) + hashes(back),
{
    assert(hashes(front + back) =~= hashes(front) + hashes(back));
}

/// A walk through the commits of a page that succeeds has fetched no page
/// and has visited every commit of the page once, in order.
pub proof fn lemma_walk_commits_visits(
    t: Seq<EntryView>,
    target: RepositoryView,
    commits: Seq<CommitView>,
)
    requires
        walk_commits(t, target, commits).outcome is Ok,
    ensures
        page_fetches(walk_commits(t, target, commits).requests) == 0,
        visited(walk_commits(t, target, commits).requests) == hashes(commits),
    decreases commits.len(),
{
    if commits.len() == 0 {
        assert(hashes(commits) =~= Seq::<Seq<char>>::empty());
    } else {
        let rest = commits.drop_first();
        match commits.first().detail {
            DetailView::Files(files) => {
                let next = record_all(t, files);
                let asked = seq![detail_request(target, commits.first().sha)];
                let later = walk_commits(next, target, rest);
                lemma_walk_commits_visits(next, target, rest);
                lemma_requests_concat(asked, later.requests);
                lemma_single_request(detail_request(target, commits.first().sha));
                assert(seq![commits.first().sha] + hashes(rest) =~= hashes(commits));
            },
            _ => {},
        }
    }
}

/// A walk through the pages of a repository that succeeds has fetched every
/// page but the first, which was asked for before, and has visited every
/// commit of every page once, in order.
pub proof fn lemma_walk_pages_visits(
    t: Seq<EntryView>,
    target: RepositoryView,
    pages: Seq<RecordedPageView>,
    first: bool,
)
    requires
        pages.len() > 0,
        walk_pages(t, target, pages, first).outcome is Ok,
    ensures
        page_fetches(walk_pages(t, target, pages, first).requests) == pages.len() - 1,
        visited(walk_pages(t, target, pages, first).requests) == hashes(commits_of_pages(pages)),
    decreases pages.len(),
{
    let rest = pages.drop_first();
    match pages.first() {
        RecordedPageView::Failure => {},
        RecordedPageView::Commits(commits) => {
            let here = walk_commits(t, target, commits);
            lemma_walk_commits_visits(t, target, commits);
            lemma_hashes_concat(commits, commits_of_pages(rest));
            if pages.len() == 1 {
                assert(commits_of_pages(rest) =~= Seq::<CommitView>::empty());
                assert(commits + commits_of_pages(rest) =~= commits);
            } else {
                let counted = here.outcome->Ok_0;
                let later = walk_pages(counted, target, rest, false);
                let turn = seq![RequestView::NextPage];
                lemma_walk_pages_visits(counted, target, rest, false);
                lemma_requests_concat(here.requests, turn);
                lemma_requests_concat(here.requests + turn, later.requests);
                lemma_single_request(RequestView::NextPage);
                assert(visited(here.requests) + visited(turn) =~= visited(here.requests));
            }
        },
    }
}

/// Cutting commits into pages loses none and adds none, gives no empty page,
/// and gives as many pages as the commits need: their number divided by the
/// page size, rounded up.
pub proof fn lemma_paginate(commits: Seq<CommitView>, size: nat)
    requires
        size > 0,
    ensures
        commits_of_pages(paginate(commits, size)) == commits,
        paginate(commits, size).len() == (commits.len() + size - 1) / (size as int),
        flawless_pages(paginate(commits, size)) <==> flawless_commits(commits),
        forall|i: int|
            0 <= i < paginate(commits, size).len() ==> 0 < commits_of_page(
                #[trigger] paginate(commits, size)[i],
            ).len() <= size,
    decreases commits.len(),
{
    let pages = paginate(commits, size);
    let n = commits.len() as int;
    let d = size as int;
    if commits.len() == 0 {
        assert(commits_of_pages(pages) =~= commits);
        assert((n + d - 1) / d == 0) by (nonlinear_arith)
            requires
                n == 0,
                d > 0,
        ;
    } else if commits.len() <= size {
        let only = RecordedPageView::Commits(commits);
        assert(pages.first() == only);
        assert(pages.drop_first() =~= Seq::<RecordedPageView>::empty());
        assert(commits_of_pages(pages.drop_first()) =~= Seq::<CommitView>::empty());
        assert(commits + Seq::<CommitView>::empty() =~= commits);
        assert((n + d - 1) / d == 1) by (nonlinear_arith)
            requires
                0 < n <= d,
        ;
        if flawless_commits(commits) {
            assert forall|i: int| 0 <= i < pages.len() implies (#[trigger] pages[i]) is Commits
                && flawless_commits(commits_of_page(pages[i])) by {
                assert(pages[i] == only);
            }
        }
        if flawless_pages(pages) {
            assert(flawless_commits(commits_of_page(pages[0])));
        }
    } else {
        let head = commits.take(d);
        let tail = commits.skip(d);
        let here = seq![RecordedPageView::Commits(head)];
        let later = paginate(tail, size);
        lemma_paginate(tail, size);
        assert(pages.first() == RecordedPageView::Commits(head));
        assert(pages.drop_first() =~= later);
        assert(head + tail =~= commits);
        assert((n + d - 1) / d == (n - d + d - 1) / d + 1) by (nonlinear_arith)
            requires
                n > d,
                d > 0,
        ;
        lemma_files_of_commits_concat(head, tail);
        assert forall|i: int| 0 <= i < pages.len() implies 0 < commits_of_page(
            #[trigger] pages[i],
        ).len() <= size by {
            if i > 0 {
                assert(pages[i] == later[i - 1]);
            }
        }
        if flawless_commits(commits) {
            assert forall|i: int| 0 <= i < pages.len() implies (#[trigger] pages[i]) is Commits
                && flawless_commits(commits_of_page(pages[i])) by {
                if i > 0 {
                    assert(pages[i] == later[i - 1]);
                }
            }
        }
        if flawless_pages(pages) {
            assert(flawless_commits(commits_of_page(pages[0])));
            assert forall|i: int| 0 <= i < later.len() implies (#[trigger] later[i]) is Commits
                && flawless_commits(commits_of_page(later[i])) by {
                assert(pages[i + 1] == later[i]);
            }
        }
    }
}

/// Whatever the page size, a walk through a repository whose commits all come
/// with their files fetches as many pages as the commits fill, visits every
/// commit once, in order, and ends with the tally that counting all their
/// files gives.
///
/// A repository without commits is left out: one page is fetched to learn
/// that it has none.
pub proof fn lemma_pagination(
    t: Seq<EntryView>,
    target: RepositoryView,
    commits: Seq<CommitView>,
    size: nat,
    author: Seq<char>,
    since: Timestamp,
)
    requires
        well_formed(t),
        fits(t),
        size > 0,
        commits.len() > 0,
        flawless_commits(commits),
        fits(record_all(t, files_of_commits(commits))),
    ensures
        ({
            let repository = RecordedRepositoryView { target, pages: paginate(commits, size) };
            let w = walk_repository(t, repository, author, since);
            &&& w.outcome == Ok::<Seq<EntryView>, AggregationError>(
                record_all(t, files_of_commits(commits)),
            )
            &&& page_fetches(w.requests) == (commits.len() + size - 1) / (size as int)
            &&& visited(w.requests) == hashes(commits)
        }),
{
    let pages = paginate(commits, size);
    let inner = walk_pages(t, target, pages, true);
    let listing = seq![listing_request(target, author, since)];
    lemma_paginate(commits, size);
    lemma_walk_pages_accounts(t, target, pages, true);
    assert(pages.len() > 0) by {
        if commits.len() > size {
            assert(pages.first() == RecordedPageView::Commits(commits.take(size as int)));
        }
    }
    lemma_walk_pages_visits(t, target, pages, true);
    lemma_requests_concat(listing, inner.requests);
    lemma_single_request(listing_request(target, author, since));
    assert(visited(listing) + visited(inner.requests) =~= visited(inner.requests));
}

} // verus!
