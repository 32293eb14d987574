//! Aggregation over a recorded history: the engine is driven through it
//! request by request, and what comes out is the walk that the history
//! describes.

use vstd::prelude::*;
use crate::engine::{
    enter,
    initial,
    pending,
    settle,
    Action,
    ActionView,
    AggregationError,
    Engine,
    EngineView,
    Phase,
    Reply,
    ReplyView,
    Request,
    RequestView,
};
use crate::history::{
    detail_request,
    hashes,
    listing_request,
    walk,
    walk_commits,
    walk_pages,
    walk_repositories,
    walk_repository,
    DetailView,
    RecordedCommit,
    RecordedDetail,
    RecordedPage,
    RecordedRepository,
    RecordedRepositoryView,
    Walk,
};
use crate::model::{
    CommitDetail,
    copy_files,
    CommitSummary,
    Page,
    RepositoryRef,
    RepositoryView,
    Timestamp,
};
use crate::tally::{EntryView, ExtensionTally};

verus! {

/// What an aggregation gives: the tally, or the reason why there is none,
/// and the requests that the engine made, in order.
pub struct Aggregation {
    pub outcome: Result<ExtensionTally, AggregationError>,
    pub requests: Vec<Request>,
}

impl View for Aggregation {
    type V = Walk;

    open spec fn view(&self) -> Walk {
        Walk {
            outcome: match self.outcome {
                Ok(tally) => Ok(tally@),
                Err(error) => Err(error),
            },
            requests: self.requests.deep_view(),
        }
    }
}

/// The repositories that a history speaks of, in order.
pub open spec fn targets(history: Seq<RecordedRepositoryView>) -> Seq<RepositoryView> {
    history.map_values(|repository: RecordedRepositoryView| repository.target)
}

/// Whether two states belong to walks through the same repositories, for the
/// same author and time.
pub open spec fn same_walk(a: EngineView, b: EngineView) -> bool {
    a.repositories == b.repositories && a.author == b.author && a.since == b.since
}

/// The reply that a recorded detail stands for.
pub open spec fn reply_to_detail(detail: DetailView) -> ReplyView {
    match detail {
        DetailView::Files(files) => ReplyView::Detail(Some(files)),
        DetailView::MissingFiles => ReplyView::Detail(None),
        DetailView::Failure => ReplyView::Failure,
    }
}

fn summaries(commits: &Vec<RecordedCommit>) -> (listed: Vec<CommitSummary>)
    ensures
        listed.deep_view() == hashes(commits.deep_view()),
{
    let mut listed: Vec<CommitSummary> = Vec::new();
    let mut i: usize = 0;
    while i < commits.len()
        invariant
            i <= commits.len(),
            listed.len() == i,
            forall|j: int| 0 <= j < i ==> (#[trigger] listed[j])@ == commits[j].sha@,
        decreases commits.len() - i,
    {
        listed.push(CommitSummary { sha: commits[i].sha.clone() });
        i += 1;
    }
    listed
}

fn repositories_of(history: &Vec<RecordedRepository>) -> (repositories: Vec<RepositoryRef>)
    ensures
        repositories.deep_view() == targets(history.deep_view()),
{
    let mut repositories: Vec<RepositoryRef> = Vec::new();
    let mut i: usize = 0;
    while i < history.len()
        invariant
            i <= history.len(),
            repositories.len() == i,
            forall|j: int| 0 <= j < i ==> (#[trigger] repositories[j])@ == history[j].target@,
        decreases history.len() - i,
    {
        repositories.push(
            RepositoryRef {
                owner: history[i].target.owner.clone(),
                name: history[i].target.name.clone(),
            },
        );
        i += 1;
    }
    repositories
}

fn ask(engine: &Engine, requests: &mut Vec<Request>)
    requires
        engine.wf(),
        engine@.phase is Listing || engine@.phase is Detailing || engine@.phase is Paging,
    ensures
        pending(engine@) matches ActionView::Ask(request) && final(requests).deep_view() == old(
            requests,
        ).deep_view().push(request),
{
    match engine.pending() {
        Action::Ask(request) => {
            requests.push(request);
        },
        _ => {},
    }
}

fn answer(detail: &RecordedDetail) -> (reply: Reply)
    ensures
        reply@ == reply_to_detail(detail@),
{
    match detail {
        RecordedDetail::Files(files) => Reply::Detail(
            CommitDetail { files: Some(copy_files(files)) },
        ),
        RecordedDetail::MissingFiles => Reply::Detail(CommitDetail { files: None }),
        RecordedDetail::Failure => Reply::Failure,
    }
}

fn walk_through_commits(
    engine: &mut Engine,
    commits: &Vec<RecordedCommit>,
    requests: &mut Vec<Request>,
) -> (done: Result<(), AggregationError>)
    requires
        old(engine).wf(),
        old(engine)@.phase is Detailing,
        old(engine)@.commit == 0,
        old(engine)@.commits == hashes(commits.deep_view()),
    ensures
        final(engine).wf(),
        ({
            let start = old(engine)@;
            let w = walk_commits(
                start.tally,
                start.repositories[start.repository as int],
                commits.deep_view(),
            );
            &&& final(requests).deep_view() == old(requests).deep_view() + w.requests
            &&& match w.outcome {
                Ok(counted) => done is Ok && final(engine)@ == settle(
                    EngineView { commit: commits.len() as nat, tally: counted, ..start },
                ),
                Err(error) => done == Err::<(), AggregationError>(error) && final(engine)@.phase
                    == Phase::Aborted(error),
            }
        }),
{
    let ghost start = engine@;
    let ghost target = start.repositories[start.repository as int];
    let ghost all = commits.deep_view();
    let ghost whole = walk_commits(start.tally, target, all);
    let ghost before = requests.deep_view();
    let mut i: usize = 0;
    assert(all.skip(0) =~= all);
    while i < commits.len()
        invariant
            i <= commits.len(),
            all == commits.deep_view(),
            start == old(engine)@,
            before == old(requests).deep_view(),
            start.commits == hashes(all),
            start.repository < start.repositories.len(),
            target == start.repositories[start.repository as int],
            whole == walk_commits(start.tally, target, all),
            engine.wf(),
            engine@ == settle(EngineView { commit: i as nat, tally: engine@.tally, ..start }),
            whole.outcome == walk_commits(engine@.tally, target, all.skip(i as int)).outcome,
            before + whole.requests == requests.deep_view() + walk_commits(
                engine@.tally,
                target,
                all.skip(i as int),
            ).requests,
        decreases commits.len() - i,
    {
        let ghost rest = all.skip(i as int);
        assert(rest.drop_first() =~= all.skip(i + 1));
        ask(engine, requests);
        let action = engine.step(answer(&commits[i].detail));
        match action {
            Action::Abort(error) => {
                return Err(error);
            },
            _ => {},
        }
        i += 1;
    }
    Ok(())
}

fn walk_through_repository(
    engine: &mut Engine,
    repository: &RecordedRepository,
    requests: &mut Vec<Request>,
) -> (done: Result<(), AggregationError>)
    requires
        old(engine).wf(),
        old(engine)@.phase is Listing,
        old(engine)@.repositories[old(engine)@.repository as int] == repository@.target,
    ensures
        final(engine).wf(),
        ({
            let start = old(engine)@;
            let w = walk_repository(start.tally, repository@, start.author, start.since);
            &&& final(requests).deep_view() == old(requests).deep_view() + w.requests
            &&& match w.outcome {
                Ok(counted) => done is Ok && final(engine)@ == enter(
                    EngineView { tally: counted, ..start },
                    start.repository + 1,
                ),
                Err(error) => done == Err::<(), AggregationError>(error) && final(engine)@.phase
                    == Phase::Aborted(error),
            }
        }),
{
    let ghost start = engine@;
    let ghost target = repository@.target;
    let ghost pages = repository.pages.deep_view();
    let ghost whole = walk_pages(start.tally, target, pages, true);
    let ghost before = requests.deep_view();
    ask(engine, requests);
    let ghost listing = listing_request(target, start.author, start.since);
    let ghost listed = requests.deep_view();
    let n = repository.pages.len();
    if n == 0 {
        let empty = Page { commits: Vec::new(), has_next: false };
        engine.step(Reply::Commits(empty));
        return Ok(());
    }
    let mut p: usize = 0;
    assert(pages.skip(0) =~= pages);
    while p < n
        invariant
            p < n,
            n == repository.pages.len(),
            pages == repository.pages.deep_view(),
            target == repository@.target,
            start == old(engine)@,
            before == old(requests).deep_view(),
            listing == listing_request(target, start.author, start.since),
            listed == before.push(listing),
            whole == walk_pages(start.tally, target, pages, true),
            start.repository < start.repositories.len(),
            start.repositories[start.repository as int] == target,
            engine.wf(),
            engine@.phase == (if p == 0 {
                Phase::Listing
            } else {
                Phase::Paging
            }),
            engine@.repository == start.repository,
            same_walk(engine@, start),
            whole.outcome == walk_pages(engine@.tally, target, pages.skip(p as int), p == 0).outcome,
            listed + whole.requests == requests.deep_view() + walk_pages(
                engine@.tally,
                target,
                pages.skip(p as int),
                p == 0,
            ).requests,
        decreases n - p,
    {
        let ghost rest = pages.skip(p as int);
        assert(rest.drop_first() =~= pages.skip(p + 1));
        match &repository.pages[p] {
            RecordedPage::Failure => {
                engine.step(Reply::Failure);
                return Err(engine.failure().unwrap());
            },
            RecordedPage::Commits(commits) => {
                let page = Page { commits: summaries(commits), has_next: p + 1 < n };
                let reply = if p == 0 {
                    Reply::Commits(page)
                } else {
                    Reply::NextPage(Some(page))
                };
                engine.step(reply);
                if commits.len() > 0 {
                    match walk_through_commits(engine, commits, requests) {
                        Err(error) => {
                            return Err(error);
                        },
                        Ok(()) => {},
                    }
                }
                if p + 1 < n {
                    let ghost turned = requests.deep_view();
                    requests.push(Request::NextPage);
                    assert(requests.deep_view() =~= turned.push(RequestView::NextPage));
                    p += 1;
                } else {
                    return Ok(());
                }
            },
        }
    }
    Ok(())
}

/// Aggregates the changes of a recorded history.
///
/// The engine is asked what is due, the history answers, and so on until the
/// engine finishes or gives up. The result is the walk that the history
/// describes: see [`walk`].
pub fn aggregate(history: &Vec<RecordedRepository>, author: &str, since: Timestamp) -> (aggregated:
    Aggregation)
    ensures
        aggregated@ == walk(history.deep_view(), author@, since),
        aggregated.outcome matches Ok(tally) ==> tally.wf(),
{
    let ghost all = history.deep_view();
    let ghost whole = walk(all, author@, since);
    let mut engine = Engine::new(repositories_of(history), author.to_owned(), since);
    let ghost begin = engine@;
    let mut requests: Vec<Request> = Vec::new();
    let mut i: usize = 0;
    assert(all.skip(0) =~= all);
    while i < history.len()
        invariant
            i <= history.len(),
            all == history.deep_view(),
            whole == walk(all, author@, since),
            begin == initial(targets(all), author@, since),
            engine.wf(),
            engine@ == enter(EngineView { tally: engine@.tally, ..begin }, i as nat),
            whole.outcome == walk_repositories(
                engine@.tally,
                all.skip(i as int),
                author@,
                since,
            ).outcome,
            whole.requests == requests.deep_view() + walk_repositories(
                engine@.tally,
                all.skip(i as int),
                author@,
                since,
            ).requests,
        decreases history.len() - i,
    {
        let ghost rest = all.skip(i as int);
        assert(rest.drop_first() =~= all.skip(i + 1));
        match walk_through_repository(&mut engine, &history[i], &mut requests) {
            Err(error) => {
                return Aggregation { outcome: Err(error), requests };
            },
            Ok(()) => {},
        }
        i += 1;
    }
    Aggregation { outcome: Ok(engine.into_tally().unwrap()), requests }
}

} // verus!
