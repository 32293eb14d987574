use commit_tracker::engine::{
    Action, AggregationError, Engine, Phase, Reply, Request, UpstreamQueryError, PAGE_SIZE,
};
use commit_tracker::model::{CommitDetail, CommitSummary, FileChange, Page, RepositoryRef, Timestamp};

fn cutoff() -> Timestamp {
    Timestamp { year: 2023, month: 1, day: 1, hour: 0, minute: 0, second: 0 }
}

fn engine_for(repositories: &[(&str, &str)]) -> Engine {
    let repositories = repositories.iter().map(|(owner, name)| RepositoryRef::new(owner, name)).collect();
    Engine::new(repositories, "cloud303-cholden".to_string(), cutoff())
}

fn page(shas: &[&str], has_next: bool) -> Page {
    Page { commits: shas.iter().map(|sha| CommitSummary::new(sha)).collect(), has_next }
}

fn detail(files: &[(&str, u64)]) -> Reply {
    Reply::Detail(CommitDetail {
        files: Some(files.iter().map(|(name, changes)| FileChange::new(name, *changes)).collect()),
    })
}

fn listing(owner: &str, repository: &str) -> Action {
    Action::Ask(Request::ListCommits {
        owner: owner.to_string(),
        repository: repository.to_string(),
        author: "cloud303-cholden".to_string(),
        since: cutoff(),
        per_page: 100,
    })
}

fn asking_detail(owner: &str, repository: &str, sha: &str) -> Action {
    Action::Ask(Request::CommitDetail {
        owner: owner.to_string(),
        repository: repository.to_string(),
        sha: sha.to_string(),
    })
}

fn upstream(error: UpstreamQueryError) -> Action {
    Action::Abort(AggregationError::Upstream(error))
}

#[test]
fn engine_stays_consistent_along_a_walk() {
    let mut engine = engine_for(&[("acme", "webapp"), ("acme", "tools")]);
    assert!(engine.is_consistent());
    for reply in [
        Reply::Commits(page(&["a1", "b2"], true)),
        detail(&[("main.go", 10)]),
        detail(&[("x.rs", 1)]),
        Reply::NextPage(None),
        Reply::Commits(page(&[], false)),
        Reply::Failure,
    ] {
        engine.step(reply);
        assert!(engine.is_consistent());
    }
    assert!(engine.is_finished());
}

#[test]
fn engine_with_counters_out_of_place_is_not_consistent() {
    let mut engine = engine_for(&[("acme", "webapp")]);
    engine.repository = 1;
    assert!(!engine.is_consistent());

    let mut engine = engine_for(&[("acme", "webapp")]);
    engine.phase = Phase::Detailing;
    assert!(!engine.is_consistent());

    let mut engine = engine_for(&[("acme", "webapp")]);
    engine.phase = Phase::Finished;
    assert!(!engine.is_consistent());

    let mut engine = engine_for(&[("acme", "webapp")]);
    engine.step(Reply::Commits(page(&["a1"], false)));
    engine.step(detail(&[("x.rs", 1)]));
    engine.phase = Phase::Aborted(AggregationError::Overflow);
    assert!(!engine.is_consistent());
}

#[test]
fn page_size_is_one_hundred() {
    assert_eq!(PAGE_SIZE, 100);
}

#[test]
fn walk_without_repositories_is_finished_at_once() {
    let engine = engine_for(&[]);
    assert_eq!(engine.pending(), Action::Finish);
    assert!(engine.is_finished());
    assert_eq!(engine.into_tally().unwrap().len(), 0);
}

#[test]
fn walk_begins_by_listing_the_first_repository() {
    let engine = engine_for(&[("acme", "webapp"), ("acme", "tools")]);
    assert_eq!(engine.pending(), listing("acme", "webapp"));
    assert!(!engine.is_finished());
    assert_eq!(engine.failure(), None);
}

#[test]
fn commits_of_a_page_are_detailed_in_listed_order() {
    let mut engine = engine_for(&[("acme", "webapp")]);
    assert_eq!(engine.step(Reply::Commits(page(&["a1", "b2"], false))), asking_detail("acme", "webapp", "a1"));
    assert_eq!(engine.step(detail(&[("main.go", 10)])), asking_detail("acme", "webapp", "b2"));
    assert_eq!(engine.step(detail(&[("main.go", 5)])), Action::Finish);
    let tally = engine.into_tally().unwrap();
    assert_eq!(tally.total("go"), Some(25));
}

#[test]
fn next_page_is_fetched_only_when_announced() {
    let mut engine = engine_for(&[("acme", "webapp"), ("acme", "tools")]);
    assert_eq!(engine.step(Reply::Commits(page(&["a1"], true))), asking_detail("acme", "webapp", "a1"));
    assert_eq!(engine.step(detail(&[])), Action::Ask(Request::NextPage));
    assert_eq!(engine.step(Reply::NextPage(Some(page(&["b2"], false)))), asking_detail("acme", "webapp", "b2"));
    assert_eq!(engine.step(detail(&[])), listing("acme", "tools"));
}

#[test]
fn empty_page_moves_on() {
    let mut engine = engine_for(&[("acme", "webapp"), ("acme", "tools")]);
    assert_eq!(engine.step(Reply::Commits(page(&[], true))), Action::Ask(Request::NextPage));
    assert_eq!(engine.step(Reply::NextPage(Some(page(&[], false)))), listing("acme", "tools"));
    assert_eq!(engine.step(Reply::Commits(page(&[], false))), Action::Finish);
}

#[test]
fn cursor_that_leads_nowhere_ends_the_repository() {
    let mut engine = engine_for(&[("acme", "webapp"), ("acme", "tools")]);
    engine.step(Reply::Commits(page(&[], true)));
    assert_eq!(engine.step(Reply::NextPage(None)), listing("acme", "tools"));
}

#[test]
fn tally_is_shared_across_repositories() {
    let mut engine = engine_for(&[("acme", "one"), ("acme", "two")]);
    engine.step(Reply::Commits(page(&["a"], false)));
    assert_eq!(engine.step(detail(&[("x.rs", 1), ("y.py", 2)])), listing("acme", "two"));
    engine.step(Reply::Commits(page(&["b"], false)));
    assert_eq!(engine.step(detail(&[("z.rs", 3), ("w.md", 9)])), Action::Finish);
    let tally = engine.into_tally().unwrap();
    assert_eq!(tally.total("rs"), Some(5));
    assert_eq!(tally.total("py"), Some(4));
    assert_eq!(tally.len(), 2);
}

#[test]
fn failed_listing_gives_the_walk_up() {
    let mut engine = engine_for(&[("acme", "webapp")]);
    assert_eq!(engine.step(Reply::Failure), upstream(UpstreamQueryError::ListCommits));
    assert_eq!(engine.failure(), Some(AggregationError::Upstream(UpstreamQueryError::ListCommits)));
    assert_eq!(engine.into_tally(), None);
}

#[test]
fn failed_detail_gives_the_walk_up() {
    let mut engine = engine_for(&[("acme", "webapp")]);
    engine.step(Reply::Commits(page(&["a1", "b2"], false)));
    engine.step(detail(&[("main.go", 10)]));
    assert_eq!(engine.step(Reply::Failure), upstream(UpstreamQueryError::CommitDetail));
    assert_eq!(engine.tally.len(), 0);
    assert_eq!(engine.into_tally(), None);
}

#[test]
fn failed_next_page_gives_the_walk_up() {
    let mut engine = engine_for(&[("acme", "webapp")]);
    engine.step(Reply::Commits(page(&[], true)));
    assert_eq!(engine.step(Reply::Failure), upstream(UpstreamQueryError::NextPage));
}

#[test]
fn detail_without_file_list_gives_the_walk_up() {
    let mut engine = engine_for(&[("acme", "webapp")]);
    engine.step(Reply::Commits(page(&["a1"], false)));
    assert_eq!(
        engine.step(Reply::Detail(CommitDetail { files: None })),
        upstream(UpstreamQueryError::MissingFileList)
    );
}

#[test]
fn reply_of_the_wrong_kind_gives_the_walk_up() {
    let mut engine = engine_for(&[("acme", "webapp")]);
    assert_eq!(engine.step(detail(&[])), upstream(UpstreamQueryError::UnexpectedReply));

    let mut engine = engine_for(&[("acme", "webapp")]);
    assert_eq!(engine.step(Reply::NextPage(None)), upstream(UpstreamQueryError::UnexpectedReply));

    let mut engine = engine_for(&[("acme", "webapp")]);
    engine.step(Reply::Commits(page(&["a1"], false)));
    assert_eq!(engine.step(Reply::Commits(page(&[], false))), upstream(UpstreamQueryError::UnexpectedReply));

    let mut engine = engine_for(&[("acme", "webapp")]);
    engine.step(Reply::Commits(page(&[], true)));
    assert_eq!(engine.step(Reply::Commits(page(&[], false))), upstream(UpstreamQueryError::UnexpectedReply));
    assert_eq!(engine.step(detail(&[])), upstream(UpstreamQueryError::UnexpectedReply));
}

#[test]
fn overflow_gives_the_walk_up() {
    let mut engine = engine_for(&[("acme", "webapp")]);
    engine.step(Reply::Commits(page(&["a1", "b2"], false)));
    engine.step(detail(&[("a.rs", 1)]));
    assert_eq!(engine.step(detail(&[("b.rs", u64::MAX)])), Action::Abort(AggregationError::Overflow));
    assert_eq!(engine.phase, Phase::Aborted(AggregationError::Overflow));
    assert_eq!(engine.tally.len(), 0);
}

#[test]
fn finished_walk_stays_finished() {
    let mut engine = engine_for(&[("acme", "webapp")]);
    assert_eq!(engine.step(Reply::Commits(page(&[], false))), Action::Finish);
    assert_eq!(engine.step(Reply::Failure), Action::Finish);
    assert_eq!(engine.step(detail(&[("a.rs", 1)])), Action::Finish);
    assert_eq!(engine.into_tally().unwrap().len(), 0);
}

#[test]
fn abandoned_walk_stays_abandoned() {
    let mut engine = engine_for(&[("acme", "webapp")]);
    engine.step(Reply::Failure);
    assert_eq!(engine.step(Reply::Commits(page(&[], false))), upstream(UpstreamQueryError::ListCommits));
    assert_eq!(engine.step(Reply::Failure), upstream(UpstreamQueryError::ListCommits));
}

#[test]
fn unfinished_walk_has_no_tally_to_show() {
    let mut engine = engine_for(&[("acme", "webapp")]);
    engine.step(Reply::Commits(page(&["a1"], false)));
    assert!(!engine.is_finished());
    assert_eq!(engine.into_tally(), None);
}
