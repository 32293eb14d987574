use commit_tracker::config::resolve;
use commit_tracker::engine::{AggregationError, Request, UpstreamQueryError};
use commit_tracker::history::{RecordedCommit, RecordedDetail, RecordedPage, RecordedRepository};
use commit_tracker::model::{FileChange, RepositoryRef, Timestamp};
use commit_tracker::pagination::cut_into_pages;
use commit_tracker::render::render;
use commit_tracker::aggregate::aggregate;
use commit_tracker::report::report;

const AUTHOR: &str = "cloud303-cholden";

fn cutoff() -> Timestamp {
    Timestamp { year: 2023, month: 1, day: 1, hour: 0, minute: 0, second: 0 }
}

fn commit(sha: &str, files: &[(&str, u64)]) -> RecordedCommit {
    RecordedCommit {
        sha: sha.to_string(),
        detail: RecordedDetail::Files(files.iter().map(|(name, changes)| FileChange::new(name, *changes)).collect()),
    }
}

fn paged(target: RepositoryRef, commits: &[RecordedCommit], size: usize) -> RecordedRepository {
    RecordedRepository { target, pages: cut_into_pages(&commits.to_vec(), size) }
}

fn page_fetches(requests: &[Request]) -> usize {
    requests.iter().filter(|request| !matches!(request, Request::CommitDetail { .. })).count()
}

fn visited(requests: &[Request]) -> Vec<String> {
    let mut shas = Vec::new();
    for request in requests {
        if let Request::CommitDetail { sha, .. } = request {
            shas.push(sha.clone());
        }
    }
    shas
}

fn text_lines(markup: &str) -> Vec<(String, String)> {
    let lines: Vec<&str> = markup.lines().collect();
    let mut found = Vec::new();
    for (i, line) in lines.iter().enumerate() {
        if line.starts_with("<text ") {
            found.push((line.to_string(), lines[i + 1].to_string()));
        }
    }
    found
}

#[test]
fn scenario_one_repository_two_commits() {
    let config = resolve(Some(r#"{"acme": ["webapp"]}"#), Some("token")).unwrap();
    assert_eq!(config.repositories, vec![RepositoryRef::new("acme", "webapp")]);
    let history = vec![RecordedRepository {
        target: config.repositories[0].clone(),
        pages: vec![RecordedPage::Commits(vec![
            commit("a", &[("main.go", 10), ("readme.md", 3)]),
            commit("b", &[("main.go", 5)]),
        ])],
    }];
    let aggregated = aggregate(&history, &config.author, config.since);
    let tally = aggregated.outcome.unwrap();
    assert_eq!(tally.len(), 1);
    assert_eq!(tally.extension_at(0), "go");
    assert_eq!(tally.total("md"), None);
    // The files counted under `go` changed 10 + 5 lines; the first of them is
    // counted twice.
    assert_eq!(tally.total("go"), Some(15 + 10));
    let markup = render(&tally);
    assert_eq!(
        text_lines(&markup),
        vec![(r#"<text class="description" x="25" y="18">"#.to_string(), "go: 25".to_string())]
    );
}

#[test]
fn scenario_two_repositories_with_disjoint_extensions() {
    let config = resolve(Some(r#"{"acme": ["engine", "scripts"]}"#), Some("token")).unwrap();
    let history = vec![
        RecordedRepository {
            target: config.repositories[0].clone(),
            pages: vec![RecordedPage::Commits(vec![commit("a", &[("src/lib.rs", 4)]), commit("b", &[("src/io.rs", 6)])])],
        },
        RecordedRepository {
            target: config.repositories[1].clone(),
            pages: vec![RecordedPage::Commits(vec![commit("c", &[("tool.py", 7)])])],
        },
    ];
    let tally = aggregate(&history, &config.author, config.since).outcome.unwrap();
    assert_eq!(tally.len(), 2);
    assert_eq!((tally.extension_at(0), tally.total_at(0)), ("rs", 14));
    assert_eq!((tally.extension_at(1), tally.total_at(1)), ("py", 14));
    assert_eq!(
        text_lines(&render(&tally)),
        vec![
            (r#"<text class="description" x="25" y="18">"#.to_string(), "rs: 14".to_string()),
            (r#"<text class="description" x="25" y="36">"#.to_string(), "py: 14".to_string()),
        ]
    );

    let swapped = vec![history[1].clone(), history[0].clone()];
    let tally = aggregate(&swapped, &config.author, config.since).outcome.unwrap();
    assert_eq!((tally.extension_at(0), tally.extension_at(1)), ("py", "rs"));
}

#[test]
fn scenario_detail_fetch_fails_mid_traversal() {
    let history = vec![
        RecordedRepository {
            target: RepositoryRef::new("acme", "one"),
            pages: vec![RecordedPage::Commits(vec![commit("a", &[("x.rs", 1)])])],
        },
        RecordedRepository {
            target: RepositoryRef::new("acme", "two"),
            pages: vec![RecordedPage::Commits(vec![
                commit("b", &[("y.rs", 2)]),
                commit("c", &[("z.py", 3)]),
                RecordedCommit { sha: "d".to_string(), detail: RecordedDetail::Failure },
                commit("e", &[("w.go", 4)]),
            ])],
        },
        RecordedRepository {
            target: RepositoryRef::new("acme", "three"),
            pages: vec![RecordedPage::Commits(vec![commit("f", &[("v.ts", 5)])])],
        },
    ];
    let aggregated = aggregate(&history, AUTHOR, cutoff());
    assert_eq!(aggregated.outcome, Err(AggregationError::Upstream(UpstreamQueryError::CommitDetail)));
    assert_eq!(visited(&aggregated.requests), vec!["a", "b", "c", "d"]);
    assert_eq!(page_fetches(&aggregated.requests), 2);
    assert_eq!(
        report(&history, AUTHOR, cutoff()),
        Err(AggregationError::Upstream(UpstreamQueryError::CommitDetail))
    );
}

#[test]
fn every_page_is_fetched_once_and_every_commit_visited_once() {
    let commits: Vec<RecordedCommit> =
        (0..23u64).map(|i| commit(&format!("sha{}", i), &[("a.rs", i), ("b.md", 1)])).collect();
    let shas: Vec<String> = commits.iter().map(|c| c.sha.clone()).collect();
    let whole = aggregate(&[paged(RepositoryRef::new("acme", "webapp"), &commits, 23)].to_vec(), AUTHOR, cutoff());
    let expected = whole.outcome.unwrap();
    assert_eq!(expected.total("rs"), Some((0..23).sum::<u64>()));
    for size in [1usize, 2, 3, 5, 7, 10, 11, 22, 23, 24, 100] {
        let history = vec![paged(RepositoryRef::new("acme", "webapp"), &commits, size)];
        let aggregated = aggregate(&history, AUTHOR, cutoff());
        assert_eq!(page_fetches(&aggregated.requests), (23 + size - 1) / size, "page size {}", size);
        assert_eq!(visited(&aggregated.requests), shas, "page size {}", size);
        assert_eq!(aggregated.outcome, Ok(expected.clone()), "page size {}", size);
    }
}

#[test]
fn commits_are_cut_into_full_pages_and_a_rest() {
    let commits: Vec<RecordedCommit> = (0..7u64).map(|i| commit(&format!("sha{}", i), &[("a.rs", i)])).collect();
    for size in 1..10usize {
        let expected: Vec<RecordedPage> =
            commits.chunks(size).map(|page| RecordedPage::Commits(page.to_vec())).collect();
        assert_eq!(cut_into_pages(&commits, size), expected, "page size {}", size);
        assert_eq!(expected.len(), (7 + size - 1) / size);
    }
    assert_eq!(cut_into_pages(&commits, 3).len(), 3);
    assert_eq!(cut_into_pages(&commits, 0), Vec::<RecordedPage>::new());
    assert_eq!(cut_into_pages(&Vec::new(), 5), Vec::<RecordedPage>::new());
}

#[test]
fn copy_of_a_recorded_commit_is_equal_to_it() {
    let with_files = commit("a", &[("x.rs", 1), ("y", 2)]);
    assert_eq!(with_files.duplicate(), with_files);
    let missing = RecordedCommit { sha: "b".to_string(), detail: RecordedDetail::MissingFiles };
    assert_eq!(missing.duplicate(), missing);
    let failing = RecordedCommit { sha: "c".to_string(), detail: RecordedDetail::Failure };
    assert_eq!(failing.duplicate(), failing);
}

#[test]
fn repository_without_commits_costs_one_page_fetch() {
    let history = vec![RecordedRepository { target: RepositoryRef::new("acme", "empty"), pages: vec![] }];
    let aggregated = aggregate(&history, AUTHOR, cutoff());
    assert_eq!(
        aggregated.requests,
        vec![Request::ListCommits {
            owner: "acme".to_string(),
            repository: "empty".to_string(),
            author: AUTHOR.to_string(),
            since: cutoff(),
            per_page: 100,
        }]
    );
    assert_eq!(aggregated.outcome.unwrap().len(), 0);
}

#[test]
fn requests_come_in_the_order_of_the_walk() {
    let history = vec![
        RecordedRepository {
            target: RepositoryRef::new("o", "r1"),
            pages: vec![
                RecordedPage::Commits(vec![commit("a", &[]), commit("b", &[])]),
                RecordedPage::Commits(vec![]),
                RecordedPage::Commits(vec![commit("c", &[])]),
            ],
        },
        RecordedRepository { target: RepositoryRef::new("o", "r2"), pages: vec![RecordedPage::Commits(vec![commit("d", &[])])] },
    ];
    let list = |name: &str| Request::ListCommits {
        owner: "o".to_string(),
        repository: name.to_string(),
        author: AUTHOR.to_string(),
        since: cutoff(),
        per_page: 100,
    };
    let detail = |name: &str, sha: &str| Request::CommitDetail {
        owner: "o".to_string(),
        repository: name.to_string(),
        sha: sha.to_string(),
    };
    assert_eq!(
        aggregate(&history, AUTHOR, cutoff()).requests,
        vec![
            list("r1"),
            detail("r1", "a"),
            detail("r1", "b"),
            Request::NextPage,
            Request::NextPage,
            detail("r1", "c"),
            list("r2"),
            detail("r2", "d"),
        ]
    );
}

#[test]
fn failed_listing_aborts_the_aggregation() {
    let history = vec![
        RecordedRepository { target: RepositoryRef::new("o", "r1"), pages: vec![RecordedPage::Failure] },
        RecordedRepository { target: RepositoryRef::new("o", "r2"), pages: vec![] },
    ];
    let aggregated = aggregate(&history, AUTHOR, cutoff());
    assert_eq!(aggregated.outcome, Err(AggregationError::Upstream(UpstreamQueryError::ListCommits)));
    assert_eq!(aggregated.requests.len(), 1);
}

#[test]
fn failed_further_page_aborts_the_aggregation() {
    let history = vec![RecordedRepository {
        target: RepositoryRef::new("o", "r1"),
        pages: vec![RecordedPage::Commits(vec![commit("a", &[("a.rs", 1)])]), RecordedPage::Failure],
    }];
    let aggregated = aggregate(&history, AUTHOR, cutoff());
    assert_eq!(aggregated.outcome, Err(AggregationError::Upstream(UpstreamQueryError::NextPage)));
    assert_eq!(aggregated.requests.len(), 3);
}

#[test]
fn missing_file_list_aborts_the_aggregation() {
    let history = vec![RecordedRepository {
        target: RepositoryRef::new("o", "r1"),
        pages: vec![RecordedPage::Commits(vec![
            commit("a", &[("a.rs", 1)]),
            RecordedCommit { sha: "b".to_string(), detail: RecordedDetail::MissingFiles },
        ])],
    }];
    assert_eq!(
        aggregate(&history, AUTHOR, cutoff()).outcome,
        Err(AggregationError::Upstream(UpstreamQueryError::MissingFileList))
    );
}

#[test]
fn overflow_aborts_the_aggregation() {
    let history = vec![RecordedRepository {
        target: RepositoryRef::new("o", "r1"),
        pages: vec![RecordedPage::Commits(vec![commit("a", &[("a.rs", u64::MAX)]), commit("b", &[("b.rs", 1)])])],
    }];
    let aggregated = aggregate(&history, AUTHOR, cutoff());
    assert_eq!(aggregated.outcome, Err(AggregationError::Overflow));
    assert_eq!(visited(&aggregated.requests), vec!["a"]);
}

#[test]
fn tally_of_an_aggregation_is_the_tally_of_all_files_in_order() {
    let history = vec![
        paged(
            RepositoryRef::new("o", "r1"),
            &[commit("a", &[("x.lua", 2), ("y.vue", 0)]), commit("b", &[("z.lua", 3)]), commit("c", &[("n", 9)])],
            2,
        ),
        paged(RepositoryRef::new("o", "r2"), &[commit("d", &[("w.vue", 8), ("v.ts", 1)])], 1),
    ];
    let files =
        vec![("x.lua", 2u64), ("y.vue", 0), ("z.lua", 3), ("n", 9), ("w.vue", 8), ("v.ts", 1)];
    let files: Vec<FileChange> = files.iter().map(|(name, changes)| FileChange::new(name, *changes)).collect();
    let direct = commit_tracker::tally::ExtensionTally::new().record_all(&files).unwrap();
    assert_eq!(aggregate(&history, AUTHOR, cutoff()).outcome, Ok(direct));
}

#[test]
fn rerunning_over_the_same_history_gives_the_same_document() {
    let history = vec![
        paged(
            RepositoryRef::new("o", "r1"),
            &[commit("a", &[("x.lua", 2), ("y.vue", 5)]), commit("b", &[("z.rs", 3)])],
            1,
        ),
        paged(RepositoryRef::new("o", "r2"), &[commit("c", &[("w.go", 8), ("v.ts", 1), ("u.py", 4)])], 1),
    ];
    let first = report(&history, AUTHOR, cutoff()).unwrap();
    let second = report(&history.clone(), AUTHOR, cutoff()).unwrap();
    assert_eq!(first, second);
    assert_eq!(first.body.as_bytes(), second.body.as_bytes());
    assert_eq!(text_lines(&first.body).len(), 6);
}
