//! The aggregation engine: a walk through the commit histories of a list of
//! repositories, one request at a time.
//!
//! The engine never talks to the upstream itself. It says which request is
//! due, takes the reply, and says which request is due next, until the walk
//! is finished or has to be given up. Whoever drives it performs the requests.

use vstd::prelude::*;
use crate::model::{
    CommitDetail,
    CommitSummary,
    FileChange,
    FileChangeView,
    Page,
    PageView,
    RepositoryRef,
    RepositoryView,
    Timestamp,
};
use crate::tally::{
    extends,
    fits,
    lemma_record_all_extends,
    record_all,
    well_formed,
    EntryView,
    ExtensionTally,
};

verus! {

/// The number of commits asked for per page.
pub const PAGE_SIZE: u8 = 100;

/// What went wrong at the upstream.
#[derive(Debug, Clone, Copy, PartialEq, Eq, Structural)]
pub enum UpstreamQueryError {
    /// The first page of a repository's commits could not be listed.
    ListCommits,
    /// The detail of a commit could not be fetched.
    CommitDetail,
    /// A further page of commits could not be fetched.
    NextPage,
    /// The detail of a commit came without its list of files.
    MissingFileList,
    /// The reply does not answer the request that was due.
    UnexpectedReply,
}

/// Why a walk was given up.
#[derive(Debug, Clone, Copy, PartialEq, Eq, Structural)]
pub enum AggregationError {
    Upstream(UpstreamQueryError),
    /// A total left the range of 64 bits.
    Overflow,
}

/// Where the engine stands.
#[derive(Debug, Clone, Copy, PartialEq, Eq, Structural)]
pub enum Phase {
    /// The first page of the current repository is awaited.
    Listing,
    /// The detail of the current commit is awaited.
    Detailing,
    /// The page after the current one is awaited.
    Paging,
    /// Every repository has been walked.
    Finished,
    /// The walk was given up.
    Aborted(AggregationError),
}

/// A request to the upstream.
#[derive(Debug, Clone, PartialEq, Eq)]
pub enum Request {
    /// List the commits of a repository by one author since a point in time,
    /// first page.
    ListCommits { owner: String, repository: String, author: String, since: Timestamp, per_page: u8 },
    /// Fetch the detail of one commit.
    CommitDetail { owner: String, repository: String, sha: String },
    /// Follow the cursor of the page delivered last.
    NextPage,
}

/// What a [`Request`] says, as mathematics.
pub enum RequestView {
    ListCommits {
        owner: Seq<char>,
        repository: Seq<char>,
        author: Seq<char>,
        since: Timestamp,
        per_page: nat,
    },
    CommitDetail { owner: Seq<char>, repository: Seq<char>, sha: Seq<char> },
    NextPage,
}

impl View for Request {
    type V = RequestView;

    open spec fn view(&self) -> RequestView {
        match self {
            Request::ListCommits { owner, repository, author, since, per_page } => {
                RequestView::ListCommits {
                    owner: owner@,
                    repository: repository@,
                    author: author@,
                    since: *since,
                    per_page: *per_page as nat,
                }
            },
            Request::CommitDetail { owner, repository, sha } => RequestView::CommitDetail {
                owner: owner@,
                repository: repository@,
                sha: sha@,
            },
            Request::NextPage => RequestView::NextPage,
        }
    }
}

impl DeepView for Request {
    type V = RequestView;

    open spec fn deep_view(&self) -> RequestView {
        self@
    }
}

/// What came back from the upstream.
#[derive(Debug, Clone, PartialEq, Eq)]
pub enum Reply {
    /// The first page of a listing.
    Commits(Page),
    /// The detail of a commit.
    Detail(CommitDetail),
    /// The page behind a cursor, or nothing where the cursor led nowhere.
    NextPage(Option<Page>),
    /// The request failed.
    Failure,
}

/// What a [`Reply`] says, as mathematics.
pub enum ReplyView {
    Commits(PageView),
    Detail(Option<Seq<FileChangeView>>),
    NextPage(Option<PageView>),
    Failure,
}

impl View for Reply {
    type V = ReplyView;

    open spec fn view(&self) -> ReplyView {
        match self {
            Reply::Commits(page) => ReplyView::Commits(page@),
            Reply::Detail(detail) => ReplyView::Detail(detail@),
            Reply::NextPage(Some(page)) => ReplyView::NextPage(Some(page@)),
            Reply::NextPage(None) => ReplyView::NextPage(None),
            Reply::Failure => ReplyView::Failure,
        }
    }
}

/// What the engine wants done next.
#[derive(Debug, Clone, PartialEq, Eq)]
pub enum Action {
    /// Perform the request and hand the reply to [`Engine::step`].
    Ask(Request),
    /// The walk is finished: the tally is complete.
    Finish,
    /// The walk was given up: there is no tally.
    Abort(AggregationError),
}

/// What an [`Action`] says, as mathematics.
pub enum ActionView {
    Ask(RequestView),
    Finish,
    Abort(AggregationError),
}

impl View for Action {
    type V = ActionView;

    open spec fn view(&self) -> ActionView {
        match self {
            Action::Ask(request) => ActionView::Ask(request@),
            Action::Finish => ActionView::Finish,
            Action::Abort(error) => ActionView::Abort(*error),
        }
    }
}

/// The state of a walk, as mathematics.
pub struct EngineView {
    /// The repositories to walk, in order.
    pub repositories: Seq<RepositoryView>,
    /// The author whose commits are listed.
    pub author: Seq<char>,
    /// The time from which on commits are listed.
    pub since: Timestamp,
    pub phase: Phase,
    /// The number of repositories that are done.
    pub repository: nat,
    /// The hashes of the commits of the current page.
    pub commits: Seq<Seq<char>>,
    /// Whether the current page announces a further one.
    pub has_next: bool,
    /// The number of commits of the current page that are done.
    pub commit: nat,
    pub tally: Seq<EntryView>,
}

/// The state in which repository number `repository` is begun, or the walk
/// finished if there is no such repository.
pub open spec fn enter(s: EngineView, repository: nat) -> EngineView {
    EngineView {
        phase: if repository < s.repositories.len() {
            Phase::Listing
        } else {
            Phase::Finished
        },
        repository,
        commits: Seq::empty(),
        has_next: false,
        commit: 0,
        ..s
    }
}

/// Where the walk goes on from a page of which `s.commit` commits are done:
/// to the next commit of the page, else to the page that it announces, else
/// to the next repository.
pub open spec fn settle(s: EngineView) -> EngineView {
    if s.commit < s.commits.len() {
        EngineView { phase: Phase::Detailing, ..s }
    } else if s.has_next {
        EngineView { phase: Phase::Paging, ..s }
    } else {
        enter(s, s.repository + 1)
    }
}

/// The state after a page has come in.
pub open spec fn open_page(s: EngineView, page: PageView) -> EngineView {
    settle(EngineView { commits: page.commits, has_next: page.has_next, commit: 0, ..s })
}

/// The state after the walk was given up: nothing of the tally is kept.
pub open spec fn abort(s: EngineView, error: AggregationError) -> EngineView {
    EngineView { phase: Phase::Aborted(error), tally: Seq::empty(), ..s }
}

/// The state after the files of the current commit have come in.
pub open spec fn count_commit(s: EngineView, files: Seq<FileChangeView>) -> EngineView {
    if fits(record_all(s.tally, files)) {
        settle(EngineView { tally: record_all(s.tally, files), commit: s.commit + 1, ..s })
    } else {
        abort(s, AggregationError::Overflow)
    }
}

/// The state after a reply.
///
/// Any failure gives the walk up. So does a reply of the wrong kind and a
/// commit detail without its list of files. A finished or abandoned walk
/// stays as it is.
pub open spec fn step(s: EngineView, reply: ReplyView) -> EngineView {
    match s.phase {
        Phase::Listing => match reply {
            ReplyView::Commits(page) => open_page(s, page),
            ReplyView::Failure => abort(
                s,
                AggregationError::Upstream(UpstreamQueryError::ListCommits),
            ),
            _ => abort(s, AggregationError::Upstream(UpstreamQueryError::UnexpectedReply)),
        },
        Phase::Detailing => match reply {
            ReplyView::Detail(Some(files)) => count_commit(s, files),
            ReplyView::Detail(None) => abort(
                s,
                AggregationError::Upstream(UpstreamQueryError::MissingFileList),
            ),
            ReplyView::Failure => abort(
                s,
                AggregationError::Upstream(UpstreamQueryError::CommitDetail),
            ),
            _ => abort(s, AggregationError::Upstream(UpstreamQueryError::UnexpectedReply)),
        },
        Phase::Paging => match reply {
            ReplyView::NextPage(Some(page)) => open_page(s, page),
            ReplyView::NextPage(None) => enter(s, s.repository + 1),
            ReplyView::Failure => abort(s, AggregationError::Upstream(UpstreamQueryError::NextPage)),
            _ => abort(s, AggregationError::Upstream(UpstreamQueryError::UnexpectedReply)),
        },
        Phase::Finished => s,
        Phase::Aborted(_) => s,
    }
}

/// What is due in a state.
pub open spec fn pending(s: EngineView) -> ActionView {
    match s.phase {
        Phase::Listing => ActionView::Ask(
            RequestView::ListCommits {
                owner: s.repositories[s.repository as int].owner,
                repository: s.repositories[s.repository as int].name,
                author: s.author,
                since: s.since,
                per_page: PAGE_SIZE as nat,
            },
        ),
        Phase::Detailing => ActionView::Ask(
            RequestView::CommitDetail {
                owner: s.repositories[s.repository as int].owner,
                repository: s.repositories[s.repository as int].name,
                sha: s.commits[s.commit as int],
            },
        ),
        Phase::Paging => ActionView::Ask(RequestView::NextPage),
        Phase::Finished => ActionView::Finish,
        Phase::Aborted(error) => ActionView::Abort(error),
    }
}

/// The states that a walk can be in: the counters point at what the phase
/// speaks of, and the tally is well formed.
pub open spec fn consistent(s: EngineView) -> bool {
    &&& well_formed(s.tally)
    &&& s.repository <= s.repositories.len()
    &&& match s.phase {
        Phase::Listing => s.repository < s.repositories.len(),
        Phase::Detailing => s.repository < s.repositories.len() && s.commit < s.commits.len(),
        Phase::Paging => s.repository < s.repositories.len() && s.commit == s.commits.len()
            && s.has_next,
        Phase::Finished => s.repository == s.repositories.len(),
        Phase::Aborted(_) => s.tally.len() == 0,
    }
}

/// The state in which a walk begins.
pub open spec fn initial(
    repositories: Seq<RepositoryView>,
    author: Seq<char>,
    since: Timestamp,
) -> EngineView {
    EngineView {
        repositories,
        author,
        since,
        phase: if repositories.len() > 0 {
            Phase::Listing
        } else {
            Phase::Finished
        },
        repository: 0,
        commits: Seq::empty(),
        has_next: false,
        commit: 0,
        tally: Seq::empty(),
    }
}

/// Every step leads from a consistent state to a consistent state.
pub proof fn lemma_step_consistent(s: EngineView, reply: ReplyView)
    requires
        consistent(s),
    ensures
        consistent(step(s, reply)),
{
    match s.phase {
        Phase::Detailing => match reply {
            ReplyView::Detail(Some(files)) => {
                lemma_record_all_extends(s.tally, files);
            },
            _ => {},
        },
        _ => {},
    }
}

/// A step never takes anything back: unless the walk is given up, the tally
/// after the step continues the tally before it.
pub proof fn lemma_step_keeps_counts(s: EngineView, reply: ReplyView)
    requires
        consistent(s),
        !(step(s, reply).phase is Aborted),
    ensures
        extends(step(s, reply).tally, s.tally),
{
    match s.phase {
        Phase::Detailing => match reply {
            ReplyView::Detail(Some(files)) => {
                lemma_record_all_extends(s.tally, files);
            },
            _ => {},
        },
        _ => {},
    }
}

/// A walk through the histories of a list of repositories.
pub struct Engine {
    pub repositories: Vec<RepositoryRef>,
    pub author: String,
    pub since: Timestamp,
    pub phase: Phase,
    pub repository: usize,
    pub commits: Vec<CommitSummary>,
    pub has_next: bool,
    pub commit: usize,
    pub tally: ExtensionTally,
}

impl View for Engine {
    type V = EngineView;

    open spec fn view(&self) -> EngineView {
        EngineView {
            repositories: self.repositories.deep_view(),
            author: self.author@,
            since: self.since,
            phase: self.phase,
            repository: self.repository as nat,
            commits: self.commits.deep_view(),
            has_next: self.has_next,
            commit: self.commit as nat,
            tally: self.tally@,
        }
    }
}

impl Engine {
    /// The invariant of an engine: see [`consistent`].
    pub open spec fn wf(&self) -> bool {
        consistent(self@)
    }

    /// An engine at the start of its walk.
    pub fn new(repositories: Vec<RepositoryRef>, author: String, since: Timestamp) -> (engine:
        Engine)
        ensures
            engine.wf(),
            engine@ == initial(repositories.deep_view(), author@, since),
    {
        let phase = if repositories.len() > 0 {
            Phase::Listing
        } else {
            Phase::Finished
        };
        let engine = Engine {
            repositories,
            author,
            since,
            phase,
            repository: 0,
            commits: Vec::new(),
            has_next: false,
            commit: 0,
            tally: ExtensionTally::new(),
        };
        assert(engine.commits.deep_view() =~= Seq::<Seq<char>>::empty());
        engine
    }

    /// Whether the engine is in a state that a walk can be in. An engine that
    /// was made by [`new`] and changed by [`step`] always is.
    ///
    /// [`new`]: Engine::new
    /// [`step`]: Engine::step
    pub fn is_consistent(&self) -> (ok: bool)
        ensures
            ok == self.wf(),
    {
        let repositories = self.repositories.len();
        let commits = self.commits.len();
        if !self.tally.is_well_formed() || self.repository > repositories {
            return false;
        }
        match self.phase {
            Phase::Listing => self.repository < repositories,
            Phase::Detailing => self.repository < repositories && self.commit < commits,
            Phase::Paging => self.repository < repositories && self.commit == commits
                && self.has_next,
            Phase::Finished => self.repository == repositories,
            Phase::Aborted(_) => self.tally.len() == 0,
        }
    }

    /// What is due now.
    pub fn pending(&self) -> (action: Action)
        requires
            self.wf(),
        ensures
            action@ == pending(self@),
    {
        match self.phase {
            Phase::Listing => {
                let target = &self.repositories[self.repository];
                Action::Ask(
                    Request::ListCommits {
                        owner: target.owner.clone(),
                        repository: target.name.clone(),
                        author: self.author.clone(),
                        since: self.since,
                        per_page: PAGE_SIZE,
                    },
                )
            },
            Phase::Detailing => {
                let target = &self.repositories[self.repository];
                Action::Ask(
                    Request::CommitDetail {
                        owner: target.owner.clone(),
                        repository: target.name.clone(),
                        sha: self.commits[self.commit].sha.clone(),
                    },
                )
            },
            Phase::Paging => Action::Ask(Request::NextPage),
            Phase::Finished => Action::Finish,
            Phase::Aborted(error) => Action::Abort(error),
        }
    }

    fn give_up(&mut self, error: AggregationError)
        requires
            old(self).wf(),
        ensures
            final(self).wf(),
            final(self)@ == abort(old(self)@, error),
    {
        self.phase = Phase::Aborted(error);
        self.tally = ExtensionTally::new();
    }

    fn begin_next_repository(&mut self)
        requires
            well_formed(old(self)@.tally),
            old(self)@.repository < old(self)@.repositories.len(),
        ensures
            final(self).wf(),
            final(self)@ == enter(old(self)@, old(self)@.repository + 1),
    {
        assert(self.repositories.deep_view().len() == self.repositories.len());
        self.repository = self.repository + 1;
        self.commits = Vec::new();
        self.has_next = false;
        self.commit = 0;
        self.phase = if self.repository < self.repositories.len() {
            Phase::Listing
        } else {
            Phase::Finished
        };
        assert(self.commits.deep_view() =~= Seq::<Seq<char>>::empty());
    }

    fn go_on(&mut self)
        requires
            well_formed(old(self)@.tally),
            old(self)@.repository < old(self)@.repositories.len(),
            old(self)@.commit <= old(self)@.commits.len(),
        ensures
            final(self).wf(),
            final(self)@ == settle(old(self)@),
    {
        if self.commit < self.commits.len() {
            self.phase = Phase::Detailing;
        } else if self.has_next {
            self.phase = Phase::Paging;
        } else {
            self.begin_next_repository();
        }
    }

    fn turn_to(&mut self, page: Page)
        requires
            well_formed(old(self)@.tally),
            old(self)@.repository < old(self)@.repositories.len(),
        ensures
            final(self).wf(),
            final(self)@ == open_page(old(self)@, page@),
    {
        self.commits = page.commits;
        self.has_next = page.has_next;
        self.commit = 0;
        self.go_on();
    }

    fn count(&mut self, files: &Vec<FileChange>)
        requires
            old(self).wf(),
            old(self).phase is Detailing,
        ensures
            final(self).wf(),
            final(self)@ == count_commit(old(self)@, files.deep_view()),
    {
        let mut tally = ExtensionTally::new();
        core::mem::swap(&mut tally, &mut self.tally);
        match tally.record_all(files) {
            Ok(counted) => {
                self.tally = counted;
                assert(self.commits.deep_view().len() == self.commits.len());
                self.commit = self.commit + 1;
                self.go_on();
            },
            Err(_) => {
                self.phase = Phase::Aborted(AggregationError::Overflow);
            },
        }
    }

    /// Takes the reply to the request that was due and says what is due next.
    pub fn step(&mut self, reply: Reply) -> (action: Action)
        requires
            old(self).wf(),
        ensures
            final(self).wf(),
            final(self)@ == step(old(self)@, reply@),
            action@ == pending(final(self)@),
    {
        match self.phase {
            Phase::Listing => match reply {
                Reply::Commits(page) => self.turn_to(page),
                Reply::Failure => self.give_up(
                    AggregationError::Upstream(UpstreamQueryError::ListCommits),
                ),
                _ => self.give_up(AggregationError::Upstream(UpstreamQueryError::UnexpectedReply)),
            },
            Phase::Detailing => match reply {
                Reply::Detail(detail) => match detail.files {
                    Some(files) => self.count(&files),
                    None => self.give_up(
                        AggregationError::Upstream(UpstreamQueryError::MissingFileList),
                    ),
                },
                Reply::Failure => self.give_up(
                    AggregationError::Upstream(UpstreamQueryError::CommitDetail),
                ),
                _ => self.give_up(AggregationError::Upstream(UpstreamQueryError::UnexpectedReply)),
            },
            Phase::Paging => match reply {
                Reply::NextPage(Some(page)) => self.turn_to(page),
                Reply::NextPage(None) => self.begin_next_repository(),
                Reply::Failure => self.give_up(
                    AggregationError::Upstream(UpstreamQueryError::NextPage),
                ),
                _ => self.give_up(AggregationError::Upstream(UpstreamQueryError::UnexpectedReply)),
            },
            Phase::Finished => {},
            Phase::Aborted(_) => {},
        }
        self.pending()
    }

    /// Why the walk was given up, if it was.
    pub fn failure(&self) -> (error: Option<AggregationError>)
        ensures
            error == (match self@.phase {
                Phase::Aborted(error) => Some(error),
                _ => None,
            }),
    {
        match self.phase {
            Phase::Aborted(error) => Some(error),
            _ => None,
        }
    }

    /// Whether the walk is finished.
    pub fn is_finished(&self) -> (finished: bool)
        ensures
            finished == (self@.phase is Finished),
    {
        match self.phase {
            Phase::Finished => true,
            _ => false,
        }
    }

    /// The tally of a finished walk. A walk that is still under way or was
    /// given up has none to show.
    pub fn into_tally(self) -> (tally: Option<ExtensionTally>)
        requires
            self.wf(),
        ensures
            tally is Some == (self@.phase is Finished),
            tally matches Some(t) ==> t@ == self@.tally && t.wf(),
    {
        match self.phase {
            Phase::Finished => Some(self.tally),
            _ => None,
        }
    }
}

} // verus!
