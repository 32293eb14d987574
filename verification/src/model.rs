//! The plain data that travels between the upstream history and the tally.

use vstd::prelude::*;

verus! {

/// One file touched by a commit, with the number of lines changed in it.
#[derive(Debug, Clone, PartialEq, Eq)]
pub struct FileChange {
    pub filename: String,
    pub changes: u64,
}

/// What a [`FileChange`] says, as mathematics.
pub struct FileChangeView {
    pub filename: Seq<char>,
    pub changes: nat,
}

impl View for FileChange {
    type V = FileChangeView;

    open spec fn view(&self) -> FileChangeView {
        FileChangeView { filename: self.filename@, changes: self.changes as nat }
    }
}

impl DeepView for FileChange {
    type V = FileChangeView;

    open spec fn deep_view(&self) -> FileChangeView {
        self@
    }
}

impl FileChange {
    /// A file by its name and the number of lines changed in it.
    pub fn new(filename: &str, changes: u64) -> (file: FileChange)
        ensures
            file@ == (FileChangeView { filename: filename@, changes: changes as nat }),
    {
        FileChange { filename: filename.to_owned(), changes }
    }
}

/// Copies a list of files.
pub fn copy_files(files: &Vec<FileChange>) -> (copy: Vec<FileChange>)
    ensures
        copy.deep_view() == files.deep_view(),
{
    let mut copy: Vec<FileChange> = Vec::new();
    let mut i: usize = 0;
    while i < files.len()
        invariant
            i <= files.len(),
            copy.len() == i,
            forall|j: int| 0 <= j < i ==> (#[trigger] copy[j])@ == files[j]@,
        decreases files.len() - i,
    {
        copy.push(FileChange { filename: files[i].filename.clone(), changes: files[i].changes });
        i += 1;
    }
    copy
}

/// A repository to walk: its owner and its name.
#[derive(Debug, Clone, PartialEq, Eq)]
pub struct RepositoryRef {
    pub owner: String,
    pub name: String,
}

/// What a [`RepositoryRef`] says, as mathematics.
pub struct RepositoryView {
    pub owner: Seq<char>,
    pub name: Seq<char>,
}

impl View for RepositoryRef {
    type V = RepositoryView;

    open spec fn view(&self) -> RepositoryView {
        RepositoryView { owner: self.owner@, name: self.name@ }
    }
}

impl DeepView for RepositoryRef {
    type V = RepositoryView;

    open spec fn deep_view(&self) -> RepositoryView {
        self@
    }
}

impl RepositoryRef {
    /// A repository by its owner and its name.
    pub fn new(owner: &str, name: &str) -> (repository: RepositoryRef)
        ensures
            repository@ == (RepositoryView { owner: owner@, name: name@ }),
    {
        RepositoryRef { owner: owner.to_owned(), name: name.to_owned() }
    }
}

/// A point in time, in UTC, by calendar date and time of day.
#[derive(Debug, Clone, Copy, PartialEq, Eq, Structural)]
pub struct Timestamp {
    pub year: i32,
    pub month: u32,
    pub day: u32,
    pub hour: u32,
    pub minute: u32,
    pub second: u32,
}

/// A commit as the history lists it. The cursor that leads to the next page
/// belongs to the page, not to the commit.
#[derive(Debug, Clone, PartialEq, Eq)]
pub struct CommitSummary {
    pub sha: String,
}

impl View for CommitSummary {
    type V = Seq<char>;

    open spec fn view(&self) -> Seq<char> {
        self.sha@
    }
}

impl DeepView for CommitSummary {
    type V = Seq<char>;

    open spec fn deep_view(&self) -> Seq<char> {
        self@
    }
}

impl CommitSummary {
    /// A commit by its hash.
    pub fn new(sha: &str) -> (commit: CommitSummary)
        ensures
            commit@ == sha@,
    {
        CommitSummary { sha: sha.to_owned() }
    }
}

/// One page of a listing: its commits, and whether it holds a cursor to a
/// further page.
#[derive(Debug, Clone, PartialEq, Eq)]
pub struct Page {
    pub commits: Vec<CommitSummary>,
    pub has_next: bool,
}

/// What a [`Page`] says, as mathematics: the hashes of its commits, in
/// order, and whether a further page is announced.
pub struct PageView {
    pub commits: Seq<Seq<char>>,
    pub has_next: bool,
}

impl View for Page {
    type V = PageView;

    open spec fn view(&self) -> PageView {
        PageView { commits: self.commits.deep_view(), has_next: self.has_next }
    }
}

/// The detail of one commit. The list of files may be missing from it.
#[derive(Debug, Clone, PartialEq, Eq)]
pub struct CommitDetail {
    pub files: Option<Vec<FileChange>>,
}

impl View for CommitDetail {
    type V = Option<Seq<FileChangeView>>;

    open spec fn view(&self) -> Option<Seq<FileChangeView>> {
        match self.files {
            Some(files) => Some(files.deep_view()),
            None => None,
        }
    }
}

} // verus!
