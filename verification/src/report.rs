//! The report: the badge of a tally, wrapped as the answer to an invocation.

use vstd::prelude::*;
use vstd::string::*;
use crate::accounting::{files_of, flawless, lemma_walk_accounts};
use crate::engine::AggregationError;
use crate::history::{walk, RecordedRepository, RecordedRepositoryView};
use crate::model::Timestamp;
use crate::render::{document_markup, render, scene_of};
use crate::aggregate::aggregate;
use crate::tally::{record_all, EntryView, ExtensionTally};

verus! {

/// The status of every answer.
pub const STATUS_OK: u16 = 200;

/// The answer to an invocation: a status, the type of the body, and the
/// body, which is the badge.
#[derive(Debug, Clone, PartialEq, Eq)]
pub struct Response {
    pub status: u16,
    pub content_type: String,
    pub body: String,
}

/// What a [`Response`] says, as mathematics.
pub struct ResponseView {
    pub status: nat,
    pub content_type: Seq<char>,
    pub body: Seq<char>,
}

impl View for Response {
    type V = ResponseView;

    open spec fn view(&self) -> ResponseView {
        ResponseView {
            status: self.status as nat,
            content_type: self.content_type@,
            body: self.body@,
        }
    }
}

/// The answer that carries the badge of the tally `t`.
pub open spec fn response_of(t: Seq<EntryView>) -> ResponseView {
    ResponseView {
        status: 200,
        content_type: "image/svg+xml; charset=utf-8"@,
        body: document_markup(scene_of(t)),
    }
}

/// The answer to an invocation that walks through `history`: the badge of the
/// tally if the walk succeeds, and no answer at all if it is given up.
pub open spec fn report_of(
    history: Seq<RecordedRepositoryView>,
    author: Seq<char>,
    since: Timestamp,
) -> Result<ResponseView, AggregationError> {
    match walk(history, author, since).outcome {
        Ok(counted) => Ok(response_of(counted)),
        Err(error) => Err(error),
    }
}

/// Wraps the badge of a tally as an answer.
pub fn respond(tally: &ExtensionTally) -> (response: Response)
    requires
        tally.wf(),
    ensures
        response@ == response_of(tally@),
{
    Response {
        status: STATUS_OK,
        content_type: String::from_str("image/svg+xml; charset=utf-8"),
        body: render(tally),
    }
}

/// Walks through a recorded history and answers with the badge of the tally.
/// A walk that is given up gives no badge.
pub fn report(history: &Vec<RecordedRepository>, author: &str, since: Timestamp) -> (answer:
    Result<Response, AggregationError>)
    ensures
        match answer {
            Ok(response) => report_of(history.deep_view(), author@, since) == Ok::<
                ResponseView,
                AggregationError,
            >(response@),
            Err(error) => report_of(history.deep_view(), author@, since) == Err::<
                ResponseView,
                AggregationError,
            >(error),
        },
{
    match aggregate(history, author, since).outcome {
        Ok(tally) => Ok(respond(&tally)),
        Err(error) => Err(error),
    }
}

/// The answer depends on nothing but the files of the history and their
/// order: two histories in which nothing fails and which hold the same files
/// in the same order are answered with the same document, character for
/// character, however the files are spread over commits, pages and
/// repositories. So a second walk through the same history is answered as
/// the first.
pub proof fn lemma_same_files_same_document(
    first: Seq<RecordedRepositoryView>,
    second: Seq<RecordedRepositoryView>,
    author: Seq<char>,
    since: Timestamp,
)
    requires
        flawless(first),
        flawless(second),
        files_of(first) == files_of(second),
    ensures
        report_of(first, author, since) == report_of(second, author, since),
        report_of(first, author, since) matches Ok(response) ==> response == response_of(
            record_all(Seq::empty(), files_of(first)),
        ),
{
    lemma_walk_accounts(first, author, since);
    lemma_walk_accounts(second, author, since);
}

} // verus!
