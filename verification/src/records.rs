//! The data the manifest pipeline works on: parsed manifest records,
//! per-record results, and the two kinds of per-element failure.

use vstd::prelude::*;
use crate::digest::{Outcome, OutcomeView};

verus! {

/// One parsed manifest line: a relative file path and the digest recorded
/// for it, both non-empty.
#[derive(Clone, Debug, PartialEq)]
pub struct ChecksumRecord {
    pub file: String,
    pub checksum: String,
}

/// Mathematical image of [`ChecksumRecord`].
pub struct RecordView {
    pub file: Seq<char>,
    pub checksum: Seq<char>,
}

impl View for ChecksumRecord {
    type V = RecordView;

    open spec fn view(&self) -> RecordView {
        RecordView { file: self.file@, checksum: self.checksum@ }
    }
}

/// A per-element failure. A `ParseFailure` stands for one structurally
/// malformed manifest line; a `HashFailure` carries the message of a failed
/// attempt to read the file a record names. Both are isolated to their
/// element of the result stream and never abort the run.
#[derive(Debug, PartialEq)]
pub enum ChecksumError {
    ParseFailure { line: String },
    HashFailure { message: String },
}

/// Mathematical image of [`ChecksumError`].
pub enum ErrorView {
    ParseFailure { line: Seq<char> },
    HashFailure { message: Seq<char> },
}

impl View for ChecksumError {
    type V = ErrorView;

    open spec fn view(&self) -> ErrorView {
        match self {
            ChecksumError::ParseFailure { line } => (ErrorView::ParseFailure { line: line@ }),
            ChecksumError::HashFailure { message } => (ErrorView::HashFailure {
                message: message@,
            }),
        }
    }
}

impl Clone for ChecksumError {
    fn clone(&self) -> (r: Self)
        ensures
            r@ == self@,
    {
        match self {
            ChecksumError::ParseFailure { line } => (ChecksumError::ParseFailure {
                line: line.clone(),
            }),
            ChecksumError::HashFailure { message } => (ChecksumError::HashFailure {
                message: message.clone(),
            }),
        }
    }
}

/// The unit the pipeline yields per record: the record's file and either a
/// completed comparison or the failure that kept one from being computed.
#[derive(Debug, PartialEq)]
pub struct ChecksumResult {
    pub file: String,
    pub result: Result<Outcome, ChecksumError>,
}

/// Mathematical image of [`ChecksumResult`].
pub struct ResultView {
    pub file: Seq<char>,
    pub result: Result<OutcomeView, ErrorView>,
}

/// The view of the result slot of one record: a completed comparison, or
/// the failure that kept one from being computed.
pub open spec fn outcome_result_view(r: Result<Outcome, ChecksumError>) -> Result<
    OutcomeView,
    ErrorView,
> {
    match r {
        Ok(o) => Ok(o.view()),
        Err(e) => Err(e.view()),
    }
}

impl View for ChecksumResult {
    type V = ResultView;

    open spec fn view(&self) -> ResultView {
        ResultView { file: self.file@, result: outcome_result_view(self.result) }
    }
}

/// The view of one element of the result stream.
pub open spec fn element_view(e: Result<ChecksumResult, ChecksumError>) -> Result<
    ResultView,
    ErrorView,
> {
    match e {
        Ok(cr) => Ok(cr.view()),
        Err(err) => Err(err.view()),
    }
}

/// The views of a collected element list, in order.
pub open spec fn elements_view(s: Seq<Result<ChecksumResult, ChecksumError>>) -> Seq<
    Result<ResultView, ErrorView>,
> {
    s.map_values(|e: Result<ChecksumResult, ChecksumError>| element_view(e))
}

/// The view of one manifest entry: a parsed record, or the parse failure
/// that stands in its place in the stream.
pub open spec fn entry_view(e: Result<ChecksumRecord, ChecksumError>) -> Result<
    RecordView,
    ErrorView,
> {
    match e {
        Ok(r) => Ok(r@),
        Err(e) => Err(e@),
    }
}

/// The views of a whole entry list, in order.
pub open spec fn entries_view(s: Seq<Result<ChecksumRecord, ChecksumError>>) -> Seq<
    Result<RecordView, ErrorView>,
> {
    s.map_values(|e: Result<ChecksumRecord, ChecksumError>| entry_view(e))
}

} // verus!
