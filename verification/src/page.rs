//! One page of an item's records: from the body that was fetched to the
//! records in it, and what the page counts for once they are written.

use crate::document::{trees, Json, Tree};
use crate::extractor::{extract_records, parsed, records_in};
use crate::transcode::{legacy_text, transcode, EncodingError};
use vstd::prelude::*;

verus! {

/// Why a page gave no records. None of these ends the run.
#[derive(Debug, PartialEq, Eq, Structural, Clone, Copy)]
pub enum PageError {
    /// The request failed, timed out, or was answered with a status other
    /// than success.
    Fetch,
    /// The body is not text in the expected encoding.
    Encoding(EncodingError),
    /// The text is no structured document.
    Parse,
}

/// What fetching a page gave.
#[derive(Debug, PartialEq, Eq)]
pub enum Fetched {
    /// The remote site answered, with this status and this body.
    Answer { status: u16, body: Vec<u8> },
    /// The request could not be made, broke off or timed out.
    Failure,
}

/// How the work on one page ended.
#[derive(Debug, PartialEq, Eq, Structural, Clone, Copy)]
pub enum PageOutcome {
    /// The page was read, and this many of its records were written to the
    /// sink.
    Persisted(usize),
    /// The page could not be read.
    Failed(PageError),
}

/// The number of records that a page counts for: those written, and none
/// for a page that failed.
pub open spec fn yield_of(outcome: PageOutcome) -> nat {
    match outcome {
        PageOutcome::Persisted(written) => written as nat,
        PageOutcome::Failed(_) => 0,
    }
}

/// What the records of a page body are, or why it has none to give.
pub open spec fn page_content(body: Seq<u8>) -> Result<Seq<Tree>, PageError> {
    match legacy_text(body) {
        None => Err(PageError::Encoding(EncodingError::Source)),
        Some(text) => match parsed(text) {
            None => Err(PageError::Parse),
            Some(document) => Ok(records_in(document)),
        },
    }
}

/// Whether a status tells of success.
pub open spec fn is_success(status: u16) -> bool {
    200 <= status < 300
}

/// What the records of a fetched page are, or why it has none to give: only
/// an answer that tells of success is read.
pub open spec fn fetched_content(fetched: Fetched) -> Result<Seq<Tree>, PageError> {
    match fetched {
        Fetched::Answer { status, body } => if is_success(status) {
            page_content(body@)
        } else {
            Err(PageError::Fetch)
        },
        Fetched::Failure => Err(PageError::Fetch),
    }
}

impl PageOutcome {
    /// The number of records that the page counts for.
    pub fn records(&self) -> (count: usize)
        ensures
            count == yield_of(*self),
    {
        match self {
            PageOutcome::Persisted(written) => *written,
            PageOutcome::Failed(_) => 0,
        }
    }
}

/// The records in the body of a page as it was fetched.
pub fn page_records(body: &[u8]) -> (outcome: Result<Vec<Json>, PageError>)
    ensures
        match page_content(body@) {
            Ok(expected) => outcome matches Ok(records) && trees(records@) == expected,
            Err(error) => outcome == Err::<Vec<Json>, PageError>(error),
        },
{
    let text = match transcode(body) {
        Ok(text) => text,
        Err(error) => {
            return Err(PageError::Encoding(error));
        },
    };
    match extract_records(text.as_str()) {
        Ok(records) => Ok(records),
        Err(_) => Err(PageError::Parse),
    }
}

/// The records of a page, from what fetching it gave.
pub fn read_page(fetched: &Fetched) -> (outcome: Result<Vec<Json>, PageError>)
    ensures
        match fetched_content(*fetched) {
            Ok(expected) => outcome matches Ok(records) && trees(records@) == expected,
            Err(error) => outcome == Err::<Vec<Json>, PageError>(error),
        },
{
    match fetched {
        Fetched::Answer { status, body } => {
            if 200 <= *status && *status < 300 {
                page_records(body.as_slice())
            } else {
                Err(PageError::Fetch)
            }
        },
        Fetched::Failure => Err(PageError::Fetch),
    }
}

} // verus!
