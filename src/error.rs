//! The failures of one message-generation run.

use vstd::prelude::*;

verus! {

/// Why a run stopped. Every failure is terminal for the run.
#[derive(Debug)]
pub enum CommitError {
    /// The working directory is not under version control.
    NotARepository,
    /// The staged diff is empty or whitespace only.
    NoStagedChanges,
    /// The configuration holds no API key; names the configuration file.
    MissingCredential { config_path: String },
    /// The request template has no message list.
    MalformedTemplate,
    /// The request could not be sent or timed out.
    TransportError,
    /// The endpoint answered with a non-success status.
    HttpError { status: u16 },
    /// The reply body is not JSON.
    DecodeError,
    /// The reply offers no candidate completion.
    NoCandidates,
    /// The first candidate carries no text.
    NoContent,
    /// The first candidate was cut off at the token limit.
    TruncatedOutput,
    /// The candidate's text is not the JSON document that structured mode asked for.
    InvalidStructuredOutput,
}

} // verus!
