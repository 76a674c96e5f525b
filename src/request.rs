//! Request templates and the payload built from one and a diff.

use vstd::prelude::*;
use vstd::string::*;
use crate::error::CommitError;
use crate::json::{child_of, find_key, Json};

verus! {

/// One role/content turn of a chat request.
#[derive(Debug)]
pub struct ChatMessage {
    pub role: String,
    pub content: String,
}

/// The configured request: its message list, if it has one, and every other
/// parameter (model, token limit, sampling, output format), kept as written.
#[derive(Debug)]
pub struct RequestTemplate {
    pub messages: Option<Vec<ChatMessage>>,
    pub params: Vec<(String, Json)>,
}

/// A complete request body.
#[derive(Debug)]
pub struct RequestPayload {
    pub messages: Vec<ChatMessage>,
    pub params: Vec<(String, Json)>,
}

/// The parameters ask for JSON output: `response_format.type` is `json_object`.
pub open spec fn wants_json(params: Seq<(String, Json)>) -> bool {
    match find_key(params, "response_format"@) {
        Some(f) => match child_of(f, "type"@) {
            Some(Json::Str(s)) => s@ == "json_object"@,
            _ => false,
        },
        None => false,
    }
}

/// `after` is `before` with one user turn carrying `diff` added at the end.
pub open spec fn appends_user_turn(
    before: Seq<ChatMessage>,
    after: Seq<ChatMessage>,
    diff: Seq<char>,
) -> bool {
    &&& after.len() == before.len() + 1
    &&& forall|i: int| 0 <= i < before.len() ==> #[trigger] after[i] == before[i]
    &&& after.last().role@ == "user"@
    &&& after.last().content@ == diff
}

impl RequestTemplate {
    /// Whether this request asks the model for a JSON document.
    pub fn wants_json(&self) -> (r: bool)
        ensures
            r == wants_json(self.params@),
    {
        match Json::find_member(&self.params, "response_format") {
            Some(f) => match f.child("type") {
                Some(Json::Str(s)) => crate::text::same_text(s.as_str(), "json_object"),
                _ => false,
            },
            None => false,
        }
    }
}

/// Builds the request for `diff` from a working copy of the template: the
/// diff becomes a final user turn and every other parameter is kept.
pub fn build(template: RequestTemplate, diff: String) -> (r: Result<RequestPayload, CommitError>)
    ensures
        match template.messages {
            None => r == Err::<RequestPayload, CommitError>(CommitError::MalformedTemplate),
            Some(ms) => r is Ok && r->Ok_0.params == template.params && appends_user_turn(
                ms@,
                r->Ok_0.messages@,
                diff@,
            ),
        },
{
    let RequestTemplate { messages, params } = template;
    match messages {
        None => Err(CommitError::MalformedTemplate),
        Some(ms) => {
            let mut messages = ms;
            messages.push(ChatMessage { role: String::from_str("user"), content: diff });
            Ok(RequestPayload { messages, params })
        },
    }
}

} // verus!
