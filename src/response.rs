//! Completion replies and the extraction of a commit message from them.

use vstd::prelude::*;
use vstd::string::*;
use crate::error::CommitError;
use crate::json::{child_of, parse_json, parsed_json, Json};
use crate::template::{fill, fill_template, pieces};
use crate::text::{plain_message, plain_message_of};

verus! {

/// Why the model stopped generating a candidate.
#[derive(Debug, Clone, Copy, PartialEq, Eq, Structural)]
pub enum FinishReason {
    Stop,
    Length,
    Other,
}

/// One candidate completion.
#[derive(Debug)]
pub struct Choice {
    pub content: Option<String>,
    pub finish_reason: FinishReason,
}

/// A decoded reply: its candidates in order.
#[derive(Debug)]
pub struct CompletionResponse {
    pub choices: Vec<Choice>,
}

/// The candidates listed under `choices`; none when that member is not an array.
pub open spec fn choices_of(doc: Json) -> Seq<Json> {
    match child_of(doc, "choices"@) {
        Some(Json::Array(items)) => items@,
        _ => seq![],
    }
}

/// The finish reason of a candidate, read from its `finish_reason` member.
pub open spec fn reason_of(item: Json) -> FinishReason {
    match child_of(item, "finish_reason"@) {
        Some(Json::Str(s)) => if s@ == "length"@ {
            FinishReason::Length
        } else if s@ == "stop"@ {
            FinishReason::Stop
        } else {
            FinishReason::Other
        },
        _ => FinishReason::Other,
    }
}

/// The text of a candidate, read from `message.content` when it is a string.
pub open spec fn content_of(item: Json) -> Option<Seq<char>> {
    match child_of(item, "message"@) {
        Some(m) => match child_of(m, "content"@) {
            Some(Json::Str(s)) => Some(s@),
            _ => None,
        },
        None => None,
    }
}

/// `c` is the decoded form of the candidate `item`.
pub open spec fn decodes_to(item: Json, c: Choice) -> bool {
    &&& c.finish_reason == reason_of(item)
    &&& match c.content {
        Some(s) => content_of(item) == Some(s@),
        None => content_of(item) is None,
    }
}

/// The message that a reply yields, or the reason it yields none.
/// Structured mode applies when the request asked for JSON output and an
/// extraction template is given; otherwise the text is taken as plain text.
pub open spec fn extraction(
    resp: CompletionResponse,
    structured: bool,
    template: Option<Seq<char>>,
) -> Result<Seq<char>, CommitError> {
    if resp.choices@.len() == 0 {
        Err(CommitError::NoCandidates)
    } else {
        let c = resp.choices@[0];
        if c.finish_reason == FinishReason::Length {
            Err(CommitError::TruncatedOutput)
        } else {
            match c.content {
                None => Err(CommitError::NoContent),
                Some(text) => if structured && template is Some {
                    match parsed_json(text@) {
                        None => Err(CommitError::InvalidStructuredOutput),
                        Some(doc) => Ok(fill(doc, pieces(template->0))),
                    }
                } else {
                    Ok(plain_message(text@))
                },
            }
        }
    }
}

/// The message that a decoded reply document yields, or the reason it yields none.
pub open spec fn reply_outcome(doc: Json, structured: bool, template: Option<Seq<char>>) -> Result<
    Seq<char>,
    CommitError,
> {
    let cs = choices_of(doc);
    if cs.len() == 0 {
        Err(CommitError::NoCandidates)
    } else if reason_of(cs[0]) == FinishReason::Length {
        Err(CommitError::TruncatedOutput)
    } else {
        match content_of(cs[0]) {
            None => Err(CommitError::NoContent),
            Some(text) => if structured && template is Some {
                match parsed_json(text) {
                    None => Err(CommitError::InvalidStructuredOutput),
                    Some(d) => Ok(fill(d, pieces(template->0))),
                }
            } else {
                Ok(plain_message(text))
            },
        }
    }
}

/// `r` is the outcome `o`, with strings seen as their characters.
pub open spec fn outcome_is(r: Result<String, CommitError>, o: Result<Seq<char>, CommitError>) -> bool {
    match r {
        Ok(s) => o == Ok::<Seq<char>, CommitError>(s@),
        Err(e) => o == Err::<Seq<char>, CommitError>(e),
    }
}

pub open spec fn opt_view(t: Option<&str>) -> Option<Seq<char>> {
    match t {
        Some(s) => Some(s@),
        None => None,
    }
}

fn decode_choice(item: &Json) -> (r: Choice)
    ensures
        decodes_to(*item, r),
{
    let finish_reason = match item.child("finish_reason") {
        Some(Json::Str(s)) => {
            if crate::text::same_text(s.as_str(), "length") {
                FinishReason::Length
            } else if crate::text::same_text(s.as_str(), "stop") {
                FinishReason::Stop
            } else {
                FinishReason::Other
            }
        },
        _ => FinishReason::Other,
    };
    let content = match item.child("message") {
        Some(m) => match m.child("content") {
            Some(Json::Str(s)) => Some(String::from_str(s.as_str())),
            _ => None,
        },
        None => None,
    };
    Choice { content, finish_reason }
}

impl CompletionResponse {
    /// Reads the candidates of a reply document.
    pub fn from_json(doc: &Json) -> (r: CompletionResponse)
        ensures
            r.choices@.len() == choices_of(*doc).len(),
            forall|i: int|
                0 <= i < r.choices@.len() ==> decodes_to(choices_of(*doc)[i], #[trigger] r.choices@[i]),
    {
        let mut choices: Vec<Choice> = Vec::new();
        match doc.child("choices") {
            Some(Json::Array(items)) => {
                let mut i: usize = 0;
                while i < items.len()
                    invariant
                        i <= items@.len(),
                        choices_of(*doc) == items@,
                        choices@.len() == i,
                        forall|j: int|
                            0 <= j < i ==> decodes_to(items@[j], #[trigger] choices@[j]),
                    decreases items@.len() - i,
                {
                    let c = decode_choice(&items[i]);
                    choices.push(c);
                    i = i + 1;
                }
            },
            _ => {},
        }
        CompletionResponse { choices }
    }
}

/// The commit message carried by a reply (see `extraction`).
pub fn extract(resp: &CompletionResponse, structured: bool, template: Option<&str>) -> (r: Result<
    String,
    CommitError,
>)
    ensures
        outcome_is(r, extraction(*resp, structured, opt_view(template))),
{
    if resp.choices.len() == 0 {
        return Err(CommitError::NoCandidates);
    }
    let c = &resp.choices[0];
    if c.finish_reason == FinishReason::Length {
        return Err(CommitError::TruncatedOutput);
    }
    match &c.content {
        None => Err(CommitError::NoContent),
        Some(text) => {
            if structured {
                if let Some(t) = template {
                    return match parse_json(text.as_str()) {
                        None => Err(CommitError::InvalidStructuredOutput),
                        Some(doc) => Ok(fill_template(&doc, t)),
                    };
                }
            }
            Ok(plain_message_of(text.as_str()))
        },
    }
}

/// The commit message carried by a raw reply body: the body is decoded as
/// JSON (failing with `DecodeError` when it is not) and then extracted.
pub fn message_from_body(body: &str, structured: bool, template: Option<&str>) -> (r: Result<
    String,
    CommitError,
>)
    ensures
        match parsed_json(body@) {
            None => r == Err::<String, CommitError>(CommitError::DecodeError),
            Some(doc) => outcome_is(r, reply_outcome(doc, structured, opt_view(template))),
        },
{
    match parse_json(body) {
        None => Err(CommitError::DecodeError),
        Some(doc) => {
            let resp = CompletionResponse::from_json(&doc);
            proof {
                if resp.choices@.len() > 0 {
                    assert(decodes_to(choices_of(doc)[0], resp.choices@[0]));
                }
                assert(extraction(resp, structured, opt_view(template)) == reply_outcome(
                    doc,
                    structured,
                    opt_view(template),
                ));
            }
            extract(&resp, structured, template)
        },
    }
}

/// A reply whose first candidate was cut off yields no message, whatever it says.
pub proof fn law_truncation_rejected(
    resp: CompletionResponse,
    structured: bool,
    template: Option<Seq<char>>,
)
    requires
        resp.choices@.len() > 0,
        resp.choices@[0].finish_reason == FinishReason::Length,
    ensures
        extraction(resp, structured, template) == Err::<Seq<char>, CommitError>(
            CommitError::TruncatedOutput,
        ),
{
}

/// A reply with no candidates yields `NoCandidates`, never a message.
pub proof fn law_no_candidates(resp: CompletionResponse, structured: bool, template: Option<Seq<char>>)
    requires
        resp.choices@.len() == 0,
    ensures
        extraction(resp, structured, template) == Err::<Seq<char>, CommitError>(
            CommitError::NoCandidates,
        ),
{
}

} // verus!
