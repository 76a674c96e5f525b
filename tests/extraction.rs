use acm::error::CommitError;
use acm::json::Json;
use acm::response::{extract, message_from_body, Choice, CompletionResponse, FinishReason};
use acm::template::{fill_template, FieldTemplate, Segment};
use acm::text::{plain_message_of, same_text, trim_str};

fn s(x: &str) -> String {
    x.to_string()
}

fn commit_doc() -> Json {
    Json::Object(vec![
        (s("type"), Json::Str(s("feat"))),
        (s("description"), Json::Str(s("add parser"))),
    ])
}

fn reply(content: Option<&str>, reason: FinishReason) -> CompletionResponse {
    CompletionResponse {
        choices: vec![Choice { content: content.map(|c| c.to_string()), finish_reason: reason }],
    }
}

#[test]
fn fence_is_stripped() {
    assert_eq!(plain_message_of("`feat: add parser`"), "feat: add parser");
}

#[test]
fn quotes_and_triple_backticks_are_stripped() {
    assert_eq!(plain_message_of("\"fix: typo\""), "fix: typo");
    assert_eq!(plain_message_of("'docs: readme'"), "docs: readme");
    assert_eq!(plain_message_of("```\nfeat: add parser\n```"), "feat: add parser");
}

#[test]
fn plain_text_keeps_trimmed_first_line() {
    assert_eq!(plain_message_of("  fix: handle edge case  \nmore detail\n"), "fix: handle edge case");
    assert_eq!(plain_message_of("\n\n  chore: bump\r\n"), "chore: bump");
    assert_eq!(plain_message_of("feat: x"), "feat: x");
}

#[test]
fn plain_text_unchanged_when_already_clean() {
    let once = plain_message_of("  refactor: split module\nbody");
    assert_eq!(plain_message_of(&once), once);
}

#[test]
fn unmatched_fence_is_kept() {
    assert_eq!(plain_message_of("`feat: x"), "`feat: x");
    assert_eq!(plain_message_of("`a` and `b"), "`a` and `b");
}

#[test]
fn empty_content_gives_empty_message() {
    assert_eq!(plain_message_of("   "), "");
    assert_eq!(plain_message_of(""), "");
}

#[test]
fn trim_removes_unicode_whitespace() {
    assert_eq!(trim_str("\u{a0}\u{3000} x y \t"), "x y");
    assert!(same_text("abc", "abc"));
    assert!(!same_text("abc", "abd"));
}

#[test]
fn structured_round_trip() {
    assert_eq!(fill_template(&commit_doc(), "||/type||: ||/description||"), "feat: add parser");
}

#[test]
fn structured_missing_field_falls_back_to_path() {
    assert_eq!(fill_template(&commit_doc(), "||/type||: ||/missing||"), "feat: /missing");
}

#[test]
fn non_string_field_falls_back_to_path() {
    let doc = Json::Object(vec![(s("n"), Json::Number(s("3")))]);
    assert_eq!(fill_template(&doc, "||/n||"), "/n");
}

#[test]
fn template_parses_into_segments() {
    let t = FieldTemplate::parse("||/type||: ||/description||");
    assert_eq!(t.segments.len(), 5);
    assert!(matches!(&t.segments[0], Segment::Literal(x) if x.is_empty()));
    assert!(matches!(&t.segments[1], Segment::Field(x) if x == "/type"));
    assert!(matches!(&t.segments[2], Segment::Literal(x) if x == ": "));
    assert!(matches!(&t.segments[3], Segment::Field(x) if x == "/description"));
    let odd = FieldTemplate::parse("a|||b");
    assert_eq!(odd.segments.len(), 2);
    assert!(matches!(&odd.segments[1], Segment::Literal(x) if x == "|b"));
}

#[test]
fn pointer_steps_through_arrays_and_escapes() {
    let doc = Json::Object(vec![
        (s("list"), Json::Array(vec![Json::Str(s("zero")), Json::Str(s("one"))])),
        (s("a/b"), Json::Str(s("slash"))),
        (s("m~n"), Json::Str(s("tilde"))),
    ]);
    assert_eq!(fill_template(&doc, "||/list/1||"), "one");
    assert_eq!(fill_template(&doc, "||/list/01||"), "/list/01");
    assert_eq!(fill_template(&doc, "||/list/2||"), "/list/2");
    assert_eq!(fill_template(&doc, "||/a~1b||"), "slash");
    assert_eq!(fill_template(&doc, "||/m~0n||"), "tilde");
    assert!(doc.pointer("").is_some());
    assert!(doc.pointer("list").is_none());
}

#[test]
fn truncated_reply_is_rejected() {
    let r = extract(&reply(Some("feat: x"), FinishReason::Length), false, None);
    assert!(matches!(r, Err(CommitError::TruncatedOutput)));
    let r = extract(&reply(Some("{}"), FinishReason::Length), true, Some("||/a||"));
    assert!(matches!(r, Err(CommitError::TruncatedOutput)));
}

#[test]
fn empty_choices_give_no_candidates() {
    let r = extract(&CompletionResponse { choices: vec![] }, false, None);
    assert!(matches!(r, Err(CommitError::NoCandidates)));
    let r = message_from_body("{\"choices\":[]}", false, None);
    assert!(matches!(r, Err(CommitError::NoCandidates)));
}

#[test]
fn missing_content_is_reported() {
    let r = extract(&reply(None, FinishReason::Stop), false, None);
    assert!(matches!(r, Err(CommitError::NoContent)));
    let r = message_from_body("{\"choices\":[{\"finish_reason\":\"stop\"}]}", false, None);
    assert!(matches!(r, Err(CommitError::NoContent)));
}

#[test]
fn non_json_body_is_a_decode_error() {
    let r = message_from_body("<html>bad gateway</html>", false, None);
    assert!(matches!(r, Err(CommitError::DecodeError)));
}

#[test]
fn structured_answer_that_is_not_json_is_rejected() {
    let r = extract(&reply(Some("feat: add parser"), FinishReason::Stop), true, Some("||/type||"));
    assert!(matches!(r, Err(CommitError::InvalidStructuredOutput)));
}

#[test]
fn structured_reply_is_filled() {
    let content = "{\"type\":\"feat\",\"description\":\"add parser\"}";
    let r = extract(&reply(Some(content), FinishReason::Stop), true, Some("||/type||: ||/description||"));
    assert_eq!(r.unwrap(), "feat: add parser");
    let r = extract(&reply(Some(content), FinishReason::Stop), true, Some("||/type||: ||/missing||"));
    assert_eq!(r.unwrap(), "feat: /missing");
}

#[test]
fn structured_mode_without_template_returns_text() {
    let content = "{\"type\":\"feat\"}";
    let r = extract(&reply(Some(content), FinishReason::Stop), true, None);
    assert_eq!(r.unwrap(), content);
    let r = extract(&reply(Some(content), FinishReason::Stop), false, Some("||/type||"));
    assert_eq!(r.unwrap(), content);
}

#[test]
fn body_is_decoded_and_extracted() {
    let body = "{\"choices\":[{\"message\":{\"role\":\"assistant\",\"content\":\"`fix(core): handle edge case`\"},\"finish_reason\":\"stop\"}]}";
    let r = message_from_body(body, false, None);
    assert_eq!(r.unwrap(), "fix(core): handle edge case");
    let body = "{\"choices\":[{\"message\":{\"content\":\"{\\\"type\\\":\\\"feat\\\",\\\"description\\\":\\\"add parser\\\"}\"},\"finish_reason\":\"stop\"}]}";
    let r = message_from_body(body, true, Some("||/type||: ||/description||"));
    assert_eq!(r.unwrap(), "feat: add parser");
    let body = "{\"choices\":[{\"message\":{\"content\":\"feat: long\"},\"finish_reason\":\"length\"}]}";
    assert!(matches!(message_from_body(body, false, None), Err(CommitError::TruncatedOutput)));
}

#[test]
fn reply_document_is_decoded() {
    let doc = Json::Object(vec![(
        s("choices"),
        Json::Array(vec![Json::Object(vec![
            (s("message"), Json::Object(vec![(s("content"), Json::Str(s("hi")))])),
            (s("finish_reason"), Json::Str(s("length"))),
        ])]),
    )]);
    let resp = CompletionResponse::from_json(&doc);
    assert_eq!(resp.choices.len(), 1);
    assert_eq!(resp.choices[0].content.as_deref(), Some("hi"));
    assert_eq!(resp.choices[0].finish_reason, FinishReason::Length);
    let none = CompletionResponse::from_json(&Json::Null);
    assert!(none.choices.is_empty());
}
