use acm::config::{bearer, check_credentials, endpoint_url, prepare_request, staged_changes, Config};
use acm::error::CommitError;
use acm::json::Json;
use acm::request::{build, ChatMessage, RequestTemplate};
use acm::response::message_from_body;

fn s(x: &str) -> String {
    x.to_string()
}

fn template() -> RequestTemplate {
    RequestTemplate {
        messages: Some(vec![ChatMessage { role: s("system"), content: s("...") }]),
        params: vec![
            (s("model"), Json::Str(s("m1"))),
            (s("temperature"), Json::Number(s("0.2"))),
        ],
    }
}

fn config(key: &str) -> Config {
    Config { base_url: s("https://api.example.com"), api_key: s(key), params: template(), custom_message: None }
}

#[test]
fn build_appends_one_user_turn_and_keeps_params() {
    let p = build(template(), s("+added line")).unwrap();
    assert_eq!(p.messages.len(), 2);
    assert_eq!(p.messages[0].role, "system");
    assert_eq!(p.messages[0].content, "...");
    assert_eq!(p.messages[1].role, "user");
    assert_eq!(p.messages[1].content, "+added line");
    assert_eq!(p.params.len(), 2);
    assert_eq!(p.params[0].0, "model");
    assert!(matches!(&p.params[0].1, Json::Str(m) if m == "m1"));
    assert!(matches!(&p.params[1].1, Json::Number(t) if t == "0.2"));
}

#[test]
fn build_without_messages_is_malformed() {
    let t = RequestTemplate { messages: None, params: vec![] };
    assert!(matches!(build(t, s("x")), Err(CommitError::MalformedTemplate)));
}

#[test]
fn whitespace_diff_stops_before_request() {
    assert!(matches!(staged_changes(" \n\t "), Err(CommitError::NoStagedChanges)));
    assert!(matches!(staged_changes(""), Err(CommitError::NoStagedChanges)));
    assert_eq!(staged_changes("\n+x\n").unwrap(), "+x");
    let r = prepare_request(config(""), "/home/u/cfg.toml", "  \n");
    assert!(matches!(r, Err(CommitError::NoStagedChanges)));
}

#[test]
fn missing_key_names_the_config_file() {
    let r = check_credentials(&config(""), "/home/u/cfg.toml");
    assert!(matches!(r, Err(CommitError::MissingCredential { config_path }) if config_path == "/home/u/cfg.toml"));
    assert!(check_credentials(&config("k"), "/p").is_ok());
    let r = prepare_request(config(""), "/home/u/cfg.toml", "+x");
    assert!(matches!(r, Err(CommitError::MissingCredential { config_path }) if config_path == "/home/u/cfg.toml"));
}

#[test]
fn prepare_reports_malformed_template() {
    let mut c = config("k");
    c.params.messages = None;
    assert!(matches!(prepare_request(c, "/p", "+x"), Err(CommitError::MalformedTemplate)));
}

#[test]
fn url_and_header_are_formed() {
    assert_eq!(endpoint_url("https://api.perplexity.ai"), "https://api.perplexity.ai/chat/completions");
    assert_eq!(bearer("SECRET-REDACTED"), "Bearer SECRET-REDACTED");
}

#[test]
fn json_mode_is_detected() {
    let mut t = template();
    assert!(!t.wants_json());
    t.params.push((s("response_format"), Json::Object(vec![(s("type"), Json::Str(s("json_object")))])));
    assert!(t.wants_json());
    let other = RequestTemplate {
        messages: None,
        params: vec![(s("response_format"), Json::Object(vec![(s("type"), Json::Str(s("text")))]))],
    };
    assert!(!other.wants_json());
}

#[test]
fn default_config_has_system_prompt_and_no_key() {
    let c = Config::default();
    assert_eq!(c.base_url, "https://api.perplexity.ai");
    assert!(c.api_key.is_empty());
    assert!(c.custom_message.is_none());
    let ms = c.params.messages.as_ref().unwrap();
    assert_eq!(ms.len(), 1);
    assert_eq!(ms[0].role, "system");
    assert!(ms[0].content.starts_with("You will be provided with the output from the `git diff --staged` command."));
    assert!(matches!(&c.params.params[1].1, Json::Number(n) if n == "256"));
    assert!(!c.params.wants_json());
}

#[test]
fn end_to_end_message_for_one_diff() {
    let p = prepare_request(config("k"), "/p", "+added line").unwrap();
    assert_eq!(p.url, "https://api.example.com/chat/completions");
    assert_eq!(p.authorization, "Bearer k");
    assert_eq!(p.payload.messages.len(), 2);
    assert_eq!(p.payload.messages[1].role, "user");
    assert_eq!(p.payload.messages[1].content, "+added line");
    assert!(!p.structured);
    let body = "{\"choices\":[{\"message\":{\"content\":\"fix(core): handle edge case\"},\"finish_reason\":\"stop\"}]}";
    let msg = message_from_body(body, p.structured, p.extraction_template.as_deref()).unwrap();
    assert_eq!(msg, "fix(core): handle edge case");
}
