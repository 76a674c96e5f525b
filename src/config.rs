//! The stored configuration and the preparation of one request from it.

use vstd::prelude::*;
use vstd::string::*;
use crate::error::CommitError;
use crate::json::Json;
use crate::request::{appends_user_turn, build, wants_json, ChatMessage, RequestPayload, RequestTemplate};
use crate::text::{trim, trim_str};

verus! {

/// The configuration record: endpoint, credential, request template, and the
/// extraction template used when the request asks for JSON output.
#[derive(Debug)]
pub struct Config {
    pub base_url: String,
    pub api_key: String,
    pub params: RequestTemplate,
    pub custom_message: Option<String>,
}

/// Everything needed to send one request and read its reply.
#[derive(Debug)]
pub struct PreparedRequest {
    pub url: String,
    pub authorization: String,
    pub payload: RequestPayload,
    pub structured: bool,
    pub extraction_template: Option<String>,
}

impl Default for Config {
    /// The built-in configuration: no API key, and a template that asks for a
    /// Conventional Commits message in one system turn.
    fn default() -> (r: Config)
        ensures
            r.base_url@ == "https://api.perplexity.ai"@,
            r.api_key@.len() == 0,
            r.custom_message is None,
            r.params.messages is Some,
            r.params.messages->0@.len() == 1,
            r.params.messages->0@[0].role@ == "system"@,
            r.params.params@.len() == 3,
            r.params.params@[0].0@ == "model"@,
            r.params.params@[1].0@ == "max_tokens"@,
            r.params.params@[2].0@ == "n"@,
            r.params.params@[0].1 matches Json::Str(m) && m@ == "llama-3-70b-instruct"@,
            r.params.params@[1].1 matches Json::Number(m) && m@ == "256"@,
            r.params.params@[2].1 matches Json::Number(m) && m@ == "1"@,
    {
        let prompt = "You will be provided with the output from the `git diff --staged` command.\n\
            Your task is to craft a concise and descriptive commit message that accurately reflects the code changes.\n\
            \n\
            Please adhere to the Conventional Commits specification, formatting the message as follows:\n\
            <type>(<scope>): <description>\n\
            \n\
            - `type`: Choose one of the following based on the nature of the changes:\n\
            * feat: A new feature\n\
            * fix: A bug fix\n\
            * docs: Documentation changes\n\
            * style: Changes that do not affect the meaning of the code (formatting, whitespace, etc.)\n\
            * refactor: A code change that neither fixes a bug nor adds a feature\n\
            * perf: A code change that improves performance\n\
            * test: Adding missing tests or correcting existing tests\n\
            * build: Changes that affect the build system or external dependencies\n\
            * ci: Changes to the CI configuration files and scripts\n\
            * chore: Other changes that don't modify src or test files\n\
            \n\
            - `scope` (optional): A specific area or module of the codebase that the changes affect, enclosed in parentheses (e.g., `feat(parser):`)\n\
            - `description`: A concise summary of the changes in a single, lowercase sentence without ending punctuation\n\
            \n\
            Please provide only the commit message in your response, as it will be used directly in a git commit command.";
        let mut messages: Vec<ChatMessage> = Vec::new();
        messages.push(
            ChatMessage { role: String::from_str("system"), content: String::from_str(prompt) },
        );
        let mut params: Vec<(String, Json)> = Vec::new();
        params.push(
            (String::from_str("model"), Json::Str(String::from_str("llama-3-70b-instruct"))),
        );
        params.push((String::from_str("max_tokens"), Json::Number(String::from_str("256"))));
        params.push((String::from_str("n"), Json::Number(String::from_str("1"))));
        proof {
            reveal_strlit("");
        }
        Config {
            base_url: String::from_str("https://api.perplexity.ai"),
            api_key: String::from_str(""),
            params: RequestTemplate { messages: Some(messages), params },
            custom_message: None,
        }
    }
}

/// The staged diff with surrounding whitespace removed; `NoStagedChanges`
/// when nothing but whitespace is staged.
pub fn staged_changes(raw: &str) -> (r: Result<String, CommitError>)
    ensures
        trim(raw@).len() == 0 ==> r == Err::<String, CommitError>(CommitError::NoStagedChanges),
        trim(raw@).len() > 0 ==> r is Ok && r->Ok_0@ == trim(raw@),
{
    let t = trim_str(raw);
    if t.unicode_len() == 0 {
        Err(CommitError::NoStagedChanges)
    } else {
        Ok(String::from_str(t))
    }
}

/// Checks that the configuration read from `config_path` holds an API key.
pub fn check_credentials(config: &Config, config_path: &str) -> (r: Result<(), CommitError>)
    ensures
        config.api_key@.len() > 0 ==> r is Ok,
        config.api_key@.len() == 0 ==> (r matches Err(
            CommitError::MissingCredential { config_path: p },
        ) && p@ == config_path@),
{
    if config.api_key.as_str().unicode_len() == 0 {
        Err(CommitError::MissingCredential { config_path: String::from_str(config_path) })
    } else {
        Ok(())
    }
}

/// The completions endpoint under `base_url`.
pub fn endpoint_url(base_url: &str) -> (r: String)
    ensures
        r@ == base_url@ + "/chat/completions"@,
{
    String::from_str(base_url).concat("/chat/completions")
}

/// The `Authorization` header value for `api_key`.
pub fn bearer(api_key: &str) -> (r: String)
    ensures
        r@ == "Bearer "@ + api_key@,
{
    String::from_str("Bearer ").concat(api_key)
}

/// Prepares the request for a raw staged diff. An empty diff stops the run
/// before anything is built or sent; then the credential and the template are
/// checked, and the trimmed diff is added to the template as a user turn.
pub fn prepare_request(config: Config, config_path: &str, raw_diff: &str) -> (r: Result<
    PreparedRequest,
    CommitError,
>)
    ensures
        trim(raw_diff@).len() == 0 ==> r == Err::<PreparedRequest, CommitError>(
            CommitError::NoStagedChanges,
        ),
        trim(raw_diff@).len() > 0 && config.api_key@.len() == 0 ==> (r matches Err(
            CommitError::MissingCredential { config_path: p },
        ) && p@ == config_path@),
        trim(raw_diff@).len() > 0 && config.api_key@.len() > 0 && config.params.messages is None
            ==> r == Err::<PreparedRequest, CommitError>(CommitError::MalformedTemplate),
        trim(raw_diff@).len() > 0 && config.api_key@.len() > 0 && config.params.messages is Some
            ==> r is Ok && {
            let p = r->Ok_0;
            &&& p.url@ == config.base_url@ + "/chat/completions"@
            &&& p.authorization@ == "Bearer "@ + config.api_key@
            &&& p.payload.params == config.params.params
            &&& appends_user_turn(
                config.params.messages->0@,
                p.payload.messages@,
                trim(raw_diff@),
            )
            &&& p.structured == wants_json(config.params.params@)
            &&& p.extraction_template == config.custom_message
        },
{
    let diff = match staged_changes(raw_diff) {
        Ok(d) => d,
        Err(e) => {
            return Err(e);
        },
    };
    match check_credentials(&config, config_path) {
        Ok(()) => {},
        Err(e) => {
            return Err(e);
        },
    }
    let url = endpoint_url(config.base_url.as_str());
    let authorization = bearer(config.api_key.as_str());
    let structured = config.params.wants_json();
    let Config { base_url: _, api_key: _, params, custom_message } = config;
    match build(params, diff) {
        Ok(payload) => Ok(
            PreparedRequest {
                url,
                authorization,
                payload,
                structured,
                extraction_template: custom_message,
            },
        ),
        Err(e) => Err(e),
    }
}

} // verus!
