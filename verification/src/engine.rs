//! The transform engine: resolve the instruction, build the API request,
//! interpret the reply, and decide what happens to the clipboard.
//!
//! The one network dependency of the pipeline lives here, behind a small
//! trusted wrapper; everything around it — the blank-clipboard no-op, the
//! instruction fallback, the request text, the classification of replies
//! and the trim-and-check of the generated text — is verified.

use vstd::prelude::*;
use vstd::string::*;
use crate::codec::{append_chars, push_quoted, quoted};
use crate::config::{ConfigModel, PromptsConfig};
use crate::error::PipelineError;
use crate::text::{chars_of, is_blank, is_blank_chars, lemma_trim_idempotent, string_of,
    trim_chars, trim_spec};

verus! {

/// The instruction sent for `mode`: the configured one, or a generic
/// summarize instruction when the mode is unknown (for instance renamed or
/// removed by a config edit), so a stale mode degrades instead of failing.
pub open spec fn resolved_instruction(m: ConfigModel, mode: Seq<char>) -> Seq<char> {
    match m.instruction_of(mode) {
        Some(t) => t,
        None => "Summarize this text."@,
    }
}

/// Executable counterpart of [`resolved_instruction`].
pub fn resolve_instruction(config: &PromptsConfig, mode: &String) -> (r: String)
    ensures
        r@ == resolved_instruction(config@, mode@),
{
    match config.instruction_for(mode) {
        Some(s) => s,
        None => String::from_str("Summarize this text."),
    }
}

/// The request sent to the text-generation API: the fixed model, the
/// instruction as the system message, the text as the user message, a
/// fixed output budget and a low fixed sampling temperature.
pub open spec fn request_body_spec(instruction: Seq<char>, text: Seq<char>) -> Seq<char> {
    "{\"model\":\"qwen/qwen3-32b\",\"messages\":[{\"role\":\"system\",\"content\":"@ + quoted(
        instruction,
    ) + "},{\"role\":\"user\",\"content\":"@ + quoted(text)
        + "}],\"max_tokens\":4096,\"temperature\":0.3}"@
}

/// Executable counterpart of [`request_body_spec`].
pub fn build_request_body(instruction: &str, text: &str) -> (r: String)
    ensures
        r@ == request_body_spec(instruction@, text@),
{
    let mut out: Vec<char> = Vec::new();
    let head = chars_of(
        "{\"model\":\"qwen/qwen3-32b\",\"messages\":[{\"role\":\"system\",\"content\":",
    );
    append_chars(&mut out, &head);
    let iv = chars_of(instruction);
    push_quoted(&mut out, &iv);
    let mid = chars_of("},{\"role\":\"user\",\"content\":");
    append_chars(&mut out, &mid);
    let tv = chars_of(text);
    push_quoted(&mut out, &tv);
    let tail = chars_of("}],\"max_tokens\":4096,\"temperature\":0.3}");
    append_chars(&mut out, &tail);
    proof {
        assert(out@ =~= request_body_spec(instruction@, text@));
    }
    string_of(&out)
}

/// What one API call attempt came back with, as plain values.
#[derive(Debug, Clone, PartialEq, Eq)]
pub enum ApiReply {
    /// The request could not be completed at the transport level.
    Transport,
    /// A response with a non-success status; the raw body text.
    Failure(String),
    /// A response with a success status; the raw body text.
    Success(String),
}

/// The generated message inside a successful response body: the string at
/// `choices[0].message.content`, when the body parses as JSON and holds
/// one there. A function of the body text alone.
pub uninterp spec fn chat_message_content(body: Seq<char>) -> Option<Seq<char>>;

/// Relies on serde_json: parses the response body and reads the string at
/// `choices[0].message.content`; the result depends on the body alone.
#[verifier::external_body]
fn extract_chat_content(body: &str) -> (r: Option<String>)
    ensures
        match (r, chat_message_content(body@)) {
            (Some(s), Some(t)) => s@ == t,
            (None, None) => true,
            _ => false,
        },
{
    let value: serde_json::Value = match serde_json::from_str(body) {
        Ok(v) => v,
        Err(_) => return None,
    };
    value["choices"][0]["message"]["content"].as_str().map(|s| s.to_string())
}

/// Check the generated text: a missing message is a malformed response,
/// one that is blank after trimming is an empty generation (the clipboard
/// must not be overwritten with nothing), anything else is the trimmed
/// text.
pub fn evaluate_generation(content: Option<String>) -> (r: Result<String, PipelineError>)
    ensures
        content is None ==> r == Err::<String, PipelineError>(PipelineError::MalformedResponse),
        content matches Some(c) ==> {
            if trim_spec(c@).len() == 0 {
                r == Err::<String, PipelineError>(PipelineError::EmptyGeneration)
            } else {
                r matches Ok(s) && s@ == trim_spec(c@) && s@ == trim_spec(s@)
            }
        },
{
    match content {
        None => Err(PipelineError::MalformedResponse),
        Some(c) => {
            let cv = chars_of(c.as_str());
            let t = trim_chars(&cv);
            if t.len() == 0 {
                Err(PipelineError::EmptyGeneration)
            } else {
                proof {
                    lemma_trim_idempotent(cv@);
                }
                Ok(string_of(&t))
            }
        },
    }
}

/// Classify one API reply: transport failures and non-success statuses
/// are surfaced as such (the raw body kept for diagnosis); a successful
/// response hands its extracted message to [`evaluate_generation`].
pub fn interpret_response(reply: &ApiReply) -> (r: Result<String, PipelineError>)
    ensures
        reply is Transport ==> r == Err::<String, PipelineError>(PipelineError::TransportFailure),
        reply matches ApiReply::Failure(b) ==> (r matches Err(e) && e matches
            PipelineError::ApiStatusFailure(t) && t@ == b@),
        reply matches ApiReply::Success(b) ==> match chat_message_content(b@) {
            None => r == Err::<String, PipelineError>(PipelineError::MalformedResponse),
            Some(c) => {
                if trim_spec(c).len() == 0 {
                    r == Err::<String, PipelineError>(PipelineError::EmptyGeneration)
                } else {
                    r matches Ok(s) && s@ == trim_spec(c) && s@ == trim_spec(s@)
                }
            },
        },
{
    match reply {
        ApiReply::Transport => Err(PipelineError::TransportFailure),
        ApiReply::Failure(body) => Err(PipelineError::ApiStatusFailure(body.clone())),
        ApiReply::Success(body) => {
            let content = extract_chat_content(body.as_str());
            evaluate_generation(content)
        },
    }
}

/// What one transform trigger does: the clipboard text after the
/// run, how many synthetic paste sequences are triggered, whether the API
/// was called, and the reported outcome.
pub struct RunReport {
    pub clipboard: String,
    pub pastes: u32,
    pub api_called: bool,
    pub outcome: Result<(), PipelineError>,
}

/// One transform trigger, on explicit values: `clipboard` is the text the
/// clipboard held, `reply` what the API answers when called.
///
/// A blank clipboard is a silent no-op: no API call, no paste, the
/// clipboard untouched. Otherwise the reply decides: on a usable
/// generation the clipboard becomes the trimmed text and exactly one
/// paste sequence is triggered; on any failure the clipboard keeps its
/// pre-call value and nothing is pasted.
pub fn run(clipboard: &String, reply: &ApiReply) -> (r: RunReport)
    ensures
        is_blank(clipboard@) ==> !r.api_called && r.pastes == 0 && r.clipboard@ == clipboard@
            && r.outcome is Ok,
        !is_blank(clipboard@) ==> r.api_called && match reply {
            ApiReply::Transport => r.pastes == 0 && r.clipboard@ == clipboard@ && r.outcome
                == Err::<(), PipelineError>(PipelineError::TransportFailure),
            ApiReply::Failure(b) => r.pastes == 0 && r.clipboard@ == clipboard@ && (r.outcome
                matches Err(e) && e matches PipelineError::ApiStatusFailure(t) && t@ == b@),
            ApiReply::Success(b) => match chat_message_content(b@) {
                None => r.pastes == 0 && r.clipboard@ == clipboard@ && r.outcome == Err::<
                    (),
                    PipelineError,
                >(PipelineError::MalformedResponse),
                Some(c) => {
                    if trim_spec(c).len() == 0 {
                        r.pastes == 0 && r.clipboard@ == clipboard@ && r.outcome == Err::<
                            (),
                            PipelineError,
                        >(PipelineError::EmptyGeneration)
                    } else {
                        r.pastes == 1 && r.clipboard@ == trim_spec(c) && r.outcome is Ok
                    }
                },
            },
        },
{
    let cv = chars_of(clipboard.as_str());
    if is_blank_chars(&cv) {
        return RunReport {
            clipboard: clipboard.clone(),
            pastes: 0,
            api_called: false,
            outcome: Ok(()),
        };
    }
    match interpret_response(reply) {
        Ok(t) => RunReport { clipboard: t, pastes: 1, api_called: true, outcome: Ok(()) },
        Err(e) => RunReport {
            clipboard: clipboard.clone(),
            pastes: 0,
            api_called: true,
            outcome: Err(e),
        },
    }
}

/// Relies on reqwest's blocking client: one POST of `body` to the chat
/// completions endpoint with the bearer credential; `Ok` carries whether
/// the status was a success and the response body text.
#[verifier::external_body]
fn post_chat_completion(api_key: &str, body: &str) -> (r: Result<(bool, String), ()>)
{
    let client = reqwest::blocking::Client::new();
    let response = client
        .post("https://openrouter.ai/api/v1/chat/completions")
        .header("Authorization", format!("Bearer {}", api_key))
        .header("Content-Type", "application/json")
        .body(body.to_string())
        .send();
    match response {
        Ok(resp) => {
            let ok = resp.status().is_success();
            resp.text().map(|t| (ok, t)).map_err(|_| ())
        },
        Err(_) => Err(()),
    }
}

/// One remote transformation: build the request from the instruction and
/// the text, perform the API call, and hand the reply to
/// [`interpret_response`]. Performs the network request when a credential
/// is given.
///
/// Whatever comes back: a missing credential is the only source of
/// `CredentialMissing`; a success is a non-empty text that is its own trim;
/// every failure is one of the per-attempt transform errors.
pub fn call_openrouter(api_key: Option<&str>, text: &str, prompt: &str) -> (r: Result<
    String,
    PipelineError,
>)
    ensures
        api_key is None <==> r == Err::<String, PipelineError>(PipelineError::CredentialMissing),
        r matches Ok(s) ==> s@.len() > 0 && s@ == trim_spec(s@),
        r matches Err(e) ==> (e is CredentialMissing || e is TransportFailure || e
            is ApiStatusFailure || e is MalformedResponse || e is EmptyGeneration),
{
    let key = match api_key {
        Some(k) => k,
        None => {
            return Err(PipelineError::CredentialMissing);
        },
    };
    let body = build_request_body(prompt, text);
    match post_chat_completion(key, body.as_str()) {
        Err(_) => Err(PipelineError::TransportFailure),
        Ok((ok, response_body)) => {
            let reply = if ok {
                ApiReply::Success(response_body)
            } else {
                ApiReply::Failure(response_body)
            };
            interpret_response(&reply)
        },
    }
}

} // verus!
