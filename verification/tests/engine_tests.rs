use flipclip::config::PromptsConfig;
use flipclip::engine::{
    build_request_body, call_openrouter, evaluate_generation, interpret_response, resolve_instruction,
    run, ApiReply,
};
use flipclip::error::PipelineError;

fn success_body(content: &str) -> String {
    format!(
        "{{\"id\":\"gen-1\",\"choices\":[{{\"message\":{{\"role\":\"assistant\",\"content\":\"{content}\"}}}}],\"usage\":{{\"total_tokens\":7}}}}"
    )
}

#[test]
fn request_body_is_exact() {
    assert_eq!(
        build_request_body("Do it.", "some \"text\""),
        "{\"model\":\"qwen/qwen3-32b\",\"messages\":[{\"role\":\"system\",\"content\":\"Do it.\"},{\"role\":\"user\",\"content\":\"some \\\"text\\\"\"}],\"max_tokens\":4096,\"temperature\":0.3}"
    );
}

#[test]
fn resolve_instruction_falls_back_for_unknown_mode() {
    let c = PromptsConfig::default();
    assert_eq!(
        resolve_instruction(&c, &String::from("tldr")),
        "Return a 2-sentence summary."
    );
    assert_eq!(
        resolve_instruction(&c, &String::from("gone")),
        "Summarize this text."
    );
}

#[test]
fn successful_response_is_extracted_and_trimmed() {
    let reply = ApiReply::Success(success_body("  Hello world.  "));
    assert_eq!(interpret_response(&reply).unwrap(), "Hello world.");
}

#[test]
fn empty_generation_is_an_error() {
    let reply = ApiReply::Success(success_body("   "));
    assert_eq!(
        interpret_response(&reply).unwrap_err(),
        PipelineError::EmptyGeneration
    );
}

#[test]
fn malformed_response_is_an_error() {
    for body in [
        "not json at all",
        "{\"choices\":[]}",
        "{\"choices\":[{\"message\":{\"content\":7}}]}",
        "{\"choices\":[{\"message\":{}}]}",
    ] {
        let reply = ApiReply::Success(String::from(body));
        assert_eq!(
            interpret_response(&reply).unwrap_err(),
            PipelineError::MalformedResponse,
            "body: {body}"
        );
    }
}

#[test]
fn failure_status_surfaces_the_raw_body() {
    let reply = ApiReply::Failure(String::from("{\"error\":\"rate limited\"}"));
    assert_eq!(
        interpret_response(&reply).unwrap_err(),
        PipelineError::ApiStatusFailure(String::from("{\"error\":\"rate limited\"}"))
    );
}

#[test]
fn transport_failure_is_reported() {
    assert_eq!(
        interpret_response(&ApiReply::Transport).unwrap_err(),
        PipelineError::TransportFailure
    );
}

#[test]
fn evaluate_generation_checks_content() {
    assert_eq!(
        evaluate_generation(None).unwrap_err(),
        PipelineError::MalformedResponse
    );
    assert_eq!(
        evaluate_generation(Some(String::from("\t\n  "))).unwrap_err(),
        PipelineError::EmptyGeneration
    );
    assert_eq!(
        evaluate_generation(Some(String::from("  ok then  "))).unwrap(),
        "ok then"
    );
}

#[test]
fn run_skips_blank_clipboard_without_calling_api() {
    for clip in ["", "   ", " \t\n "] {
        let clipboard = String::from(clip);
        // The reply would be a success; a blank clipboard must ignore it.
        let reply = ApiReply::Success(success_body("unused"));
        let report = run(&clipboard, &reply);
        assert!(!report.api_called);
        assert_eq!(report.pastes, 0);
        assert_eq!(report.clipboard, clip);
        assert!(report.outcome.is_ok());
    }
}

#[test]
fn run_success_replaces_clipboard_and_pastes_once() {
    let clipboard = String::from("original text");
    let reply = ApiReply::Success(success_body("  Hello world.  "));
    let report = run(&clipboard, &reply);
    assert!(report.api_called);
    assert_eq!(report.clipboard, "Hello world.");
    assert_eq!(report.pastes, 1);
    assert!(report.outcome.is_ok());
}

#[test]
fn run_empty_generation_keeps_clipboard() {
    let clipboard = String::from("original text");
    let reply = ApiReply::Success(success_body("  "));
    let report = run(&clipboard, &reply);
    assert!(report.api_called);
    assert_eq!(report.clipboard, "original text");
    assert_eq!(report.pastes, 0);
    assert_eq!(report.outcome.unwrap_err(), PipelineError::EmptyGeneration);
}

#[test]
fn run_failures_keep_clipboard() {
    let clipboard = String::from("keep me");
    for reply in [
        ApiReply::Transport,
        ApiReply::Failure(String::from("boom")),
        ApiReply::Success(String::from("not json")),
    ] {
        let report = run(&clipboard, &reply);
        assert!(report.api_called);
        assert_eq!(report.clipboard, "keep me");
        assert_eq!(report.pastes, 0);
        assert!(report.outcome.is_err());
    }
}

#[test]
fn missing_credential_fails_before_any_request() {
    assert_eq!(
        call_openrouter(None, "text", "prompt").unwrap_err(),
        PipelineError::CredentialMissing
    );
}
