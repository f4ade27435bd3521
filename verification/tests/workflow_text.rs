use whitt::step_execution::attempt_prompt;
use whitt::workflow_file::StepsError;
use whitt::workflow_text::{steps_from_text, workflow_config_from_text, workflow_document, WorkflowTextError};
use whitt::json::JsonValue;

#[test]
fn steps_from_text_reads_one_step() {
    let text = "agentic_workflow:\n  steps:\n    - step: a\n      prompt: hi\n";
    let steps = steps_from_text(text).unwrap();
    assert_eq!(steps.len(), 1);
    assert_eq!(steps[0].step_name, "a");
    assert_eq!(steps[0].prompt.as_deref(), Some("hi"));
}

#[test]
fn steps_from_text_invalid_yaml_is_a_parse_error() {
    match steps_from_text("a: [") {
        Err(e @ WorkflowTextError::StepsParse(_)) => {
            let m = e.message("w.yml");
            assert!(m.starts_with("[benchmark] failed to parse workflow YAML w.yml: "));
            assert!(m.ends_with(" — refusing to fall back to discovery benchmark (Issue T)"));
        }
        other => panic!("unexpected: {:?}", other),
    }
}

#[test]
fn steps_from_text_without_section() {
    match steps_from_text("name: x\n") {
        Err(WorkflowTextError::Steps(StepsError::NoAgenticWorkflow)) => {}
        other => panic!("unexpected: {:?}", other),
    }
}

#[test]
fn config_from_text_without_section() {
    match workflow_config_from_text("name: x\n") {
        Err(e @ WorkflowTextError::NoAgenticWorkflow) => {
            assert_eq!(
                e.message("w.yml"),
                "[benchmark] no agentic_workflow section in YAML w.yml — workflow must have agentic_workflow.steps (cycle-3 hardening)"
            );
        }
        other => panic!("unexpected: {:?}", other.map(|_| ())),
    }
}

#[test]
fn config_from_text_invalid_yaml() {
    match workflow_config_from_text("a: [") {
        Err(e @ WorkflowTextError::ConfigParse(_)) => {
            assert!(e
                .message("w.yml")
                .starts_with("[benchmark] failed to parse workflow YAML for config extraction: "));
        }
        other => panic!("unexpected: {:?}", other.map(|_| ())),
    }
}

#[test]
fn config_from_text_reads_first_prompt() {
    let text = "agentic_workflow:\n  steps:\n    - step: a\n      prompt: hello\n";
    let (doc, config) = workflow_config_from_text(text).unwrap();
    assert!(matches!(doc, JsonValue::Object(_)));
    let config = config.unwrap();
    assert_eq!(config.prompts, vec!["hello".to_string()]);
}

#[test]
fn workflow_document_reads_a_mapping() {
    match workflow_document("k: 3\n").unwrap() {
        JsonValue::Object(members) => {
            assert_eq!(members.len(), 1);
            assert_eq!(members[0].0, "k");
        }
        other => panic!("unexpected: {:?}", other),
    }
}

#[test]
fn attempt_prompt_keeps_short_prompts() {
    assert_eq!(attempt_prompt("hello", 2, 3), Some("hello".to_string()));
}

#[test]
fn attempt_prompt_cuts_long_prompt_on_last_attempt() {
    let prompt: String = "a".repeat(1000) + &"b".repeat(4000);
    assert_eq!(attempt_prompt(&prompt, 2, 3), Some("b".repeat(3000)));
    assert_eq!(attempt_prompt(&prompt, 1, 3), Some(prompt.clone()));
}

#[test]
fn attempt_prompt_cut_on_multibyte_boundary() {
    let prompt: String = "é".repeat(2500);
    assert_eq!(attempt_prompt(&prompt, 0, 1), Some("é".repeat(1500)));
    let odd: String = "é".repeat(2500) + "a";
    assert_eq!(attempt_prompt(&odd, 0, 1), None);
}

use whitt::backend::{HealthStatus, LlmError};
use whitt::llama_backend::{
    after_attempt, attempt_error, first_request, health_verdict, model_status_reached, status_poll_transition,
    HttpOutcome, ListedModel, PollAction, PollEvent, RequestAction, RequestKind,
};

fn listed(id: &str, status: &str) -> ListedModel {
    ListedModel { id: Some(id.to_string()), status: Some(status.to_string()) }
}

#[test]
fn load_wait_polls_until_loaded() {
    let polls = ["loading", "loading", "loaded"];
    let mut seen = 0;
    for status in polls {
        seen += 1;
        let event = PollEvent::Listing(Some(vec![listed("m", status)]));
        match status_poll_transition("m", true, &event) {
            PollAction::Done => break,
            PollAction::PollAgainAfterMillis(ms) => assert_eq!(ms, 250),
            PollAction::Fail(e) => panic!("unexpected failure: {}", e.message()),
        }
    }
    assert_eq!(seen, 3);
}

#[test]
fn unload_wait_ends_when_model_gone() {
    let still = PollEvent::Listing(Some(vec![listed("m", "loaded")]));
    assert!(matches!(status_poll_transition("m", false, &still), PollAction::PollAgainAfterMillis(250)));
    let gone = PollEvent::Listing(Some(vec![]));
    assert!(matches!(status_poll_transition("m", false, &gone), PollAction::Done));
    assert!(model_status_reached(&vec![listed("m", "unloaded")], "m", false));
    assert!(!model_status_reached(&vec![], "m", true));
    assert!(model_status_reached(&vec![listed("x", "loading"), listed("m", "loaded")], "m", true));
}

#[test]
fn status_wait_times_out() {
    match status_poll_transition("m", true, &PollEvent::DeadlinePassed) {
        PollAction::Fail(LlmError::Timeout(m)) => assert_eq!(
            m,
            "model m did not reach status 'loaded' within 240s (async load/unload verification)"
        ),
        other => panic!("unexpected: {:?}", other),
    }
    assert!(matches!(status_poll_transition("m", true, &PollEvent::Listing(None)), PollAction::PollAgainAfterMillis(250)));
}

#[test]
fn request_attempt_errors() {
    let limited = HttpOutcome::Status { code: 429, status_text: "429 Too Many Requests".to_string(), body: None };
    assert!(matches!(attempt_error(RequestKind::Chat, &limited), Some(LlmError::RateLimited(m)) if m == "Rate limited"));
    assert!(matches!(attempt_error(RequestKind::ListModels, &limited),
        Some(LlmError::Connection(m)) if m == "HTTP 429 Too Many Requests: Unknown error"));
    let missing = HttpOutcome::Status { code: 404, status_text: "404 Not Found".to_string(), body: Some("{}".to_string()) };
    assert!(matches!(attempt_error(RequestKind::LoadModel, &missing),
        Some(LlmError::Model(m)) if m == "Failed to load model (HTTP 404 Not Found): {}"));
    assert!(matches!(attempt_error(RequestKind::UnloadModel, &missing),
        Some(LlmError::Model(m)) if m == "Failed to unload model (HTTP 404 Not Found): {}"));
    assert!(matches!(attempt_error(RequestKind::Chat, &HttpOutcome::Failed("boom".to_string())),
        Some(LlmError::Internal(m)) if m == "Request failed: boom"));
    assert!(matches!(attempt_error(RequestKind::Chat, &HttpOutcome::TimedOut("slow".to_string())),
        Some(LlmError::Timeout(m)) if m == "slow"));
    assert!(attempt_error(RequestKind::Chat, &HttpOutcome::Success).is_none());
}

#[test]
fn request_retries_then_fails_with_last_error() {
    assert!(matches!(first_request(0), RequestAction::Fail(LlmError::Internal(m)) if m == "Max retries exceeded"));
    assert!(matches!(first_request(3), RequestAction::Send { attempt: 1 }));
    let refused = HttpOutcome::ConnectFailed("refused".to_string());
    assert!(matches!(after_attempt(RequestKind::Chat, 1, 3, &refused), RequestAction::Retry { failed: 1 }));
    assert!(matches!(after_attempt(RequestKind::Chat, 3, 3, &refused),
        RequestAction::Fail(LlmError::Connection(m)) if m == "refused"));
    assert!(matches!(after_attempt(RequestKind::Chat, 2, 3, &HttpOutcome::Success), RequestAction::Proceed));
}

#[test]
fn health_verdicts() {
    assert_eq!(health_verdict(&HttpOutcome::Success), HealthStatus::Healthy);
    let server = HttpOutcome::Status { code: 503, status_text: "503 Service Unavailable".to_string(), body: None };
    assert_eq!(health_verdict(&server), HealthStatus::Degraded);
    let client = HttpOutcome::Status { code: 404, status_text: "404 Not Found".to_string(), body: None };
    assert_eq!(health_verdict(&client), HealthStatus::Unhealthy);
    assert_eq!(health_verdict(&HttpOutcome::TimedOut("t".to_string())), HealthStatus::Unhealthy);
    assert_eq!(health_verdict(&HttpOutcome::Failed("f".to_string())), HealthStatus::Degraded);
}

use whitt::tools::{model_lifecycle_result, ModelLifecycle};

#[test]
fn model_load_reports() {
    let (ok, state) = model_lifecycle_result("m", false, &Ok(()));
    assert!(ok.success);
    assert_eq!(ok.tool_name, "model_load");
    assert_eq!(ok.output, "Model 'm' loaded successfully");
    assert!(matches!(state, Some(ModelLifecycle::Loaded)));
    let (failed, state) = model_lifecycle_result("m", false, &Err(LlmError::Model("gone".to_string())));
    assert!(!failed.success);
    assert_eq!(failed.output, "Failed to load model 'm': Model error: gone");
    assert_eq!(failed.metadata, vec![("error".to_string(), "Model error: gone".to_string())]);
    assert!(matches!(state, Some(ModelLifecycle::Error(t)) if t == "Model error: gone"));
}

#[test]
fn model_unload_reports() {
    let (ok, state) = model_lifecycle_result("m", true, &Ok(()));
    assert_eq!(ok.tool_name, "model_unload");
    assert_eq!(ok.output, "Model 'm' unloaded successfully");
    assert!(matches!(state, Some(ModelLifecycle::Unloaded)));
    let (failed, state) = model_lifecycle_result("m", true, &Err(LlmError::Timeout("t".to_string())));
    assert_eq!(failed.output, "Failed to unload model 'm': Timeout error: t");
    assert!(state.is_none());
}
