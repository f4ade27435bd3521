use whitt::backend::{HealthStatus, LlmError, MockError, MockLlmBackend};
use whitt::detail::{
    detail_file_name, render_detail, truncate_preview, DetailFigures, DetailGenerator, InferenceFigures,
    DEFAULT_DETAIL_TEMPLATE,
};
use whitt::json::JsonValue;
use whitt::persistence::{format_timestamp, WorkflowPersistence, WorkflowState, WorkflowStatus};
use whitt::tools::{FinalAnswerTool, ToolCallError, ToolFilter};

#[test]
fn test_mock_backend_basic_chat() {
    let mut backend = MockLlmBackend::new("test-model");
    backend.set_response("Test response".to_string());
    let response = backend.chat().unwrap();
    assert_eq!(response.content, "Test response");
    assert_eq!(response.model, "test-model");
    let total = response.usage.iter().find(|(k, _)| k == "total_tokens").map(|(_, v)| *v);
    assert_eq!(total, Some(30));
}

#[test]
fn test_mock_backend_error_injection() {
    let mut backend = MockLlmBackend::new("test-model");
    backend.set_error(Some(MockError::Timeout("Test timeout".to_string())));
    let result = backend.chat();
    assert!(matches!(result, Err(LlmError::Timeout(_))));
    assert_eq!(result.unwrap_err().message(), "Timeout error: Test timeout");
}

#[test]
fn test_mock_backend_delay() {
    let mut backend = MockLlmBackend::new("test-model");
    assert_eq!(backend.delay_nanos(), 0);
    backend.set_delay(50_000_000);
    assert_eq!(backend.delay_nanos(), 50_000_000);
    assert!(backend.chat().is_ok());
}

#[test]
fn test_mock_backend_list_models() {
    let backend = MockLlmBackend::new("test-model");
    let models = backend.list_models().unwrap();
    assert_eq!(models.len(), 1);
    assert_eq!(models[0].id, "test-model");
    assert_eq!(models[0].object, "model");
    assert_eq!(models[0].owned_by, "mock");
}

#[test]
fn test_mock_backend_health_check() {
    let backend = MockLlmBackend::new("test-model");
    assert_eq!(backend.health_check().unwrap(), HealthStatus::Healthy);
}

#[test]
fn test_mock_backend_load_unload_model() {
    let backend = MockLlmBackend::new("test-model");
    backend.load_model().unwrap();
    backend.unload_model().unwrap();
}

#[test]
fn test_mock_backend_streaming() {
    let mut backend = MockLlmBackend::new("test-model");
    backend.set_response("Hello, world!".to_string());
    let chunks = backend.chat_stream().expect("stream should succeed");
    assert_eq!(chunks, vec!["Hello", ", wor", "ld!"]);
    assert_eq!(chunks.concat(), "Hello, world!");
}

#[test]
fn test_mock_backend_streaming_error() {
    let mut backend = MockLlmBackend::new("test-model");
    backend.set_error(Some(MockError::Connection("Test connection error".to_string())));
    assert!(matches!(backend.chat_stream(), Err(LlmError::Connection(_))));
    backend.set_error(None);
    assert!(backend.chat_stream().is_ok());
}

#[test]
fn test_mock_backend_capabilities() {
    let caps = MockLlmBackend::new("test-model").capabilities();
    assert!(caps.streaming);
    assert!(caps.tools);
    assert!(caps.function_calling);
}

#[test]
fn test_mock_backend_base_url() {
    assert_eq!(MockLlmBackend::new("test-model").base_url(), "http://mock-backend");
}

#[test]
fn mock_backend_defaults_and_errors_map_kind_for_kind() {
    let backend = MockLlmBackend::default();
    assert_eq!(backend.model_name(), "mock-model");
    assert_eq!(backend.chat().unwrap().content, "Mock response");
    assert!(matches!(LlmError::from(MockError::RateLimited("r".into())), LlmError::RateLimited(m) if m == "r"));
    assert!(matches!(LlmError::from(MockError::Parse("p".into())), LlmError::Parse(_)));
    assert_eq!(LlmError::Model("m".into()).message(), "Model error: m");
    assert!(MockLlmBackend::new("x").chat_stream().unwrap().len() == 3);
}

fn names(v: &[&str]) -> Vec<String> {
    v.iter().map(|s| s.to_string()).collect()
}

#[test]
fn test_registry_no_filtering_allows_all() {
    let filter = ToolFilter::new();
    assert!(filter.is_tool_allowed("tool_a"));
    assert!(filter.is_tool_allowed("tool_b"));
}

#[test]
fn test_registry_allowed_tools_filters_execution() {
    let filter = ToolFilter::new().with_allowed_tools(names(&["tool_a"]));
    assert!(filter.check_call("tool_a", true).is_none());
    let refused = filter.check_call("tool_b", true).expect("refused");
    assert!(refused.message().contains("not allowed"));
}

#[test]
fn test_registry_forbidden_tools_takes_precedence() {
    let filter = ToolFilter::new()
        .with_allowed_tools(names(&["tool_a", "tool_b"]))
        .with_forbidden_tools(names(&["tool_a"]));
    assert!(!filter.is_tool_allowed("tool_a"));
    assert!(filter.is_tool_allowed("tool_b"));
}

#[test]
fn test_registry_allowed_empty_means_all() {
    let filter = ToolFilter::new().with_allowed_tools(Vec::new());
    assert!(filter.is_tool_allowed("tool_a"));
    assert!(filter.is_tool_allowed("tool_b"));
}

#[test]
fn unknown_tool_is_reported_after_permission() {
    let filter = ToolFilter::new().with_forbidden_tools(names(&["tool_b"]));
    match filter.check_call("tool_c", false) {
        Some(ToolCallError::NotFound(n)) => assert_eq!(n, "tool_c"),
        other => panic!("expected not found, got {other:?}"),
    }
    assert_eq!(filter.check_call("tool_b", false).unwrap().message(), "Tool 'tool_b' is not allowed");
    assert_eq!(ToolCallError::NotFound("x".into()).message(), "Tool not found: x");
}

#[test]
fn final_answer_tool_returns_the_answer() {
    let tool = FinalAnswerTool::new();
    assert_eq!(tool.name(), "final_answer");
    let args = vec![("answer".to_string(), JsonValue::Str("42".to_string()))];
    let result = tool.execute(&args).unwrap();
    assert_eq!(result.tool_name, "final_answer");
    assert_eq!(result.output, "42");
    assert!(result.success);
    assert_eq!(result.metadata, vec![("type".to_string(), "final_answer".to_string())]);
    let err = tool.execute(&vec![("answer".to_string(), JsonValue::Bool(true))]).unwrap_err();
    assert_eq!(err.message(), "Missing or invalid answer argument");
    assert!(tool.execute(&Vec::new()).is_err());
}

#[test]
fn test_workflow_state_new() {
    let state = WorkflowState::new("test-workflow".to_string(), "step1".to_string(), format_timestamp(0));
    assert_eq!(state.workflow_id, "test-workflow");
    assert_eq!(state.current_step, "step1");
    assert!(state.completed_steps.is_empty());
    assert_eq!(state.status, WorkflowStatus::Running);
    assert_eq!(state.created_at, "1970-01-01T00:00:00Z");
}

#[test]
fn test_workflow_state_complete_step() {
    let mut state = WorkflowState::new("test-workflow".to_string(), "step1".to_string(), "t0".to_string());
    state.complete_step("step1".to_string(), "t1".to_string());
    state.complete_step("step2".to_string(), "t2".to_string());
    assert_eq!(state.completed_steps.len(), 2);
    assert_eq!(state.completed_steps[0], "step1");
    assert_eq!(state.completed_steps[1], "step2");
    assert_eq!(state.updated_at, "t2");
}

#[test]
fn test_workflow_state_variables() {
    let mut state = WorkflowState::new("test-workflow".to_string(), "step1".to_string(), "t0".to_string());
    state.set_variable("key1".to_string(), JsonValue::Str("value1".to_string()), "t1".to_string());
    assert_eq!(state.get_variable("key1"), Some(&JsonValue::Str("value1".to_string())));
    assert_eq!(state.get_variable("key2"), None);
    state.set_variable("key1".to_string(), JsonValue::Null, "t2".to_string());
    assert_eq!(state.get_variable("key1"), Some(&JsonValue::Null));
    assert_eq!(state.variables.len(), 1);
}

#[test]
fn checkpoints_copy_the_variables() {
    let mut state = WorkflowState::new("w".to_string(), "s".to_string(), "t0".to_string());
    state.set_variable("k".to_string(), JsonValue::Bool(true), "t1".to_string());
    state.record_checkpoint("s", "t2".to_string());
    state.set_variable("k".to_string(), JsonValue::Bool(false), "t3".to_string());
    assert_eq!(state.checkpoints.len(), 1);
    assert_eq!(state.checkpoints[0].step_name, "s");
    assert_eq!(state.checkpoints[0].timestamp, "t2");
    assert_eq!(state.checkpoints[0].state, vec![("k".to_string(), JsonValue::Bool(true))]);
    state.set_status(WorkflowStatus::Completed, "t4".to_string());
    state.set_current_step("next".to_string(), "t5".to_string());
    assert_eq!(state.status, WorkflowStatus::Completed);
    assert_eq!(state.current_step, "next");
}

#[test]
fn timestamps_are_formatted() {
    assert_eq!(format_timestamp(0), "1970-01-01T00:00:00Z");
    assert_eq!(format_timestamp(86400 + 3661), "1970-01-02T01:01:01Z");
    assert_eq!(format_timestamp(365 * 86400), "1971-01-01T00:00:00Z");
    assert_eq!(format_timestamp(1_700_000_000), "2023-11-14T22:13:20Z");
    assert_eq!(format_timestamp(1_704_067_200), "2024-01-01T00:00:00Z");
    assert_eq!(format_timestamp(1_709_164_800), "2024-02-29T00:00:00Z");
    assert_eq!(format_timestamp(951_782_400), "2000-02-29T00:00:00Z");
    assert_eq!(format_timestamp(4_107_542_400), "2100-03-01T00:00:00Z");
    assert_eq!(format_timestamp(1_735_689_599), "2024-12-31T23:59:59Z");
}

#[test]
fn workflow_paths_end_with_the_id() {
    let p = WorkflowPersistence::in_directory("/tmp/whitt-store".to_string());
    let path = p.get_workflow_path("abc");
    assert!(path.ends_with("abc.json"));
    assert_eq!(path, "/tmp/whitt-store/abc.json");
    assert!(!p.sync_exists("definitely-not-there-xyz"));
}

fn inference(prompt: &str, response: &str) -> InferenceFigures {
    InferenceFigures {
        prompt: prompt.to_string(),
        response_text: response.to_string(),
        prompt_tokens: 10,
        completion_tokens: 20,
        total_tokens: 30,
        duration_secs: "0.50".to_string(),
        tokens_per_second: "60.00".to_string(),
    }
}

fn make_test_model_result() -> DetailFigures {
    DetailFigures {
        model_id: "test-model-q4_k_m.gguf".to_string(),
        model_path: "/models/test-model-q4_k_m.gguf".to_string(),
        file_size_bytes: 2_000_000_000,
        file_size_mb: "1907.35".to_string(),
        load_duration_secs: "5.00".to_string(),
        unload_duration_secs: "2.00".to_string(),
        total_duration_secs: "10.00".to_string(),
        tokens_per_second: "62.50".to_string(),
        avg_latency_ms: "750.00".to_string(),
        p50_latency_ms: "700.00".to_string(),
        p95_latency_ms: "900.00".to_string(),
        p99_latency_ms: "1000.00".to_string(),
        gpu_mode: "gpu".to_string(),
        speedup_factor: Some("2.50".to_string()),
        error: None,
        inferences: vec![
            inference("What is the capital of France?", "The capital of France is Paris."),
            inference("Explain quantum computing.", "Quantum computing uses quantum bits..."),
        ],
    }
}

#[test]
fn given_default_template_when_rendered_then_contains_header() {
    let md = render_detail(DEFAULT_DETAIL_TEMPLATE, &make_test_model_result());
    assert!(md.contains("# Model Detail: test-model-q4_k_m.gguf"));
}

#[test]
fn given_default_template_when_rendered_then_contains_summary_table() {
    let md = render_detail(DEFAULT_DETAIL_TEMPLATE, &make_test_model_result());
    assert!(md.contains("## Summary"));
    assert!(md.contains("| Model ID | test-model-q4_k_m.gguf |"));
    assert!(md.contains("| Speedup Factor | 2.50x |"));
}

#[test]
fn given_custom_template_when_rendered_then_substitutes_scalars() {
    let template = "Model {{model_id}} ran at {{tokens_per_second}} tok/s on {{gpu_mode}}.";
    assert_eq!(render_detail(template, &make_test_model_result()), "Model test-model-q4_k_m.gguf ran at 62.50 tok/s on gpu.");
}

#[test]
fn given_custom_template_with_each_block_when_rendered_then_loops_inferences() {
    let template = "{{#each inference}}P{{index}}: {{prompt_preview}} | {{/each}}";
    let md = render_detail(template, &make_test_model_result());
    assert!(md.contains("P1: What is the capital of France"));
    assert!(md.contains("P2: Explain quantum computing."));
}

#[test]
fn given_detail_generator_with_none_template_when_used_then_uses_default() {
    let gen = DetailGenerator::new("/tmp", None);
    let md = gen.generate_model_detail(&make_test_model_result());
    assert!(md.contains("# Model Detail: test-model-q4_k_m.gguf"));
    assert!(md.contains("## Summary"));
}

#[test]
fn given_detail_generator_with_custom_template_when_used_then_applies_template() {
    let gen = DetailGenerator::new("/tmp", Some("Custom: {{model_id}}".to_string()));
    assert_eq!(gen.generate_model_detail(&make_test_model_result()), "Custom: test-model-q4_k_m.gguf");
}

#[test]
fn given_long_prompt_when_detail_generated_then_truncates_preview() {
    let mut result = make_test_model_result();
    result.inferences[0].prompt = "a".repeat(200);
    result.inferences[0].response_text = "b".repeat(400);
    let md = DetailGenerator::new("/tmp", None).generate_model_detail(&result);
    assert!(md.contains("- **Input**:"));
    assert!(md.contains("..."));
    assert!(md.contains("#### Full Response"));
    assert!(md.contains("```"));
    assert!(md.contains(&format!("{}...", "a".repeat(100))));
    assert!(!md.contains(&"a".repeat(101)));
}

#[test]
fn given_model_result_with_error_when_rendered_then_error_row_present() {
    let mut result = make_test_model_result();
    result.error = Some("Model failed to load".to_string());
    let md = render_detail(DEFAULT_DETAIL_TEMPLATE, &result);
    assert!(md.contains("| Error | Model failed to load |"));
}

#[test]
fn given_no_speedup_when_rendered_then_no_speedup_row() {
    let mut result = make_test_model_result();
    result.speedup_factor = None;
    let md = render_detail(DEFAULT_DETAIL_TEMPLATE, &result);
    assert!(!md.contains("Speedup Factor"));
}

#[test]
fn empty_inference_list_renders_a_note() {
    let mut result = make_test_model_result();
    result.inferences.clear();
    let md = render_detail("[{{#each inference}}x{{/each}}]", &result);
    assert_eq!(md, "[No inference results available.\n]");
}

#[test]
fn previews_cut_at_byte_limits() {
    assert_eq!(truncate_preview("abc", 5), "abc");
    assert_eq!(truncate_preview("abcdef", 3), "abc...");
    assert_eq!(truncate_preview("héllo", 3), "hé...");
    assert_eq!(truncate_preview("", 0), "");
}

#[test]
fn given_model_result_with_special_chars_when_written_then_sanitizes_filename() {
    assert_eq!(detail_file_name("model/with\\special.chars.gguf"), "detail-model_with_special_chars.md");
    assert_eq!(detail_file_name("test-model-q4_k_m.gguf"), "detail-test-model-q4_k_m.md");
}
