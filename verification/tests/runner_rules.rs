use whitt::admission::{
    rejection_message, workflow_preflight_resource_admission_from_samples, Admission, MinimumAvailable,
    ModelEstimate, RamSensors, ResourceAdmissionConfig, TelemetryConfig, VramSensors, REJECT_WORKFLOW_RAM,
};
use whitt::backend::{ChatResponse, LlmError};
use whitt::concurrency::nvidia_total_memory_mb;
use whitt::discovery::{
    discovered_in_directory, file_name, listed_models, model_id_of, model_list_entries,
    passes_filter, workflow_source_models, DiscoveryError, DiscoveryFilter, FoundModel,
};
use whitt::dispatch::{
    after_fan_out, after_iterations, after_step, diverse_selection_size, merged_run_parameters,
    missing_dependencies, model_key_of, model_name_for, parallel_route_plan, route_jump, step_position,
    StepTransition,
};
use whitt::json::{JsonNumber, JsonValue};
use whitt::server::{disk_space_verdict, serial_load_plan, zombie_count, zombie_verdict};
use whitt::settings::{
    default_cooldown_after_unload, default_min_tmp_space_mb, default_model_load_timeout, RunnerSettings,
    WorkflowOverrides,
};
use whitt::telemetry::{telemetry_enabled, TelemetryDecision, TelemetryRecord};
use whitt::templates::{resolve_bookmark_templates, Bookmark};
use whitt::tools::{chat_arguments, chat_parameters_schema, chat_result, string_argument, FinalAnswerTool};
use whitt::workflow::{prompt_preview, step_max_tokens, WorkflowStep};
use whitt::workflow_config::{model_source_paths, workflow_config_from, workflow_models};
use whitt::workflow_file::{extract_iterate_values, has_during_streaming_hook};

const GIB: u64 = 1024 * 1024 * 1024;

fn s(x: &str) -> JsonValue {
    JsonValue::Str(x.to_string())
}

fn n(x: u64) -> JsonValue {
    JsonValue::Number(JsonNumber { unsigned: Some(x), signed: Some(x as i64), text: x.to_string() })
}

fn arr(items: Vec<JsonValue>) -> JsonValue {
    JsonValue::Array(items)
}

fn obj(members: Vec<(&str, JsonValue)>) -> JsonValue {
    JsonValue::Object(members.into_iter().map(|(k, v)| (k.to_string(), v)).collect())
}

fn strings(v: &[&str]) -> Vec<String> {
    v.iter().map(|x| x.to_string()).collect()
}

fn lookup<'a>(vars: &'a [(String, JsonValue)], key: &str) -> Option<&'a JsonValue> {
    vars.iter().find(|(k, _)| k == key).map(|(_, v)| v)
}

fn admission_block(ram: &str, vram: &str, swap: &str, kv: &str, runtime_secs: u64) -> ResourceAdmissionConfig {
    ResourceAdmissionConfig {
        enforcement_policy: "block".to_string(),
        minimum_available: MinimumAvailable {
            ram: ram.to_string(),
            vram: vram.to_string(),
            swap_free: swap.to_string(),
        },
        model_estimate: ModelEstimate {
            kv_cache: kv.to_string(),
            compute_buffer: "512MiB".to_string(),
            host_runtime: "700MiB".to_string(),
            expected_runtime_secs: runtime_secs,
        },
        telemetry: TelemetryConfig { write_profile: true },
    }
}

fn cli_settings() -> RunnerSettings {
    RunnerSettings::new(None, 0, 1_000_000_000, 1, None)
}

fn no_overrides() -> WorkflowOverrides {
    WorkflowOverrides {
        inference_max_attempts: 3,
        refusal_patterns: vec![],
        output_root: None,
        cooldown_after_unload_secs: None,
        model_load_timeout_secs: None,
        min_tmp_space_mb: None,
        streaming_enabled: None,
        detail_template: None,
        model_filter: None,
        resource_admission: None,
    }
}

fn step_with_when(when: JsonValue) -> WorkflowStep {
    let mut step = WorkflowStep::named("test".to_string(), "test_step".to_string());
    step.when = Some(when);
    step
}

// ── iterate_values ──────────────────────────────────────────────────

#[test]
fn test_extract_iterate_values_valid() {
    let step = step_with_when(obj(vec![(
        "before_step_starts",
        arr(vec![obj(vec![(
            "iterate_values",
            obj(vec![
                ("step.model_ref", arr(vec![s("qwen-05b"), s("qwen-15b"), s("qwen-3b")])),
                (
                    "step.model_name",
                    arr(vec![
                        s("Qwen2.5-0.5B-Instruct-Q4_K_M"),
                        s("Qwen2.5-1.5B-Instruct-Q4_K_M"),
                        s("Qwen2.5-3B-Instruct-Q4_K_M"),
                    ]),
                ),
            ]),
        )])]),
    )]));
    let result = extract_iterate_values(&step);
    assert!(result.is_some());
    let maps = result.unwrap();
    assert_eq!(maps.len(), 3);
    assert_eq!(lookup(&maps[0], "model_ref"), Some(&s("qwen-05b")));
    assert_eq!(lookup(&maps[0], "model_name"), Some(&s("Qwen2.5-0.5B-Instruct-Q4_K_M")));
    assert_eq!(lookup(&maps[1], "model_ref"), Some(&s("qwen-15b")));
    assert_eq!(lookup(&maps[1], "model_name"), Some(&s("Qwen2.5-1.5B-Instruct-Q4_K_M")));
    assert_eq!(lookup(&maps[2], "model_ref"), Some(&s("qwen-3b")));
    assert_eq!(lookup(&maps[2], "model_name"), Some(&s("Qwen2.5-3B-Instruct-Q4_K_M")));
}

#[test]
fn test_extract_iterate_values_no_before_step_starts() {
    let step = step_with_when(obj(vec![("after_step_succeeds", arr(vec![obj(vec![("log", obj(vec![]))])]))]));
    assert!(extract_iterate_values(&step).is_none());
}

#[test]
fn test_extract_iterate_values_no_iterate_values() {
    let step = step_with_when(obj(vec![("before_step_starts", arr(vec![obj(vec![("log", obj(vec![]))])]))]));
    assert!(extract_iterate_values(&step).is_none());
}

#[test]
fn test_extract_iterate_values_mismatched_array_lengths() {
    let step = step_with_when(obj(vec![(
        "before_step_starts",
        arr(vec![obj(vec![(
            "iterate_values",
            obj(vec![
                ("step.model_ref", arr(vec![s("qwen-05b"), s("qwen-15b"), s("qwen-3b")])),
                (
                    "step.model_name",
                    arr(vec![s("Qwen2.5-0.5B-Instruct-Q4_K_M"), s("Qwen2.5-1.5B-Instruct-Q4_K_M")]),
                ),
            ]),
        )])]),
    )]));
    let result = extract_iterate_values(&step);
    assert!(result.is_some());
    let maps = result.unwrap();
    assert_eq!(maps.len(), 3);
    assert_eq!(lookup(&maps[0], "model_ref"), Some(&s("qwen-05b")));
    assert_eq!(lookup(&maps[0], "model_name"), Some(&s("Qwen2.5-0.5B-Instruct-Q4_K_M")));
    assert_eq!(lookup(&maps[1], "model_ref"), Some(&s("qwen-15b")));
    assert_eq!(lookup(&maps[1], "model_name"), Some(&s("Qwen2.5-1.5B-Instruct-Q4_K_M")));
    assert_eq!(lookup(&maps[2], "model_ref"), Some(&s("qwen-3b")));
    assert_eq!(lookup(&maps[2], "model_name"), None);
}

#[test]
fn test_extract_iterate_values_step_prefix_stripped() {
    let step = step_with_when(obj(vec![(
        "before_step_starts",
        arr(vec![obj(vec![(
            "iterate_values",
            obj(vec![
                ("step.model_ref", arr(vec![s("model-a")])),
                ("model_name", arr(vec![s("Model A")])),
            ]),
        )])]),
    )]));
    let result = extract_iterate_values(&step);
    assert!(result.is_some());
    let maps = result.unwrap();
    assert_eq!(maps.len(), 1);
    assert!(lookup(&maps[0], "model_ref").is_some());
    assert!(lookup(&maps[0], "model_name").is_some());
    assert!(lookup(&maps[0], "step.model_ref").is_none());
}

#[test]
fn has_during_streaming_hook_detects_config() {
    let with_hook = obj(vec![(
        "during_step_streaming",
        obj(vec![("log", obj(vec![("to_file_path", s("/tmp/x.log"))]))]),
    )]);
    let without_hook = obj(vec![("after_step_succeeds", obj(vec![("log", obj(vec![]))]))]);
    assert!(has_during_streaming_hook(&Some(with_hook)));
    assert!(!has_during_streaming_hook(&Some(without_hook)));
    assert!(!has_during_streaming_hook(&None));
}

// ── bookmarks ───────────────────────────────────────────────────────

fn text_bookmark(key: &str, text: &str) -> Bookmark {
    Bookmark { key: key.to_string(), text: text.to_string(), fields: vec![] }
}

fn shell_bookmark(key: &str, text: &str, fields: &[(&str, &str)]) -> Bookmark {
    Bookmark {
        key: key.to_string(),
        text: text.to_string(),
        fields: fields.iter().map(|(f, v)| (f.to_string(), v.to_string())).collect(),
    }
}

#[test]
fn test_resolve_bookmark_templates_flat_string() {
    let bookmarks = vec![text_bookmark("my_key", "hello world")];
    let result = resolve_bookmark_templates("Value: {{bookmarks.my_key}}", &bookmarks);
    assert_eq!(result, "Value: hello world");
}

#[test]
fn test_resolve_bookmark_templates_nested_stdout() {
    let bookmarks = vec![shell_bookmark(
        "shell_output",
        "{\"stdout\":\"file content here\",\"stderr\":\"\",\"exit_code\":0,\"success\":true}",
        &[("stdout", "file content here"), ("stderr", ""), ("exit_code", "0"), ("success", "true")],
    )];
    let result = resolve_bookmark_templates("Data:\n{{bookmarks.shell_output.stdout}}", &bookmarks);
    assert_eq!(result, "Data:\nfile content here");
}

#[test]
fn test_resolve_bookmark_templates_nested_stderr() {
    let bookmarks = vec![shell_bookmark(
        "shell_output",
        "{\"stdout\":\"ok\",\"stderr\":\"warning msg\",\"exit_code\":0,\"success\":true}",
        &[("stdout", "ok"), ("stderr", "warning msg"), ("exit_code", "0"), ("success", "true")],
    )];
    let result = resolve_bookmark_templates("Err: {{bookmarks.shell_output.stderr}}", &bookmarks);
    assert_eq!(result, "Err: warning msg");
}

#[test]
fn test_resolve_bookmark_templates_flat_object_serializes() {
    let bookmarks = vec![shell_bookmark("data", "{\"a\":1,\"b\":2}", &[("a", "1"), ("b", "2")])];
    let result = resolve_bookmark_templates("Full: {{bookmarks.data}}", &bookmarks);
    assert!(result.contains("\"a\":1"));
    assert!(result.contains("\"b\":2"));
}

#[test]
fn test_resolve_bookmark_templates_multiple_bookmarks() {
    let bookmarks = vec![text_bookmark("key_a", "val_a"), text_bookmark("key_b", "val_b")];
    let result = resolve_bookmark_templates("{{bookmarks.key_a}} and {{bookmarks.key_b}}", &bookmarks);
    assert_eq!(result, "val_a and val_b");
}

#[test]
fn test_resolve_bookmark_templates_no_placeholders() {
    let bookmarks = vec![text_bookmark("key", "val")];
    let result = resolve_bookmark_templates("Plain text without bookmarks", &bookmarks);
    assert_eq!(result, "Plain text without bookmarks");
}

#[test]
fn test_resolve_bookmark_templates_nested_number_field() {
    let bookmarks = vec![shell_bookmark(
        "shell_output",
        "{\"stdout\":\"ok\",\"exit_code\":42,\"success\":false}",
        &[("stdout", "ok"), ("exit_code", "42"), ("success", "false")],
    )];
    let result = resolve_bookmark_templates("Exit: {{bookmarks.shell_output.exit_code}}", &bookmarks);
    assert_eq!(result, "Exit: 42");
}

#[test]
fn test_resolve_bookmark_templates_nested_boolean_field() {
    let bookmarks = vec![shell_bookmark(
        "shell_output",
        "{\"stdout\":\"ok\",\"success\":true}",
        &[("stdout", "ok"), ("success", "true")],
    )];
    let result = resolve_bookmark_templates("OK: {{bookmarks.shell_output.success}}", &bookmarks);
    assert_eq!(result, "OK: true");
}

#[test]
fn test_resolve_bookmark_templates_mixed_step_and_bookmark() {
    let bookmarks = vec![text_bookmark("csv_data", "name,age\nAlice,30")];
    let result = resolve_bookmark_templates(
        "CSV: {{bookmarks.csv_data}}\nStep: {{step.step_1.output}}",
        &bookmarks,
    );
    assert_eq!(result, "CSV: name,age\nAlice,30\nStep: {{step.step_1.output}}");
}

// ── runner settings ─────────────────────────────────────────────────

#[test]
fn refusal_patterns_default_and_override_via_builder() {
    let runner = cli_settings();
    assert!(
        runner.refusal_patterns().len() >= 20,
        "default should have 20+ patterns, got {}",
        runner.refusal_patterns().len()
    );
    assert!(runner.refusal_patterns().iter().any(|p| p.contains("I cannot help")));

    let runner2 = cli_settings().with_refusal_patterns(vec!["CUSTOM_REFUSAL".into()]);
    assert_eq!(runner2.refusal_patterns().len(), 1);
    assert_eq!(runner2.refusal_patterns()[0], "CUSTOM_REFUSAL");
}

#[test]
fn inference_max_attempts_defaults_to_3_and_overrides() {
    let runner = cli_settings();
    assert_eq!(runner.inference_max_attempts(), 3, "default should be 3");
    let runner2 = cli_settings().with_inference_max_attempts(5);
    assert_eq!(runner2.inference_max_attempts(), 5, "override should propagate");
    let runner3 = cli_settings().with_inference_max_attempts(0);
    assert_eq!(runner3.inference_max_attempts(), 1, "0 clamped to 1");
}

#[test]
fn empty_refusal_list_keeps_the_defaults() {
    let runner = cli_settings().with_refusal_patterns(vec![]);
    assert_eq!(runner.refusal_patterns().len(), 22);
    assert_eq!(runner.refusal_patterns()[21], "I am not able to read");
}

#[test]
fn streaming_and_resume_builders() {
    let runner = cli_settings().with_streaming_enabled(true).with_resume(true);
    assert!(runner.streaming_enabled());
    assert!(runner.resume);
    assert!(!cli_settings().streaming_enabled());
}

#[test]
fn workflow_timing_overrides_replace_cli_values() {
    let mut settings = RunnerSettings::new(Some("/cli/out".to_string()), 3_000_000_000, 300_000_000_000, 100, None);
    let mut o = no_overrides();
    o.inference_max_attempts = 7;
    o.refusal_patterns = strings(&["NOPE"]);
    o.output_root = Some("/yaml/out".to_string());
    o.cooldown_after_unload_secs = Some(5);
    o.model_load_timeout_secs = Some(600);
    o.min_tmp_space_mb = Some(2048);
    o.streaming_enabled = Some(true);
    o.detail_template = Some("T".to_string());
    o.model_filter = Some("qwen".to_string());
    o.resource_admission = Some(admission_block("6GiB", "6GiB", "4GiB", "288MiB", 180));
    settings.apply_workflow_timing_overrides(&o);
    assert_eq!(settings.inference_max_attempts, 7);
    assert_eq!(settings.refusal_patterns, strings(&["NOPE"]));
    assert_eq!(settings.output_dir.as_deref(), Some("/cli/out"), "a CLI output dir is kept");
    assert_eq!(settings.cooldown_after_unload_nanos, 5_000_000_000);
    assert_eq!(settings.model_load_timeout_nanos, 600_000_000_000);
    assert_eq!(settings.min_tmp_space_mb, 2048, "YAML timing.min_tmp_space_mb must override config before preflight reads it");
    assert!(settings.streaming_enabled);
    assert_eq!(settings.detail_template.as_deref(), Some("T"));
    assert_eq!(settings.filter_name.as_deref(), Some("qwen"));
    assert!(settings.resource_admission.is_some());

    let mut unset = RunnerSettings::new(None, 0, 0, 1, None);
    unset.apply_workflow_timing_overrides(&o);
    assert_eq!(unset.output_dir.as_deref(), Some("/yaml/out"), "output_root fills an unset output dir");
}

#[test]
fn workflow_overrides_applied_twice_change_nothing_more() {
    let mut o = no_overrides();
    o.min_tmp_space_mb = Some(64);
    o.refusal_patterns = strings(&["A", "B"]);
    o.output_root = Some("/o".to_string());
    let mut once = cli_settings();
    once.apply_workflow_timing_overrides(&o);
    let mut twice = cli_settings();
    twice.apply_workflow_timing_overrides(&o);
    twice.apply_workflow_timing_overrides(&o);
    assert_eq!(once.min_tmp_space_mb, twice.min_tmp_space_mb);
    assert_eq!(once.refusal_patterns, twice.refusal_patterns);
    assert_eq!(once.output_dir, twice.output_dir);
    assert_eq!(once.inference_max_attempts, twice.inference_max_attempts);
}

#[test]
fn absent_workflow_values_keep_cli_values() {
    let mut settings = RunnerSettings::new(None, 9, 8, 7, Some("f".to_string()));
    settings.apply_workflow_timing_overrides(&no_overrides());
    assert_eq!(settings.cooldown_after_unload_nanos, 9);
    assert_eq!(settings.model_load_timeout_nanos, 8);
    assert_eq!(settings.min_tmp_space_mb, 7);
    assert_eq!(settings.filter_name.as_deref(), Some("f"));
    assert_eq!(settings.refusal_patterns.len(), 22);
    assert!(settings.resource_admission.is_none());
}

// ── admission and telemetry ─────────────────────────────────────────

#[test]
fn preflight_runner_admits_total_vram_capacity_when_model_is_loaded() {
    let config = admission_block("6GiB", "6GiB", "4GiB", "288MiB", 180);
    let vram = VramSensors { total_bytes: 8 * GIB, free_bytes: 712 * 1024 * 1024 };
    let ram = RamSensors {
        mem_available_kb: 8 * 1024 * 1024,
        swap_free_kb: 8 * 1024 * 1024,
        mem_total_kb: 16 * 1024 * 1024,
    };
    let admission = workflow_preflight_resource_admission_from_samples(&config, "workflow-preflight", Some(&vram), Some(&ram));
    assert!(matches!(admission, Ok(Admission::Admitted)));
}

#[test]
fn rejection_is_reported_with_code_and_detail() {
    let rejected = Admission::Rejected { code: REJECT_WORKFLOW_RAM, detail: "test rejection".to_string() };
    assert_eq!(rejection_message(&rejected).as_deref(), Some("RESOURCE_REJECT_WORKFLOW_RAM: test rejection"));
    assert_eq!(rejection_message(&Admission::Admitted), None);
}

#[test]
fn telemetry_records_minima_and_latest_decision() {
    let mut record = TelemetryRecord::new();
    record.observe(
        1_024,
        Some(&VramSensors { total_bytes: 8 * GIB, free_bytes: 7 * GIB }),
        Some(&RamSensors { mem_available_kb: 8 * 1024 * 1024, swap_free_kb: 6 * 1024 * 1024, mem_total_kb: 16 * 1024 * 1024 }),
        &Admission::Admitted,
    );
    assert!(record.latest_admission.admitted);
    record.observe(
        1_024,
        Some(&VramSensors { total_bytes: 8 * GIB, free_bytes: 6 * GIB }),
        Some(&RamSensors { mem_available_kb: 7 * 1024 * 1024, swap_free_kb: 5 * 1024 * 1024, mem_total_kb: 16 * 1024 * 1024 }),
        &Admission::Rejected { code: REJECT_WORKFLOW_RAM, detail: "test rejection".into() },
    );
    assert_eq!(record.check_count, 2);
    assert_eq!(record.weights_bytes, 1_024);
    assert_eq!(record.minimum_available_ram_bytes, Some(7 * GIB));
    assert_eq!(record.minimum_available_vram_bytes, Some(6 * GIB));
    assert_eq!(record.minimum_available_swap_free_bytes, Some(5 * GIB));
    assert!(!record.latest_admission.admitted);
    assert_eq!(record.latest_admission.code.as_deref(), Some("RESOURCE_REJECT_WORKFLOW_RAM"));
    assert_eq!(record.latest_admission.detail.as_deref(), Some("test rejection"));
}

#[test]
fn telemetry_minimum_never_rises_and_missing_sensors_keep_it() {
    let mut record = TelemetryRecord::new();
    record.observe(1, None, Some(&RamSensors { mem_available_kb: 1, swap_free_kb: 2, mem_total_kb: 3 }), &Admission::Admitted);
    record.observe(2, None, Some(&RamSensors { mem_available_kb: 10, swap_free_kb: 20, mem_total_kb: 30 }), &Admission::Admitted);
    record.observe(3, None, None, &Admission::Admitted);
    assert_eq!(record.minimum_available_ram_bytes, Some(1024));
    assert_eq!(record.minimum_available_swap_free_bytes, Some(2048));
    assert_eq!(record.minimum_available_vram_bytes, None);
    assert_eq!(record.weights_bytes, 3);
    assert_eq!(record.check_count, 3);
    let mut huge = TelemetryRecord::new();
    huge.observe(0, None, Some(&RamSensors { mem_available_kb: u64::MAX, swap_free_kb: 0, mem_total_kb: 0 }), &Admission::Admitted);
    assert_eq!(huge.minimum_available_ram_bytes, Some(u64::MAX), "KiB to bytes saturates");
}

#[test]
fn telemetry_needs_write_profile_and_an_output_dir() {
    let mut config = admission_block("1GiB", "1GiB", "0", "0", 0);
    assert!(telemetry_enabled(Some(&config), Some("/out")));
    assert!(!telemetry_enabled(Some(&config), None));
    assert!(!telemetry_enabled(None, Some("/out")));
    config.telemetry.write_profile = false;
    assert!(!telemetry_enabled(Some(&config), Some("/out")));
    let decision = TelemetryDecision::from_admission(&Admission::Admitted);
    assert!(decision.admitted && decision.code.is_none() && decision.detail.is_none());
}

// ── server checks ───────────────────────────────────────────────────

#[test]
fn zombie_count_reads_trimmed_output() {
    assert_eq!(zombie_count("3\n"), 3);
    assert_eq!(zombie_count("  0 "), 0);
    assert_eq!(zombie_count("garbage"), 0);
    assert_eq!(zombie_count(""), 0);
}

#[test]
fn zombie_verdict_compares_with_threshold() {
    assert!(zombie_verdict(2, 2).is_ok());
    assert_eq!(zombie_verdict(3, 2), Err("Found 3 llama-server processes (threshold 2)".to_string()));
    assert_eq!(zombie_verdict(0, -1), Err("Found 0 llama-server processes (threshold -1)".to_string()));
}

#[test]
fn disk_space_verdict_reports_megabytes() {
    assert!(disk_space_verdict("/tmp", 100 * 1024 * 1024, 100).is_ok());
    assert_eq!(
        disk_space_verdict("/tmp", 50 * 1024 * 1024 + 7, 100),
        Err("Insufficient /tmp space: 50 MB available, 100 MB required".to_string())
    );
}

#[test]
fn serial_load_plan_unloads_other_loaded_models() {
    let models = vec![
        ("a".to_string(), "loaded".to_string()),
        ("b".to_string(), "unloaded".to_string()),
        ("c".to_string(), "loaded".to_string()),
    ];
    let (loaded, unload) = serial_load_plan(&models, "b");
    assert!(!loaded);
    assert_eq!(unload, strings(&["a", "c"]));
    let (loaded, unload) = serial_load_plan(&models, "c");
    assert!(loaded);
    assert!(unload.is_empty());
}

#[test]
fn nvidia_information_gives_total_memory() {
    let info = "Model: \t GeForce\nTotal Available Memory: 8192 MB\r\nother: x\n";
    assert_eq!(nvidia_total_memory_mb(info), Some(8192));
    assert_eq!(nvidia_total_memory_mb("Total Available Memory: lots MB\nTotal Available Memory: 12 MB"), Some(12));
    assert_eq!(nvidia_total_memory_mb("Total Available Memory:\n"), None);
    assert_eq!(nvidia_total_memory_mb(""), None);
}

// ── workflow settings ───────────────────────────────────────────────

fn full_workflow() -> JsonValue {
    obj(vec![
        (
            "models",
            obj(vec![
                ("primary", obj(vec![("name", s("model-a.gguf")), ("sampling", obj(vec![("max_tokens", n(512))]))])),
                ("secondary", obj(vec![("name", s("")), ("sampling", obj(vec![("max_tokens", n(64))]))])),
                ("third", obj(vec![("name", s("model-c.gguf"))])),
            ]),
        ),
        ("providers", obj(vec![("local", obj(vec![("hosting", obj(vec![("gpu_layers", n(33))]))]))])),
        (
            "workflow_execution_strategy",
            obj(vec![
                ("error_handling", obj(vec![("retry", obj(vec![("max_attempts_per_step", n(4))]))])),
                ("quality", obj(vec![("refusal_patterns", arr(vec![s("no way"), n(1), s("never")]))])),
                (
                    "timing",
                    obj(vec![("cooldown_after_unload_secs", n(5)), ("model_load_timeout_secs", n(120)), ("min_tmp_space_mb", n(2048))]),
                ),
                ("streaming", obj(vec![("enabled", JsonValue::Bool(true))])),
            ]),
        ),
        (
            "workspace",
            obj(vec![
                ("directories", obj(vec![("output", s("/runs/out"))])),
                (
                    "model_selection",
                    obj(vec![("strategy", s("diverse_n")), ("diverse_n_count", n(3)), ("model_filter", s("Qwen"))]),
                ),
                ("detail_template", s("# {{model}}")),
            ]),
        ),
        (
            "agentic_workflow",
            obj(vec![(
                "steps",
                obj(vec![
                    ("zeta", obj(vec![("prompt", s("first in file")), ("model_overrides", obj(vec![("max_tokens", n(50))]))])),
                    ("alpha", obj(vec![("prompt", s("second"))])),
                ]),
            )]),
        ),
    ])
}

#[test]
fn model_selection_yaml_fields_extract_correctly() {
    let config = workflow_config_from(&full_workflow()).expect("valid").expect("config");
    assert_eq!(config.model_selection_strategy.as_deref(), Some("diverse_n"));
    assert_eq!(config.diverse_n_count, Some(3));
    assert_eq!(config.model_filter.as_deref(), Some("Qwen"));
    assert_eq!(config.detail_template.as_deref(), Some("# {{model}}"));
}

#[test]
fn workflow_settings_come_from_the_document() {
    let config = workflow_config_from(&full_workflow()).expect("valid").expect("config");
    assert_eq!(config.prompts, strings(&["first in file"]), "map-format steps: document order wins");
    assert_eq!(config.max_tokens, 512, "bootstrap step budget below 100 is ignored");
    assert_eq!(config.gpu_layers, 33);
    assert_eq!(config.model_list, strings(&["model-a.gguf", "model-c.gguf"]));
    assert_eq!(config.inference_max_attempts, 4);
    assert_eq!(config.output_root.as_deref(), Some("/runs/out"));
    assert_eq!(config.refusal_patterns, strings(&["no way", "never"]));
    assert_eq!(config.cooldown_after_unload_secs, Some(5));
    assert_eq!(config.model_load_timeout_secs, Some(120));
    assert_eq!(config.min_tmp_space_mb, Some(2048));
    assert_eq!(config.streaming_enabled, Some(true));
}

#[test]
fn workflow_settings_defaults_when_absent() {
    let doc = obj(vec![("agentic_workflow", obj(vec![("steps", arr(vec![obj(vec![("step", s("a")), ("prompt", s("p"))])]))]))]);
    let config = workflow_config_from(&doc).expect("valid").expect("config");
    assert_eq!(config.max_tokens, 4096);
    assert_eq!(config.gpu_layers, 999);
    assert_eq!(config.inference_max_attempts, 3);
    assert!(config.model_list.is_empty());
    assert!(config.refusal_patterns.is_empty());
    assert_eq!(config.model_selection_strategy, None);
    assert_eq!(config.diverse_n_count, None);
    assert_eq!(config.model_filter, None);
    assert_eq!(config.streaming_enabled, None);
    assert_eq!(config.output_root, None);
}

#[test]
fn workflow_settings_need_agentic_workflow_and_a_prompt() {
    assert!(workflow_config_from(&obj(vec![("models", obj(vec![]))])).is_err());
    let no_steps = obj(vec![("agentic_workflow", obj(vec![("steps", arr(vec![]))]))]);
    assert!(matches!(workflow_config_from(&no_steps), Ok(None)));
    let no_prompt = obj(vec![("agentic_workflow", obj(vec![("steps", arr(vec![obj(vec![("step", s("a"))])]))]))]);
    assert!(matches!(workflow_config_from(&no_prompt), Ok(None)));
}

// ── discovery ───────────────────────────────────────────────────────

fn found(id: &str, path: &str, size: Option<u64>) -> FoundModel {
    FoundModel { model_id: id.to_string(), path: path.to_string(), size }
}

fn no_filter() -> DiscoveryFilter {
    DiscoveryFilter { size_max: None, size_min: None, name_pattern: None }
}

#[test]
fn directory_discovery_keeps_gguf_files_within_limits() {
    let files = vec![
        found("a.gguf", "/m/a.gguf", Some(10)),
        found("notes.txt", "/m/notes.txt", Some(1)),
        found(".gguf", "/m/.gguf", Some(1)),
        found("big.gguf", "/m/big.gguf", Some(1000)),
        found("tiny.gguf", "/m/tiny.gguf", Some(1)),
        found("unknown.gguf", "/m/unknown.gguf", None),
    ];
    let filter = DiscoveryFilter { size_max: Some(100), size_min: Some(5), name_pattern: None };
    let kept = discovered_in_directory(&files, &filter);
    assert_eq!(
        kept,
        vec![
            ("a.gguf".to_string(), "/m/a.gguf".to_string()),
            ("unknown.gguf".to_string(), "/m/unknown.gguf".to_string()),
        ]
    );
}

#[test]
fn name_filter_uses_regular_expressions() {
    let filter = DiscoveryFilter { size_max: None, size_min: None, name_pattern: Some("^qwen.*q4".to_string()) };
    assert!(passes_filter(&filter, "qwen2-7b-q4.gguf", None));
    assert!(!passes_filter(&filter, "llama-q4.gguf", None));
    let broken = DiscoveryFilter { size_max: None, size_min: None, name_pattern: Some("qwen(".to_string()) };
    assert!(passes_filter(&broken, "anything", None), "a pattern that does not compile filters nothing");
    let listed = listed_models(&vec![found("qwen-q4", "/x/qwen-q4", None), found("phi", "/x/phi", None)], &filter);
    assert_eq!(listed, vec![("qwen-q4".to_string(), "/x/qwen-q4".to_string())]);
    assert_eq!(listed_models(&vec![found("phi", "phi", Some(3))], &no_filter()).len(), 1);
}

#[test]
fn model_list_files_skip_blank_and_comment_lines() {
    let entries = model_list_entries("# header\n  /m/a.gguf  \n\n/m/b.gguf\r\n#x\n");
    assert_eq!(entries, strings(&["/m/a.gguf", "/m/b.gguf"]));
    assert!(model_list_entries("").is_empty());
}

#[test]
fn file_names_follow_unix_paths() {
    assert_eq!(file_name("/m/a.gguf").as_deref(), Some("a.gguf"));
    assert_eq!(file_name("a/b/").as_deref(), Some("b"));
    assert_eq!(file_name("a/b/.").as_deref(), Some("b"));
    assert_eq!(file_name("a/.."), None);
    assert_eq!(file_name("/"), None);
    assert_eq!(file_name(""), None);
    assert_eq!(file_name("."), None);
    assert_eq!(model_id_of("/m/x.gguf"), "x.gguf");
    assert_eq!(model_id_of(".."), "..");
}

#[test]
fn workflow_source_paths_must_be_regular_matching_files() {
    let list = strings(&["Qwen3-8B-Q4_K_M.gguf"]);
    let sources = vec![(
        "Qwen3-8B-Q4_K_M.gguf".to_string(),
        "/run/media/jon/data/models/Qwen3-8B-Q4_K_M.gguf".to_string(),
    )];
    let regular = strings(&["/run/media/jon/data/models/Qwen3-8B-Q4_K_M.gguf"]);
    let models = workflow_source_models(&list, &sources, &regular).expect("usable");
    assert_eq!(models, sources);

    let missing = workflow_source_models(&strings(&["other.gguf"]), &sources, &regular).unwrap_err();
    assert!(matches!(missing, DiscoveryError::NoSourcePath(_)));
    assert_eq!(
        missing.message(),
        "[benchmark] workflow model other.gguf has no source_path; resource admission requires a host-stattable model file"
    );
    let not_file = workflow_source_models(&list, &sources, &vec![]).unwrap_err();
    assert!(matches!(not_file, DiscoveryError::NotRegularFile(_, _)));
    let renamed = vec![("m.gguf".to_string(), "/d/n.gguf".to_string())];
    let mismatch = workflow_source_models(&strings(&["m.gguf"]), &renamed, &strings(&["/d/n.gguf"])).unwrap_err();
    assert_eq!(
        mismatch.message(),
        "[benchmark] workflow model m.gguf source_path filename does not match model name: /d/n.gguf"
    );
}

// ── dispatch ────────────────────────────────────────────────────────

#[test]
fn model_keys_and_names() {
    assert_eq!(model_key_of("${models.primary}"), "primary");
    assert_eq!(model_key_of("${models.}"), "");
    assert_eq!(model_key_of("${models.primary"), "${models.primary");
    assert_eq!(model_key_of("raw-model.gguf"), "raw-model.gguf");
    let yaml = vec![("primary".to_string(), "Qwen3-8B".to_string())];
    assert_eq!(model_name_for("${models.primary}", Some(&yaml)), "Qwen3-8B");
    assert_eq!(model_name_for("${models.other}", Some(&yaml)), "other");
    assert_eq!(model_name_for("${models.primary}", None), "primary");
}

#[test]
fn missing_dependencies_in_required_order() {
    let outputs = vec![("a".to_string(), "out".to_string())];
    assert_eq!(missing_dependencies(&strings(&["c", "a", "b"]), &outputs), strings(&["c", "b"]));
    assert!(missing_dependencies(&strings(&["a"]), &outputs).is_empty());
}

#[test]
fn routes_jump_to_the_last_step_of_that_id() {
    let ids = strings(&["x", "y", "x"]);
    assert_eq!(step_position(&ids, "x"), Some(2));
    assert_eq!(route_jump(&strings(&["y"]), &ids), Some(1));
    assert_eq!(route_jump(&strings(&["z"]), &ids), None);
    assert_eq!(route_jump(&strings(&["x", "y"]), &ids), None);
}

#[test]
fn cli_defaults_yield_to_workflow_parameters() {
    let cli = strings(&["The quick brown fox jumps over the lazy dog."]);
    let wf = strings(&["workflow prompt"]);
    let (prompts, max_tokens, compare) = merged_run_parameters(&cli, 100, false, &wf, 4096, false);
    assert_eq!(prompts, wf);
    assert_eq!(max_tokens, 4096);
    assert!(!compare);
    let (prompts, max_tokens, _) = merged_run_parameters(&strings(&["mine"]), 100, false, &wf, 128, false);
    assert_eq!(prompts, strings(&["mine"]));
    assert_eq!(max_tokens, 100);
    assert!(merged_run_parameters(&cli, 7, false, &vec![], 9, true).2);
    assert_eq!(merged_run_parameters(&cli, 7, false, &vec![], 9, true).0, cli);
}

#[test]
fn diverse_selection_applies_only_when_it_narrows() {
    assert_eq!(diverse_selection_size(Some("diverse_n"), Some(3), 5), Some(3));
    assert_eq!(diverse_selection_size(Some("diverse_n"), Some(5), 5), None);
    assert_eq!(diverse_selection_size(Some("diverse_n"), Some(0), 5), None);
    assert_eq!(diverse_selection_size(Some("all"), Some(3), 5), None);
    assert_eq!(diverse_selection_size(None, Some(3), 5), None);
}

// ── chat tool ───────────────────────────────────────────────────────

#[test]
fn chat_arguments_need_model_and_message() {
    let args = vec![("model_name".to_string(), s("m")), ("message".to_string(), s("hi"))];
    assert_eq!(chat_arguments(&args).expect("ok"), ("m".to_string(), "hi".to_string()));
    let no_model = vec![("message".to_string(), s("hi"))];
    assert_eq!(chat_arguments(&no_model).unwrap_err().message(), "Missing or invalid model_name argument");
    let bad_message = vec![("model_name".to_string(), s("m")), ("message".to_string(), n(3))];
    assert_eq!(chat_arguments(&bad_message).unwrap_err().argument, "message");
    assert!(string_argument(&args, "absent").is_err());
}

#[test]
fn chat_results_report_replies_and_failures() {
    let ok = chat_result(Ok(ChatResponse { content: "reply".to_string(), model: "m".to_string(), usage: vec![] }));
    assert!(ok.success);
    assert_eq!(ok.tool_name, "chat");
    assert_eq!(ok.output, "reply");
    let failed = chat_result(Err(LlmError::Timeout("slow".to_string())));
    assert!(!failed.success);
    assert_eq!(failed.output, "Chat failed: Timeout error: slow");
    assert_eq!(failed.metadata, vec![("error".to_string(), "Timeout error: slow".to_string())]);
}

#[test]
fn step_transitions_follow_routes_and_skips() {
    let ids = strings(&["a", "b", "c"]);
    assert_eq!(after_step(0, None, false, &ids), StepTransition::Next(1));
    assert_eq!(after_step(0, None, true, &ids), StepTransition::Stop);
    assert_eq!(after_step(2, Some(&strings(&["a"])), true, &ids), StepTransition::JumpTo(0));
    assert_eq!(after_step(1, Some(&strings(&["zz"])), false, &ids), StepTransition::Next(2));
    assert_eq!(after_step(1, Some(&strings(&["zz"])), true, &ids), StepTransition::Stop);
    assert_eq!(after_step(1, Some(&strings(&["a", "c"])), false, &ids), StepTransition::FanOut);
    assert_eq!(after_step(1, Some(&vec![]), true, &ids), StepTransition::FanOut);
    assert_eq!(after_iterations(1, Some(&strings(&["c"])), true, &ids), StepTransition::Stop);
    assert_eq!(after_iterations(1, Some(&strings(&["c"])), false, &ids), StepTransition::JumpTo(2));
    assert_eq!(after_fan_out(1, Some(4)), 5);
    assert_eq!(after_fan_out(1, None), 2);
}

#[test]
fn step_budget_and_prompt_preview() {
    let mut step = WorkflowStep::named("s".to_string(), "s".to_string());
    assert_eq!(step_max_tokens(&step, 256), 256);
    step.model_overrides = Some(obj(vec![("max_tokens", n(32))]));
    assert_eq!(step_max_tokens(&step, 256), 32);
    step.model_overrides = Some(obj(vec![("max_tokens", s("many"))]));
    assert_eq!(step_max_tokens(&step, 256), 256);
    let long: String = "é".repeat(101);
    assert_eq!(prompt_preview(&long), format!("{}...", "é".repeat(100)));
    assert_eq!(prompt_preview("short"), "short");
}

#[test]
fn model_source_paths_keep_named_sources_in_order() {
    let doc = obj(vec![(
        "models",
        obj(vec![
            ("a", obj(vec![("name", s("Qwen3-8B-Q4_K_M.gguf")), ("source_path", s("/run/media/jon/data/models/Qwen3-8B-Q4_K_M.gguf"))])),
            ("b", obj(vec![("name", s("no-source.gguf"))])),
            ("c", obj(vec![("name", s("")), ("source_path", s("/x"))])),
        ]),
    )]);
    assert_eq!(
        model_source_paths(&doc),
        vec![("Qwen3-8B-Q4_K_M.gguf".to_string(), "/run/media/jon/data/models/Qwen3-8B-Q4_K_M.gguf".to_string())]
    );
    assert!(model_source_paths(&obj(vec![])).is_empty());
}

#[test]
fn tool_schemas_list_their_arguments() {
    let schema = FinalAnswerTool::new().parameters_schema();
    let expected = obj(vec![
        ("type", s("object")),
        (
            "properties",
            obj(vec![("answer", obj(vec![("type", s("string")), ("description", s("The final answer to return"))]))]),
        ),
        ("required", arr(vec![s("answer")])),
    ]);
    assert_eq!(schema, expected);
    let chat = chat_parameters_schema();
    match chat {
        JsonValue::Object(members) => {
            assert_eq!(members[2].1, arr(vec![s("model_name"), s("message")]));
            match &members[1].1 {
                JsonValue::Object(props) => assert_eq!(props.len(), 3),
                other => panic!("unexpected properties {:?}", other),
            }
        }
        other => panic!("unexpected schema {:?}", other),
    }
}

fn ge_step(id: &str, ge: Option<&str>) -> WorkflowStep {
    let mut step = WorkflowStep::named(id.to_string(), id.to_string());
    step.generative_entity = ge.map(|g| g.to_string());
    step
}

#[test]
fn parallel_routes_need_one_model_for_all_targets() {
    let steps = vec![
        ge_step("start", Some("${models.a}")),
        ge_step("t1", Some("${models.a}")),
        ge_step("t2", Some("${models.b}")),
        ge_step("t3", Some("${models.a}")),
        ge_step("ctl", None),
    ];
    let yaml = vec![("a".to_string(), "qwen".to_string()), ("b".to_string(), "qwen".to_string())];
    let plan = parallel_route_plan(&strings(&["t1", "t3", "missing", "ctl"]), &steps, None, true);
    assert_eq!(plan, Some(("a".to_string(), vec![1, 3])));
    assert_eq!(parallel_route_plan(&strings(&["t1", "t2"]), &steps, None, true), None, "different models");
    assert_eq!(
        parallel_route_plan(&strings(&["t1", "t2"]), &steps, Some(&yaml), true),
        Some(("qwen".to_string(), vec![1, 2])),
        "keys naming the same model"
    );
    assert_eq!(parallel_route_plan(&strings(&["t1", "t3"]), &steps, None, false), None, "contract forbids parallel");
    assert_eq!(parallel_route_plan(&strings(&["t1"]), &steps, None, true), None);
    assert_eq!(parallel_route_plan(&strings(&["t1", "ctl"]), &steps, None, true), None, "one runnable target");
}

#[test]
fn default_timings() {
    assert_eq!(default_cooldown_after_unload(), 3_000_000_000);
    assert_eq!(default_model_load_timeout(), 300_000_000_000);
    assert_eq!(default_min_tmp_space_mb(), 100);
}

#[test]
fn workflow_models_map_keys_to_names() {
    let doc = obj(vec![(
        "models",
        obj(vec![
            ("global_settings", obj(vec![("name", s("ignored"))])),
            ("primary", obj(vec![("name", s("Qwen3-8B"))])),
            ("default_sampling", obj(vec![])),
            ("secondary", obj(vec![("name", n(3))])),
        ]),
    )]);
    assert_eq!(
        workflow_models(&doc),
        Some(vec![
            ("primary".to_string(), "Qwen3-8B".to_string()),
            ("secondary".to_string(), "secondary".to_string()),
        ])
    );
    assert_eq!(workflow_models(&obj(vec![("models", arr(vec![]))])), None);
    assert_eq!(workflow_models(&obj(vec![])), None);
}
