use whitt::cleaning::{clean_json_output, clean_response_text, refusal_detected};
use whitt::json::JsonValue;
use whitt::model_resolution::{model_name_drift_hint, resolve_model_file};
use whitt::server::{own_server_port, server_container_name, tmp_root, zombie_check_command, zombie_threshold};
use whitt::templates::{
    interpolate_template, parse_model_metadata, resolve_bookmark_templates, resolve_step_output_templates,
    resolve_templates, Bookmark, HookContext,
};

fn make_hook_context(step_name: &str, iteration: usize, output: Option<&str>) -> HookContext {
    HookContext {
        step_name: step_name.to_string(),
        iteration,
        output: output.map(|s| s.to_string()),
        error_message: None,
        loop_type: "count".to_string(),
        model_size: None,
        model_family: None,
        model_quantization: None,
    }
}

#[test]
fn test_interpolate_template_current_model() {
    let ctx = make_hook_context("my_model.gguf", 1, None);
    assert_eq!(interpolate_template("output/{{current_model}}.json", &ctx), "output/my_model.gguf.json");
}

#[test]
fn test_interpolate_template_loop_current_model() {
    let ctx = make_hook_context("test_model.gguf", 2, None);
    assert_eq!(interpolate_template("output/{{loop.current_model}}.txt", &ctx), "output/test_model.gguf.txt");
}

#[test]
fn test_interpolate_template_step_output() {
    let ctx = make_hook_context("model", 1, Some("hello world"));
    assert_eq!(interpolate_template("prefix_{{step.output}}_suffix", &ctx), "prefix_hello world_suffix");
}

#[test]
fn test_interpolate_template_iteration() {
    let ctx = make_hook_context("model", 5, None);
    assert_eq!(interpolate_template("run_{{iteration}}.json", &ctx), "run_5.json");
}

#[test]
fn test_interpolate_template_loop_iteration() {
    let ctx = make_hook_context("model", 3, None);
    assert_eq!(interpolate_template("step_{{loop.iteration}}", &ctx), "step_3");
}

#[test]
fn test_interpolate_template_multiple_vars() {
    let ctx = make_hook_context("model_a.gguf", 2, Some("result text"));
    assert_eq!(
        interpolate_template("./outputs/{{current_model}}/iter_{{iteration}}/out.txt", &ctx),
        "./outputs/model_a.gguf/iter_2/out.txt"
    );
}

#[test]
fn test_interpolate_template_no_vars() {
    let ctx = make_hook_context("model", 1, None);
    assert_eq!(interpolate_template("plain/path.txt", &ctx), "plain/path.txt");
}

#[test]
fn test_interpolate_template_unknown_variable() {
    let ctx = make_hook_context("model", 1, Some("output"));
    assert_eq!(interpolate_template("path/{{unknown_var}}/file.txt", &ctx), "path/{{unknown_var}}/file.txt");
}

#[test]
fn test_interpolate_template_empty() {
    let ctx = make_hook_context("model", 1, None);
    assert_eq!(interpolate_template("", &ctx), "");
}

#[test]
fn test_interpolate_template_only_markers() {
    let ctx = make_hook_context("model_a", 3, Some("out"));
    assert_eq!(interpolate_template("{{current_model}}{{iteration}}{{step.output}}", &ctx), "model_a3out");
}

#[test]
fn test_interpolate_template_adjacent_vars() {
    let ctx = make_hook_context("model_x", 5, Some("result"));
    assert_eq!(interpolate_template("{{iteration}}{{current_model}}", &ctx), "5model_x");
}

#[test]
fn test_interpolate_template_special_chars() {
    let ctx = make_hook_context("model:with/special\\chars", 1, Some("output with \"quotes\""));
    assert_eq!(
        interpolate_template("prefix_{{step.output}}_{{current_model}}", &ctx),
        "prefix_output with \"quotes\"_model:with/special\\chars"
    );
}

fn model_context(name: &str, iteration: usize, size: Option<&str>, family: Option<&str>, quant: Option<&str>) -> HookContext {
    HookContext {
        step_name: name.to_string(),
        iteration,
        output: Some("test".to_string()),
        error_message: None,
        loop_type: "count".to_string(),
        model_size: size.map(String::from),
        model_family: family.map(String::from),
        model_quantization: quant.map(String::from),
    }
}

#[test]
fn test_interpolate_template_with_model_size() {
    let context = model_context("llama-2-7b", 0, Some("7b"), Some("llama"), Some("q4"));
    assert_eq!(interpolate_template("Model {{current_model}} has size {{model.size}}", &context), "Model llama-2-7b has size 7b");
}

#[test]
fn test_interpolate_template_with_model_family() {
    let context = model_context("ministral-3b", 0, Some("3b"), Some("mistral"), None);
    assert_eq!(interpolate_template("Family: {{model.family}}", &context), "Family: mistral");
}

#[test]
fn test_interpolate_template_with_model_quantization() {
    let context = model_context("llama-2-7b-q4", 0, Some("7b"), Some("llama"), Some("q4"));
    assert_eq!(interpolate_template("Quantization: {{model.quantization}}", &context), "Quantization: q4");
}

#[test]
fn test_interpolate_template_all_model_vars() {
    let context = model_context("ministral-3b", 1, Some("3b"), Some("mistral"), None);
    assert_eq!(interpolate_template("{{model.family}}-{{model.size}} iter={{iteration}}", &context), "mistral-3b iter=1");
}

#[test]
fn unset_model_placeholders_stay() {
    let context = model_context("m", 0, None, None, None);
    assert_eq!(interpolate_template("{{model.size}}|{{model.quantization}}", &context), "{{model.size}}|{{model.quantization}}");
}

#[test]
fn test_parse_model_metadata_llama() {
    let (size, family, quantization) = parse_model_metadata("llama-2-7b");
    assert_eq!(size, Some("7b".to_string()));
    assert_eq!(family, Some("llama".to_string()));
    assert_eq!(quantization, None);
}

#[test]
fn test_parse_model_metadata_ministral() {
    let (size, family, quantization) = parse_model_metadata("ministral-3b");
    assert_eq!(size, Some("3b".to_string()));
    assert_eq!(family, Some("mistral".to_string()));
    assert_eq!(quantization, None);
}

#[test]
fn test_parse_model_metadata_qwen() {
    let (size, family, quantization) = parse_model_metadata("qwen2-7b");
    assert_eq!(size, Some("7b".to_string()));
    assert_eq!(family, Some("qwen".to_string()));
    assert_eq!(quantization, None);
}

#[test]
fn test_parse_model_metadata_quantization() {
    let (size, family, quantization) = parse_model_metadata("llama-2-7b-q4");
    assert_eq!(size, Some("7b".to_string()));
    assert_eq!(family, Some("llama".to_string()));
    assert_eq!(quantization, Some("q4".to_string()));
}

#[test]
fn model_metadata_is_case_insensitive() {
    let (size, family, quantization) = parse_model_metadata("Gemma-70B-F16");
    assert_eq!(size, Some("70b".to_string()));
    assert_eq!(family, Some("gemma".to_string()));
    assert_eq!(quantization, Some("f16".to_string()));
    assert_eq!(parse_model_metadata("unknown"), (None, None, None));
    // sizes are tried in a fixed order, so "13b" is reported by its "3b" suffix
    assert_eq!(parse_model_metadata("qwen-13b").0, Some("3b".to_string()));
}

fn outputs(pairs: &[(&str, &str)]) -> Vec<(String, String)> {
    pairs.iter().map(|(a, b)| (a.to_string(), b.to_string())).collect()
}

#[test]
fn test_resolve_step_output_templates_basic() {
    let step_outputs = outputs(&[("step_1", "output from step 1")]);
    let result = resolve_step_output_templates("Previous step output: {{step.step_1.output}}", &step_outputs);
    assert_eq!(result, "Previous step output: output from step 1");
}

#[test]
fn test_resolve_step_output_templates_multiple_references() {
    let step_outputs = outputs(&[("step_a", "result A"), ("step_b", "result B")]);
    let result = resolve_step_output_templates("{{step.step_a.output}} and {{step.step_b.output}}", &step_outputs);
    assert_eq!(result, "result A and result B");
}

#[test]
fn test_resolve_step_output_templates_unknown_step_id() {
    let result = resolve_step_output_templates("Unknown: {{step.step_999.output}}", &Vec::new());
    assert_eq!(result, "Unknown: {{step.step_999.output}}");
}

#[test]
fn test_resolve_step_output_templates_no_template() {
    let result = resolve_step_output_templates("Plain text without templates", &Vec::new());
    assert_eq!(result, "Plain text without templates");
}

#[test]
fn test_resolve_step_output_templates_empty_map() {
    let result = resolve_step_output_templates("{{step.step_1.output}}", &Vec::new());
    assert_eq!(result, "{{step.step_1.output}}");
}

#[test]
fn test_resolve_step_output_templates_mixed_content() {
    let step_outputs = outputs(&[("generate", "generated code")]);
    let result = resolve_step_output_templates("Here is the {{step.generate.output}}:\nUse it wisely", &step_outputs);
    assert_eq!(result, "Here is the generated code:\nUse it wisely");
}

fn vars(pairs: Vec<(&str, JsonValue)>) -> Vec<(String, JsonValue)> {
    pairs.into_iter().map(|(k, v)| (k.to_string(), v)).collect()
}

#[test]
fn test_resolve_templates_single_step_var() {
    let variables = vars(vec![("model_ref", JsonValue::Str("qwen-05b".into()))]);
    assert_eq!(resolve_templates("Model: {{step.model_ref}}", &variables, 0), "Model: qwen-05b");
}

#[test]
fn test_resolve_templates_multiple_step_vars() {
    let variables = vars(vec![("model_ref", JsonValue::Str("qwen-05b".into())), ("model_name", JsonValue::Str("Qwen2.5".into()))]);
    assert_eq!(resolve_templates("{{step.model_ref}} - {{step.model_name}}", &variables, 0), "qwen-05b - Qwen2.5");
}

#[test]
fn test_resolve_templates_iteration_var() {
    assert_eq!(resolve_templates("Iteration: {{iteration}}", &Vec::new(), 5), "Iteration: 5");
}

#[test]
fn test_resolve_templates_no_templates() {
    assert_eq!(resolve_templates("No templates here", &Vec::new(), 0), "No templates here");
}

#[test]
fn test_resolve_templates_combined_step_and_iteration() {
    let variables = vars(vec![("model_ref", JsonValue::Str("qwen-05b".into()))]);
    assert_eq!(resolve_templates("{{step.model_ref}} at iteration {{iteration}}", &variables, 3), "qwen-05b at iteration 3");
}

#[test]
fn non_string_variables_are_not_substituted() {
    let variables = vars(vec![("flag", JsonValue::Bool(true))]);
    assert_eq!(resolve_templates("{{step.flag}}", &variables, 0), "{{step.flag}}");
}

#[test]
fn test_resolve_bookmark_templates_unknown_key_unchanged() {
    let result = resolve_bookmark_templates("Missing: {{bookmarks.nonexistent}}", &Vec::new());
    assert_eq!(result, "Missing: {{bookmarks.nonexistent}}");
}

#[test]
fn test_resolve_bookmark_templates_empty_bookmarks() {
    let result = resolve_bookmark_templates("{{bookmarks.missing}}", &Vec::new());
    assert_eq!(result, "{{bookmarks.missing}}");
}

#[test]
fn bookmark_text_and_fields_are_substituted() {
    let bookmarks = vec![Bookmark {
        key: "shell_output".to_string(),
        text: "{\"exit_code\":42,\"stdout\":\"ok\"}".to_string(),
        fields: vec![("stdout".to_string(), "ok".to_string()), ("exit_code".to_string(), "42".to_string())],
    }];
    let result = resolve_bookmark_templates(
        "Out: {{bookmarks.shell_output.stdout }} / {{bookmarks.shell_output.exit_code}} / {{bookmarks.shell_output}}",
        &bookmarks,
    );
    assert_eq!(result, "Out: ok / 42 / {\"exit_code\":42,\"stdout\":\"ok\"}");
}

#[test]
fn given_dot_dash_spelling_drift_when_model_resolved_then_normalized_match() {
    let discovered = vec![("Qwen3-5-9B-Q4_K_M.gguf".to_string(), "/models/Qwen3-5-9B-Q4_K_M.gguf".to_string())];
    let hit = resolve_model_file("Qwen3.5-9B-Q4_K_M", &discovered);
    assert!(hit.is_some(), "dot/dash drift must resolve via normalization");
    assert_eq!(hit.unwrap().0, "Qwen3-5-9B-Q4_K_M.gguf");
}

#[test]
fn given_case_mismatch_when_model_resolved_then_case_insensitive_match() {
    let discovered = vec![("Ministral-3B-instruct.gguf".to_string(), "/models/Ministral-3B-instruct.gguf".to_string())];
    let hit = resolve_model_file("ministral-3b-instruct", &discovered);
    assert!(hit.is_some(), "case drift must resolve via normalization");
    assert_eq!(hit.unwrap().0, "Ministral-3B-instruct.gguf");
}

#[test]
fn given_exact_name_and_variant_when_model_resolved_then_exact_wins() {
    let discovered = vec![
        ("Model-X-Q8_0.gguf".to_string(), "/models/Model-X-Q8_0.gguf".to_string()),
        ("Model-X.gguf".to_string(), "/models/Model-X.gguf".to_string()),
    ];
    let hit = resolve_model_file("Model-X", &discovered);
    assert_eq!(hit.expect("must resolve").0, "Model-X.gguf");
}

#[test]
fn model_resolution_falls_back_to_substring_then_base_name() {
    let discovered = vec![
        ("alpha-7b.gguf".to_string(), "/m/a".to_string()),
        ("beta-chat-q4.gguf".to_string(), "/m/b".to_string()),
    ];
    assert_eq!(resolve_model_file("chat", &discovered).unwrap().1, "/m/b");
    assert_eq!(resolve_model_file("beta-instruct", &discovered).unwrap().0, "beta-chat-q4.gguf");
    assert!(resolve_model_file("gamma", &discovered).is_none());
}

#[test]
fn given_fuzzy_model_resolution_when_drift_hint_computed_then_names_drift() {
    let some = model_name_drift_hint("Qwen3.5-9B", "Qwen3-5-9B-Q4_K_M.gguf");
    assert!(some.is_some(), "fuzzy match must yield a drift hint");
    let hint = some.unwrap();
    assert!(hint.contains("Qwen3.5-9B") && hint.contains("Qwen3-5-9B-Q4_K_M.gguf"));
    assert_eq!(model_name_drift_hint("m.gguf", "m.gguf"), None, "exact match needs no hint");
    assert_eq!(model_name_drift_hint("m", "m.gguf"), None);
    assert_eq!(model_name_drift_hint("m.gguf", "m"), None);
}

#[test]
fn detect_refusal_returns_zero_on_match_else_baseline() {
    let patterns = vec!["I cannot help".to_string()];
    assert!(refusal_detected("Sorry, I cannot help with that", &patterns));
    assert!(refusal_detected("SORRY, I CANNOT HELP", &patterns));
    assert!(!refusal_detected("Sure, here is the answer", &patterns));
    assert!(!refusal_detected("", &patterns));
}

#[test]
fn json_output_is_unfenced_and_stripped() {
    assert_eq!(clean_json_output("```json\n{\"a\": 1}\n```"), "{\"a\": 1}");
    assert_eq!(clean_json_output("  <|im_start|>{\"a\": 1}<|im_end|>  "), "{\"a\": 1}");
    assert_eq!(clean_json_output("plain"), "plain");
}

#[test]
fn response_text_is_cut_to_valid_json() {
    assert_eq!(clean_response_text("{\"a\": 1} trailing"), "{\"a\": 1}");
    assert_eq!(clean_response_text("[1, 2,]"), "[1, 2]");
    assert_eq!(clean_response_text("{\"a\": [1,],}"), "{\"a\": [1]}");
    assert_eq!(clean_response_text("Here:\n```\n[1,2]\n```"), "[1,2]");
    assert_eq!(clean_response_text("not json"), "not json");
    assert_eq!(clean_response_text("{broken"), "{broken");
}

#[test]
fn own_server_port_from_url() {
    assert_eq!(own_server_port("http://localhost:8081"), 8081);
    assert_eq!(own_server_port("http://localhost:9000/"), 9000);
    assert_eq!(own_server_port("http://localhost"), 8080);
    assert_eq!(own_server_port("http://localhost:99999"), 8080);
}

#[test]
fn given_router_mode_zombie_command_when_built_then_excludes_router_process() {
    let cmd = zombie_check_command(8080);
    assert!(cmd.contains("models-dir"));
}

#[test]
fn given_own_server_port_when_zombie_command_built_then_excludes_live_server() {
    let cmd = zombie_check_command(8080);
    assert!(cmd.contains("grep -v -- --port 8080"), "zombie check must exclude the live server on our own port");
    let other = zombie_check_command(9999);
    assert!(other.contains("grep -v -- --port 9999"));
    assert!(!other.contains("--port 8080"));
}

#[test]
fn zombie_threshold_reads_integers() {
    assert_eq!(zombie_threshold(None), 2);
    assert_eq!(zombie_threshold(Some("5")), 5);
    assert_eq!(zombie_threshold(Some("-3")), -3);
    assert_eq!(zombie_threshold(Some("x")), 2);
    assert_eq!(zombie_threshold(Some(" 5")), 2);
}

#[test]
fn given_tmpdir_env_when_tmp_root_resolved_then_env_wins_over_hardcoded_tmp() {
    assert_eq!(tmp_root(Some("/var/scratch")), "/var/scratch");
    assert_eq!(tmp_root(Some("")), "/tmp");
    assert_eq!(tmp_root(None), "/tmp");
}

#[test]
fn given_no_env_when_server_container_name_then_defaults() {
    assert_eq!(server_container_name(None), "whitt-llama-server");
    assert_eq!(server_container_name(Some("box")), "box");
}
