use whitt::model_selector::ModelCandidate;
use whitt::yaml_generator::{placeholder_models, suite_names, suite_sizes, BenchmarkYamlGenerator};

fn create_test_candidate(path: &str, model_id: &str, file_size_bytes: u64) -> ModelCandidate {
    ModelCandidate {
        path: path.to_string(),
        model_id: model_id.to_string(),
        file_size_bytes,
        estimated_vram_bytes: file_size_bytes,
        fits_in_vram: true,
        author: "test".to_string(),
    }
}

#[test]
fn test_generate_benchmark_yaml_valid_yaml() {
    let models = vec![
        create_test_candidate("/models/model1.gguf", "model 1", 1_000_000_000),
        create_test_candidate("/models/model2.gguf", "model 2", 2_000_000_000),
        create_test_candidate("/models/model3.gguf", "model 3", 3_000_000_000),
    ];
    let prompts = vec!["Explain recursion", "Write Rust function"];
    let yaml = BenchmarkYamlGenerator::generate_benchmark_yaml("test", &models, &prompts, 128)
        .expect("Failed to generate YAML");
    assert!(yaml.contains("workflow_id:"));
    assert!(yaml.contains("name:"));
    assert!(yaml.contains("models:"));
    assert!(yaml.contains("execution:"));
    assert!(yaml.contains("benchmark:"));
    assert!(yaml.contains("agentic_workflow:"));
    assert!(yaml.contains("discover_models"));
    assert!(yaml.contains("benchmark_loop"));
    assert!(yaml.contains("max_iterations: 3"));
}

#[test]
fn test_generate_benchmark_yaml_correct_model_count() {
    let models = vec![
        create_test_candidate("/models/model1.gguf", "model 1", 1_000_000_000),
        create_test_candidate("/models/model2.gguf", "model 2", 2_000_000_000),
        create_test_candidate("/models/model3.gguf", "model 3", 3_000_000_000),
        create_test_candidate("/models/model4.gguf", "model 4", 4_000_000_000),
        create_test_candidate("/models/model5.gguf", "model 5", 5_000_000_000),
    ];
    let prompts = vec!["Test prompt"];
    let yaml = BenchmarkYamlGenerator::generate_benchmark_yaml("test", &models, &prompts, 128)
        .expect("Failed to generate YAML");
    assert!(yaml.contains("max_iterations: 5"));
}

#[test]
fn test_generate_benchmark_yaml_prompts_escaped() {
    let models = vec![create_test_candidate("/models/model.gguf", "model", 1_000_000_000)];
    let prompts = vec!["Simple prompt", "Prompt with \"quotes\"", "Prompt\nwith\nnewlines"];
    let yaml = BenchmarkYamlGenerator::generate_benchmark_yaml("test", &models, &prompts, 128)
        .expect("Failed to generate YAML");
    assert!(yaml.contains("Simple prompt"));
    assert!(yaml.contains("Prompt with"));
    assert!(yaml.contains("quotes"));
}

#[test]
fn test_generate_benchmark_yaml_roundtrip() {
    let models = vec![create_test_candidate("/models/model1.gguf", "model 1", 1_000_000_000)];
    let prompts = vec!["Test prompt"];
    let yaml = BenchmarkYamlGenerator::generate_benchmark_yaml("test", &models, &prompts, 128)
        .expect("Failed to generate YAML");
    assert!(yaml.contains("workflow_id:"));
    assert!(yaml.contains("name:"));
    assert!(yaml.contains("agentic_workflow:"));
    assert!(yaml.contains("max_iterations: 1"));
}

#[test]
fn test_generate_benchmark_yaml_with_models_valid_yaml() {
    let models = vec![
        create_test_candidate("/models/model1.gguf", "model 1", 1_000_000_000),
        create_test_candidate("/models/model2.gguf", "model 2", 2_000_000_000),
    ];
    let prompts = vec!["Test prompt"];
    let yaml = BenchmarkYamlGenerator::generate_benchmark_yaml_with_models("test", &models, &prompts, 128)
        .expect("Failed to generate YAML");
    assert!(yaml.contains("benchmark:"));
    assert!(yaml.contains("  models:"));
    assert!(yaml.contains("path: \"/models/model1.gguf\""));
    assert!(yaml.contains("path: \"/models/model2.gguf\""));
    assert!(yaml.contains("max_iterations: 2"));
}

#[test]
fn yaml_newlines_in_prompts_are_escaped() {
    let models = vec![create_test_candidate("/models/model.gguf", "model", 1_000_000_000)];
    let prompts = vec!["line one\nline two"];
    let yaml = BenchmarkYamlGenerator::generate_benchmark_yaml("test", &models, &prompts, 64)
        .expect("Failed to generate YAML");
    assert!(yaml.contains("line one\\nline two"));
    assert!(!yaml.contains("line one\nline two"));
}

#[test]
fn yaml_with_no_models_loops_zero_times() {
    let models: Vec<ModelCandidate> = Vec::new();
    let prompts = vec!["p"];
    let yaml = BenchmarkYamlGenerator::generate_benchmark_yaml("test", &models, &prompts, 64)
        .expect("Failed to generate YAML");
    assert!(yaml.contains("max_iterations: 0"));
}

#[test]
fn yaml_quotes_and_backslashes_in_prompts_are_escaped() {
    let models = vec![create_test_candidate("/models/model.gguf", "model", 1_000_000_000)];
    let prompts = vec!["Prompt with \"quotes\"", "a\\b", "tab\there\r"];
    let yaml = BenchmarkYamlGenerator::generate_benchmark_yaml("test", &models, &prompts, 64)
        .expect("Failed to generate YAML");
    assert!(yaml.contains("    - \"Prompt with \\\"quotes\\\"\"\n"));
    assert!(yaml.contains("    - \"a\\\\b\"\n"));
    assert!(yaml.contains("    - \"tab\\there\\r\"\n"));
}

#[test]
fn suites_are_sized_and_named_by_model_count() {
    assert_eq!(suite_sizes(2), Vec::<usize>::new());
    assert_eq!(suite_sizes(5), vec![3, 5]);
    assert_eq!(suite_sizes(100), vec![3, 5, 15, 50]);
    assert_eq!(suite_names(15), ("benchmark-15-models".to_string(), "benchmark-15-models.yml".to_string()));
    let p = placeholder_models(5);
    assert_eq!(p.len(), 5);
    assert_eq!(p[0].path, "/path/to/model_1.gguf");
    assert_eq!(p[4].model_id, "model_5");
    assert_eq!(p[4].author, "placeholder");
    assert_eq!(p[4].file_size_bytes, 0);
}
