use std::collections::HashSet;
use whitt::model_selector::{ModelCandidate, ModelSelector, SizeTier};

fn create_candidate(path: &str, model_id: &str, file_size_bytes: u64, author: &str) -> ModelCandidate {
    ModelCandidate {
        path: path.to_string(),
        model_id: model_id.to_string(),
        file_size_bytes,
        estimated_vram_bytes: file_size_bytes,
        fits_in_vram: true,
        author: author.to_string(),
    }
}

#[test]
fn test_size_tier_classification() {
    assert_eq!(SizeTier::from_file_size(1_000_000_000), SizeTier::Tiny);
    assert_eq!(SizeTier::from_file_size(1_500_000_000), SizeTier::Tiny);
    assert_eq!(SizeTier::from_file_size(1_500_000_001), SizeTier::Small);
    assert_eq!(SizeTier::from_file_size(3_000_000_000), SizeTier::Small);
    assert_eq!(SizeTier::from_file_size(3_000_000_001), SizeTier::Medium);
    assert_eq!(SizeTier::from_file_size(4_000_000_000), SizeTier::Medium);
    assert_eq!(SizeTier::from_file_size(4_000_000_001), SizeTier::Large);
    assert_eq!(SizeTier::from_file_size(6_000_000_000), SizeTier::Large);
}

#[test]
fn test_select_from_empty_candidates() {
    let candidates: Vec<ModelCandidate> = Vec::new();
    let selected = ModelSelector::select_n_models(&candidates, 3);
    assert!(selected.is_empty());
}

#[test]
fn test_select_zero_models() {
    let candidates = vec![create_candidate("/models/model1.gguf", "model 1", 1_000_000_000, "test")];
    let selected = ModelSelector::select_n_models(&candidates, 0);
    assert!(selected.is_empty());
}

#[test]
fn test_select_more_than_available() {
    let candidates = vec![
        create_candidate("/models/model1.gguf", "model 1", 1_000_000_000, "test"),
        create_candidate("/models/model2.gguf", "model 2", 2_000_000_000, "test"),
    ];
    let selected = ModelSelector::select_n_models(&candidates, 5);
    assert_eq!(selected.len(), 2);
}

#[test]
fn test_select_all_candidates() {
    let candidates = vec![
        create_candidate("/models/model1.gguf", "model 1", 1_000_000_000, "test"),
        create_candidate("/models/model2.gguf", "model 2", 2_000_000_000, "test"),
    ];
    let selected = ModelSelector::select_n_models(&candidates, 2);
    assert_eq!(selected.len(), 2);
}

#[test]
fn test_tier_allocation_proportional() {
    let candidates = vec![
        create_candidate("/models/tiny1.gguf", "tiny 1", 1_000_000_000, "test"),
        create_candidate("/models/tiny2.gguf", "tiny 2", 1_000_000_000, "test"),
        create_candidate("/models/small1.gguf", "small 1", 2_000_000_000, "test"),
        create_candidate("/models/medium1.gguf", "medium 1", 3_500_000_000, "test"),
        create_candidate("/models/large1.gguf", "large 1", 5_000_000_000, "test"),
    ];
    let selected = ModelSelector::select_n_models(&candidates, 3);
    let tiers: HashSet<SizeTier> = selected.iter().map(|c| SizeTier::from_file_size(c.file_size_bytes)).collect();
    assert!(tiers.len() >= 2, "Should have diverse tier representation");
}

#[test]
fn test_architecture_diversity() {
    let candidates = vec![
        create_candidate("/models/qwen.gguf", "qwen 4b q4km", 2_500_000_000, "alibaba"),
        create_candidate("/models/llama.gguf", "llama 3 2b q4km", 2_000_000_000, "meta"),
        create_candidate("/models/mistral.gguf", "mistral 7b q4km", 4_500_000_000, "mistral"),
        create_candidate("/models/gemma.gguf", "gemma 2b q4km", 1_800_000_000, "google"),
        create_candidate("/models/phi.gguf", "phi 3 mini q4km", 2_300_000_000, "microsoft"),
    ];
    let selected = ModelSelector::select_n_models(&candidates, 3);
    let archs: HashSet<String> = selected.iter().map(|c| ModelSelector::extract_architecture(&c.model_id)).collect();
    assert!(archs.len() >= 2, "Should have diverse architectures");
}

#[test]
fn test_extract_architecture() {
    assert_eq!(ModelSelector::extract_architecture("qwen 4b instruct q4km"), "Qwen");
    assert_eq!(ModelSelector::extract_architecture("llama 3 2b chat q4km"), "Llama");
    assert_eq!(ModelSelector::extract_architecture("mistral 7b instruct q4km"), "Mistral");
    assert_eq!(ModelSelector::extract_architecture("gemma 2b it q4km"), "Gemma");
    assert_eq!(ModelSelector::extract_architecture("phi 3 mini q4km"), "Phi");
    assert_eq!(ModelSelector::extract_architecture("falcon 7b q4km"), "Falcon");
}

#[test]
fn selection_never_exceeds_request_and_only_returns_candidates() {
    let candidates = vec![
        create_candidate("/m/a.gguf", "alpha 1b", 900_000_000, "x"),
        create_candidate("/m/b.gguf", "beta 2b", 2_000_000_000, "y"),
        create_candidate("/m/c.gguf", "gamma 3b", 3_500_000_000, "z"),
        create_candidate("/m/d.gguf", "delta 7b", 5_000_000_000, "x"),
    ];
    for n in 0..6 {
        let selected = ModelSelector::select_n_models(&candidates, n);
        assert!(selected.len() <= n);
        assert_eq!(selected.len(), n.min(candidates.len()));
        for s in &selected {
            assert!(candidates.contains(s));
        }
    }
}

#[test]
fn size_tier_upper_bounds() {
    assert_eq!(SizeTier::Tiny.max_size_bytes(), 1_500_000_000);
    assert_eq!(SizeTier::Small.max_size_bytes(), 3_000_000_000);
    assert_eq!(SizeTier::Medium.max_size_bytes(), 4_000_000_000);
    assert_eq!(SizeTier::from_file_size(0), SizeTier::Tiny);
    assert_eq!(SizeTier::from_file_size(u64::MAX), SizeTier::Large);
}

#[test]
fn every_tier_with_candidates_keeps_a_model() {
    let candidates = vec![
        create_candidate("/models/tiny1.gguf", "tiny 1", 1_000_000_000, "a"),
        create_candidate("/models/tiny2.gguf", "tiny 2", 1_000_000_000, "b"),
        create_candidate("/models/small1.gguf", "small 1", 2_000_000_000, "c"),
        create_candidate("/models/medium1.gguf", "medium 1", 3_500_000_000, "d"),
        create_candidate("/models/large1.gguf", "large 1", 5_000_000_000, "e"),
    ];
    let selected = ModelSelector::select_n_models(&candidates, 4);
    assert_eq!(selected.len(), 4);
    let tiers: HashSet<SizeTier> = selected.iter().map(|c| SizeTier::from_file_size(c.file_size_bytes)).collect();
    assert_eq!(tiers.len(), 4, "each tier with candidates keeps one model");
}

#[test]
fn surplus_is_taken_off_the_largest_tier() {
    let mut candidates = vec![
        create_candidate("/models/small.gguf", "small", 2_000_000_000, "s"),
        create_candidate("/models/medium.gguf", "medium", 3_500_000_000, "m"),
        create_candidate("/models/large.gguf", "large", 5_000_000_000, "l"),
    ];
    for i in 0..97 {
        candidates.push(create_candidate(&format!("/models/tiny{}.gguf", i), &format!("tiny {}", i), 1_000_000_000, "t"));
    }
    let selected = ModelSelector::select_n_models(&candidates, 4);
    assert_eq!(selected.len(), 4);
    let tiers: HashSet<SizeTier> = selected.iter().map(|c| SizeTier::from_file_size(c.file_size_bytes)).collect();
    assert_eq!(tiers.len(), 4);
    let tiny = selected.iter().filter(|c| SizeTier::from_file_size(c.file_size_bytes) == SizeTier::Tiny).count();
    assert_eq!(tiny, 1);
}

#[test]
fn fewer_requested_than_tiers_gives_exactly_n() {
    let candidates = vec![
        create_candidate("/models/tiny1.gguf", "tiny 1", 1_000_000_000, "a"),
        create_candidate("/models/tiny2.gguf", "tiny 2", 1_000_000_000, "b"),
        create_candidate("/models/small1.gguf", "small 1", 2_000_000_000, "c"),
        create_candidate("/models/medium1.gguf", "medium 1", 3_500_000_000, "d"),
        create_candidate("/models/large1.gguf", "large 1", 5_000_000_000, "e"),
    ];
    let selected = ModelSelector::select_n_models(&candidates, 2);
    assert_eq!(selected.len(), 2);
    assert_eq!(selected[0].path, "/models/tiny1.gguf");
    assert_eq!(selected[1].path, "/models/small1.gguf");
    let one = ModelSelector::select_n_models(&candidates, 1);
    assert_eq!(one.len(), 1);
}
