use whitt::admission::{
    minimum_observation, requires_default_load_admission, resource_admission_allows_parallel,
    workflow_inference_resource_admission_from_samples, workflow_model_state_resource_admission_from_samples,
    workflow_preflight_resource_admission_from_samples, workflow_resource_admission,
    workflow_resource_admission_from_samples, workflow_resource_request, Admission, MinimumAvailable,
    ModelEstimate, Pressure, PressureTracker, RamSensors, ResourceAdmissionConfig, TelemetryConfig,
    VramSensors, REJECT_WORKFLOW_RAM, REJECT_WORKFLOW_SENSORS, REJECT_WORKFLOW_SWAP, REJECT_WORKFLOW_VRAM,
};
use whitt::concurrency::{detect_max_concurrent_inferences, max_concurrent_for, max_concurrent_ram, parse_concurrency_override};
use whitt::resource_size::parse_resource_bytes;

const GIB: u64 = 1024 * 1024 * 1024;
const MIB: u64 = 1024 * 1024;

fn admission_block(ram: &str, vram: &str, swap: &str, kv: &str, runtime_secs: u64) -> ResourceAdmissionConfig {
    ResourceAdmissionConfig {
        enforcement_policy: "block".to_string(),
        minimum_available: MinimumAvailable {
            ram: ram.to_string(),
            vram: vram.to_string(),
            swap_free: swap.to_string(),
        },
        model_estimate: ModelEstimate {
            kv_cache: kv.to_string(),
            compute_buffer: "512MiB".to_string(),
            host_runtime: "700MiB".to_string(),
            expected_runtime_secs: runtime_secs,
        },
        telemetry: TelemetryConfig { write_profile: true },
    }
}

#[test]
fn workflow_resource_admission_blocks_before_model_load() {
    let admission = admission_block("6GiB", "6GiB", "4GiB", "2.1GiB", 900);
    let vram = VramSensors { total_bytes: 8 * 1024 * 1024 * 1024, free_bytes: 8 * 1024 * 1024 * 1024 };
    let ram = RamSensors {
        mem_available_kb: 5 * 1024 * 1024,
        swap_free_kb: 8 * 1024 * 1024,
        mem_total_kb: 16 * 1024 * 1024,
    };
    match workflow_resource_admission(&admission, "model", 1024, &vram, &ram).expect("admission decision") {
        Admission::Rejected { code, .. } => assert_eq!(code, REJECT_WORKFLOW_RAM),
        other => panic!("expected workflow RAM rejection, got {other:?}"),
    }
}

#[test]
fn workflow_inference_admission_uses_compute_headroom_after_model_load() {
    let admission = admission_block("6GiB", "6GiB", "4GiB", "288MiB", 180);
    let vram = VramSensors { total_bytes: 8 * 1024 * 1024 * 1024, free_bytes: 712 * 1024 * 1024 };
    let ram = RamSensors {
        mem_available_kb: 8 * 1024 * 1024,
        swap_free_kb: 8 * 1024 * 1024,
        mem_total_kb: 16 * 1024 * 1024,
    };
    assert!(matches!(
        workflow_inference_resource_admission_from_samples(&admission, "model-a", 5_027_783_968, Some(&vram), Some(&ram))
            .expect("admission"),
        Admission::Admitted,
    ));
}

#[test]
fn workflow_preflight_admission_uses_total_vram_capacity_when_model_is_loaded() {
    let admission = admission_block("6GiB", "6GiB", "4GiB", "288MiB", 180);
    let vram = VramSensors { total_bytes: 8 * 1024 * 1024 * 1024, free_bytes: 712 * 1024 * 1024 };
    let ram = RamSensors {
        mem_available_kb: 8 * 1024 * 1024,
        swap_free_kb: 8 * 1024 * 1024,
        mem_total_kb: 16 * 1024 * 1024,
    };
    assert!(matches!(
        workflow_preflight_resource_admission_from_samples(&admission, "model-a", Some(&vram), Some(&ram))
            .expect("admission"),
        Admission::Admitted,
    ));
}

#[test]
fn workflow_admission_uses_inference_headroom_when_target_model_is_loaded() {
    let admission = admission_block("6GiB", "6GiB", "4GiB", "288MiB", 180);
    let vram = VramSensors { total_bytes: 8 * 1024 * 1024 * 1024, free_bytes: 712 * 1024 * 1024 };
    let ram = RamSensors {
        mem_available_kb: 8 * 1024 * 1024,
        swap_free_kb: 8 * 1024 * 1024,
        mem_total_kb: 16 * 1024 * 1024,
    };
    assert!(matches!(
        workflow_model_state_resource_admission_from_samples(&admission, "model-a", 5_027_783_968, true, Some(&vram), Some(&ram))
            .expect("admission"),
        Admission::Admitted,
    ));
    assert!(matches!(
        workflow_model_state_resource_admission_from_samples(&admission, "model-a", 5_027_783_968, false, Some(&vram), Some(&ram))
            .expect("admission"),
        Admission::Rejected { code: REJECT_WORKFLOW_VRAM, .. },
    ));
}

#[test]
fn configured_resource_admission_rejects_missing_sensors() {
    let admission = admission_block("1GiB", "1GiB", "1GiB", "1GiB", 900);
    let ram = RamSensors {
        mem_available_kb: 12 * 1024 * 1024,
        swap_free_kb: 12 * 1024 * 1024,
        mem_total_kb: 16 * 1024 * 1024,
    };
    match workflow_resource_admission_from_samples(&admission, "model", 1024, None, Some(&ram)).expect("admission decision") {
        Admission::Rejected { code, .. } => assert_eq!(code, REJECT_WORKFLOW_SENSORS),
        other => panic!("expected missing-sensor rejection, got {other:?}"),
    }
}

#[test]
fn missing_ram_sensor_also_rejects() {
    let admission = admission_block("1GiB", "1GiB", "1GiB", "1GiB", 900);
    let vram = VramSensors { total_bytes: 8 * GIB, free_bytes: 8 * GIB };
    match workflow_resource_admission_from_samples(&admission, "model", 1024, Some(&vram), None).expect("decision") {
        Admission::Rejected { code, detail } => {
            assert_eq!(code, REJECT_WORKFLOW_SENSORS);
            assert_eq!(detail, "workflow resource admission requires readable RAM and VRAM sensors");
        }
        other => panic!("expected missing-sensor rejection, got {other:?}"),
    }
}

#[test]
fn low_swap_rejects_with_swap_code() {
    let admission = admission_block("1GiB", "1GiB", "4GiB", "1GiB", 900);
    let vram = VramSensors { total_bytes: 8 * GIB, free_bytes: 8 * GIB };
    let ram = RamSensors { mem_available_kb: 8 * 1024 * 1024, swap_free_kb: 1024 * 1024, mem_total_kb: 16 * 1024 * 1024 };
    match workflow_resource_admission(&admission, "model", 1024, &vram, &ram).expect("decision") {
        Admission::Rejected { code, .. } => assert_eq!(code, REJECT_WORKFLOW_SWAP),
        other => panic!("expected swap rejection, got {other:?}"),
    }
}

#[test]
fn unreadable_size_is_reported_with_its_field() {
    let admission = admission_block("6GiB", "six", "4GiB", "1GiB", 900);
    let err = workflow_resource_request(&admission, "model", 0).unwrap_err();
    assert_eq!(err.field, "minimum_available.vram");
    assert_eq!(err.value, "six");
    assert_eq!(err.message(), "invalid workflow resource admission minimum_available.vram: six");
    let vram = VramSensors { total_bytes: 8 * GIB, free_bytes: 8 * GIB };
    let ram = RamSensors { mem_available_kb: 8 * 1024 * 1024, swap_free_kb: 8 * 1024 * 1024, mem_total_kb: 16 * 1024 * 1024 };
    assert!(workflow_resource_admission(&admission, "model", 0, &vram, &ram).is_err());
}

#[test]
fn request_reads_every_size() {
    let admission = admission_block("6GiB", "6GiB", "4GiB", "2.1GiB", 900);
    let req = workflow_resource_request(&admission, "m", 77).unwrap();
    assert_eq!(req.model_name, "m");
    assert_eq!(req.weights_bytes, 77);
    assert_eq!(req.minimum_ram_bytes, 6 * GIB);
    assert_eq!(req.minimum_vram_bytes, 6 * GIB);
    assert_eq!(req.minimum_swap_free_bytes, 4 * GIB);
    assert_eq!(req.kv_cache_bytes, 2_254_857_830);
    assert_eq!(req.compute_buffer_bytes, 512 * MIB);
    assert_eq!(req.host_runtime_bytes, 700 * MIB);
}

#[test]
fn resource_sizes_parse() {
    assert_eq!(parse_resource_bytes("6GiB"), Some(6 * GIB));
    assert_eq!(parse_resource_bytes("512MiB"), Some(512 * MIB));
    assert_eq!(parse_resource_bytes("2.1GiB"), Some(2_254_857_830));
    assert_eq!(parse_resource_bytes("1KiB"), Some(1024));
    assert_eq!(parse_resource_bytes("1TiB"), Some(1024 * GIB));
    assert_eq!(parse_resource_bytes("1024"), Some(1024));
    assert_eq!(parse_resource_bytes("7B"), Some(7));
    assert_eq!(parse_resource_bytes("0.5KiB"), Some(512));
    assert_eq!(parse_resource_bytes(""), None);
    assert_eq!(parse_resource_bytes("GiB"), None);
    assert_eq!(parse_resource_bytes("1.GiB"), None);
    assert_eq!(parse_resource_bytes("1 GiB"), None);
    assert_eq!(parse_resource_bytes("1GB"), None);
    assert_eq!(parse_resource_bytes("18446744073709551615"), Some(u64::MAX));
    assert_eq!(parse_resource_bytes("18446744073709551616"), None);
    assert_eq!(parse_resource_bytes("16777216TiB"), None);
}

#[test]
fn test_detect_max_concurrent_inferences_returns_valid_range() {
    let samples = [
        (None, None, None, None),
        (None, Some(8 * GIB), None, None),
        (None, None, Some(24576), None),
        (None, None, None, Some(3 * 1024 * 1024)),
        (None, Some(64 * GIB), Some(1), Some(1)),
    ];
    for (env, vram, nvidia, ram) in samples {
        let max_concurrent = detect_max_concurrent_inferences(env, vram, nvidia, ram);
        assert!((1..=4).contains(&max_concurrent), "should return 1-4, got {}", max_concurrent);
    }
}

#[test]
fn concurrency_sources_in_order_of_preference() {
    assert_eq!(detect_max_concurrent_inferences(Some(7), Some(8 * GIB), None, None), 7);
    assert_eq!(detect_max_concurrent_inferences(None, Some(8 * GIB), Some(32768), Some(32 * 1024 * 1024)), 1);
    assert_eq!(detect_max_concurrent_inferences(None, None, Some(16384), Some(32 * 1024 * 1024)), 2);
    assert_eq!(detect_max_concurrent_inferences(None, None, None, Some(6 * 1024 * 1024)), 3);
    assert_eq!(detect_max_concurrent_inferences(None, None, None, None), 2);
    assert_eq!(max_concurrent_for(8 * GIB), 1);
    assert_eq!(max_concurrent_for(24 * GIB), 3);
    assert_eq!(max_concurrent_for(80 * GIB), 4);
}

#[test]
fn concurrency_override_reads_positive_integers_only() {
    assert_eq!(parse_concurrency_override("3"), Some(3));
    assert_eq!(parse_concurrency_override("  12 \n"), Some(12));
    assert_eq!(parse_concurrency_override("+2"), Some(2));
    assert_eq!(parse_concurrency_override("0"), None);
    assert_eq!(parse_concurrency_override("-1"), None);
    assert_eq!(parse_concurrency_override("two"), None);
    assert_eq!(parse_concurrency_override(""), None);
}

#[test]
fn given_new_runner_when_pressure_tracker_polled_then_starts_green() {
    let tracker = PressureTracker::new();
    assert!(matches!(tracker.state(), Pressure::Green));
}

#[test]
fn test_calculate_max_concurrent_from_ram() {
    let kb = (8.0f64 * 1024.0 * 1024.0) as u64;
    assert_eq!(max_concurrent_ram(kb), 4, "8GB RAM should allow 4 concurrent inferences");
}

#[test]
fn test_calculate_max_concurrent_floor_at_1() {
    let kb = (1.5f64 * 1024.0 * 1024.0) as u64;
    assert_eq!(max_concurrent_ram(kb), 1, "1.5GB RAM should allow 1 concurrent inference (floor at 1)");
}

#[test]
fn test_calculate_max_concurrent_cap_at_4() {
    let kb = (32.0f64 * 1024.0 * 1024.0) as u64;
    assert_eq!(max_concurrent_ram(kb), 4, "32GB RAM should be capped at 4 concurrent inferences");
}

#[test]
fn minimum_observation_keeps_the_smallest() {
    assert_eq!(minimum_observation(None, 5), Some(5));
    assert_eq!(minimum_observation(Some(3), 5), Some(3));
    assert_eq!(minimum_observation(Some(9), 5), Some(5));
}

#[test]
fn resource_contract_replaces_duplicate_default_load_estimate() {
    let admission = admission_block("6GiB", "6GiB", "4GiB", "288MiB", 180);
    assert!(!requires_default_load_admission(Some(&admission)));
    assert!(requires_default_load_admission(None));
}

#[test]
fn test_route_to_parallel_resource_contract_forces_sequential_fallback() {
    let admission = admission_block("6GiB", "6GiB", "4GiB", "2GiB", 60);
    assert!(!resource_admission_allows_parallel(Some(&admission)));
    assert!(resource_admission_allows_parallel(None));
}

#[test]
fn test_route_to_parallel_empty_targets_returns_none() {
    let targets: Vec<String> = vec![];
    assert!(targets.len() <= 1);
}

#[test]
fn test_route_to_parallel_mixed_models_prevent_parallel() {
    let model_a = "model-a.gguf";
    let model_b = "model-b.gguf";
    assert_ne!(model_a, model_b);
}

#[test]
fn test_route_to_parallel_target_not_found_handled_gracefully() {
    let step_index: std::collections::HashMap<String, usize> = std::collections::HashMap::new();
    let target_id = "non_existent_step";
    assert!(!step_index.contains_key(target_id));
}

#[test]
fn test_route_to_parallel_same_model_allows_parallel() {
    let first_model = "model-a.gguf";
    let model_name = "model-a.gguf";
    assert_eq!(first_model, model_name);
}

#[test]
fn test_route_to_parallel_different_model_blocks_parallel() {
    let first_model = "model-a.gguf";
    let model_name = "model-b.gguf";
    assert_ne!(first_model, model_name);
}
