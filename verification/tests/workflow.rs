use whitt::json::{JsonNumber, JsonValue};
use whitt::step_order::{topological_order, topological_sort_steps};
use whitt::workflow::{
    cycle_error, effective_max_attempts, is_retry_exhausted_error, max_workflow_iterations,
    premature_cap_error, require_step_prompt, WorkflowStep,
};
use whitt::workflow_file::{
    extract_dependency_names, extract_iterate_values, hook_actions_as_vec, looks_like_hook_action,
    merged_step_hooks, steps_from_workflow, StepsError,
};

fn s(x: &str) -> JsonValue {
    JsonValue::Str(x.to_string())
}

fn n(x: u64) -> JsonValue {
    JsonValue::Number(JsonNumber { unsigned: Some(x), signed: Some(x as i64), text: x.to_string() })
}

fn arr(items: Vec<JsonValue>) -> JsonValue {
    JsonValue::Array(items)
}

fn obj(members: Vec<(&str, JsonValue)>) -> JsonValue {
    JsonValue::Object(members.into_iter().map(|(k, v)| (k.to_string(), v)).collect())
}

fn make_step(id: &str, requires: Vec<&str>) -> WorkflowStep {
    let mut step = WorkflowStep::named(id.to_string(), id.to_string());
    step.requires = requires.into_iter().map(String::from).collect();
    step
}

fn ids(steps: &[WorkflowStep]) -> Vec<&str> {
    steps.iter().map(|s| s.step_id.as_str()).collect()
}

#[test]
fn test_topological_sort_orders_deps_first() {
    let steps = vec![make_step("C", vec!["B"]), make_step("A", vec![]), make_step("B", vec!["A"])];
    let sorted = topological_sort_steps(steps);
    assert_eq!(ids(&sorted), vec!["A", "B", "C"], "Topological sort must put A before B before C");
}

#[test]
fn test_topological_sort_preserves_independent_order() {
    let steps = vec![make_step("A", vec![]), make_step("B", vec![]), make_step("C", vec!["A"])];
    let sorted = topological_sort_steps(steps);
    let ids = ids(&sorted);
    let a_pos = ids.iter().position(|&x| x == "A").unwrap();
    let b_pos = ids.iter().position(|&x| x == "B").unwrap();
    let c_pos = ids.iter().position(|&x| x == "C").unwrap();
    assert!(a_pos < c_pos, "A must come before C");
    assert!(a_pos < b_pos, "Original order: A before B (both no deps)");
}

#[test]
fn test_topological_sort_handles_cycle_gracefully() {
    let steps = vec![make_step("A", vec!["B"]), make_step("B", vec!["A"])];
    let sorted = topological_sort_steps(steps);
    assert_eq!(sorted.len(), 2, "Cycle steps must still be in output (appended, not dropped)");
}

#[test]
fn test_topological_sort_handles_p11_scenario() {
    let steps = vec![
        make_step("step_00_bootstrap", vec![]),
        make_step("step_t1_1_analyze_immutability", vec!["step_t1_analyze_docs"]),
        make_step("step_t1_analyze_docs", vec![]),
        make_step("step_t2_identify_core_files", vec!["step_t1_1_analyze_immutability"]),
        make_step("step_final_synthesize", vec!["step_t2_identify_core_files"]),
    ];
    let sorted = topological_sort_steps(steps);
    let ids = ids(&sorted);
    let bootstrap = ids.iter().position(|&x| x == "step_00_bootstrap").unwrap();
    let t1 = ids.iter().position(|&x| x == "step_t1_analyze_docs").unwrap();
    let t1_1 = ids.iter().position(|&x| x == "step_t1_1_analyze_immutability").unwrap();
    let t2 = ids.iter().position(|&x| x == "step_t2_identify_core_files").unwrap();
    let synthesize = ids.iter().position(|&x| x == "step_final_synthesize").unwrap();
    assert!(t1 < t1_1, "t1 must come before t1_1 (was bug)");
    assert!(t1_1 < t2, "t1_1 must come before t2");
    assert!(t2 < synthesize, "t2 must come before synthesize");
    assert_eq!(bootstrap, 0, "Bootstrap with no deps should be first");
}

#[test]
fn topological_order_queue_order_and_cycle_tail() {
    // D waits on a cycle (B <-> C); E depends on A; X names an unknown step.
    let steps = vec![
        make_step("B", vec!["C"]),
        make_step("A", vec!["X"]),
        make_step("C", vec!["B"]),
        make_step("D", vec!["B"]),
        make_step("E", vec!["A"]),
    ];
    let (order, sorted) = topological_order(&steps);
    assert_eq!(order, vec![1, 4, 0, 2, 3]);
    assert_eq!(sorted, 2);
    let out = topological_sort_steps(steps);
    assert_eq!(ids(&out), vec!["A", "E", "B", "C", "D"]);
}

#[test]
fn topological_order_fifo_by_last_dependency() {
    // F depends on both roots; G on the second root only.
    let steps = vec![
        make_step("R1", vec![]),
        make_step("F", vec!["R2", "R1"]),
        make_step("R2", vec![]),
        make_step("G", vec!["R2"]),
        make_step("H", vec!["R1"]),
    ];
    let (order, sorted) = topological_order(&steps);
    assert_eq!(sorted, 5);
    assert_eq!(order, vec![0, 2, 4, 1, 3]);
}

#[test]
fn topological_order_self_dependency_and_duplicate_ids() {
    // A step that requires itself never becomes ready; with duplicate ids
    // the last step carrying the id is the one depended on.
    let steps = vec![make_step("S", vec!["S"]), make_step("D", vec![]), make_step("U", vec!["D"]), make_step("D", vec![])];
    let (order, sorted) = topological_order(&steps);
    assert_eq!(sorted, 3);
    assert_eq!(order, vec![1, 3, 2, 0]);
}

fn looped(max: u64) -> WorkflowStep {
    let mut step = WorkflowStep::named("looped".into(), "looped".into());
    step.loop_config = Some(obj(vec![("count", obj(vec![("max_iterations", n(max))]))]));
    step
}

#[test]
fn given_linear_workflow_exceeding_100_steps_when_iteration_cap_computed_then_allows_full_run() {
    let steps: Vec<WorkflowStep> = (0..385).map(|i| WorkflowStep::named(format!("s{}", i), format!("s{}", i))).collect();
    assert!(max_workflow_iterations(&steps) >= 385);
}

#[test]
fn given_no_loop_steps_when_iteration_cap_computed_then_floor_is_100() {
    let steps = vec![WorkflowStep::named("only".into(), "only".into())];
    assert_eq!(max_workflow_iterations(&steps), 100);
}

#[test]
fn given_loop_max_iterations_when_iteration_cap_computed_then_respects_override_and_scale() {
    let steps = vec![looped(5000), WorkflowStep::named("tail".into(), "tail".into())];
    assert_eq!(max_workflow_iterations(&steps), 5000);
    assert_eq!(max_workflow_iterations(&[looped(3)].into_iter().collect::<Vec<_>>()), 100);
}

#[test]
fn given_cap_exhausted_with_steps_unexecuted_when_cap_error_computed_then_some() {
    let msg = premature_cap_error(100, 100, 12, 100);
    assert!(msg.is_some(), "cap exhausted with 88 steps unexecuted must yield error");
    let msg = msg.unwrap();
    assert!(msg.contains("100"), "message should name the cap: {msg}");
    assert!(msg.contains("88"), "message should count unexecuted steps: {msg}");
}

#[test]
fn given_workflow_completed_at_cap_when_cap_error_computed_then_none() {
    assert!(premature_cap_error(100, 100, 100, 100).is_none());
    assert!(premature_cap_error(42, 100, 42, 42).is_none());
}

#[test]
fn given_cycle_when_cycle_error_computed_then_some() {
    let msg = cycle_error(3, 5).expect("cycle (steps dropped by topo sort) must produce an error");
    assert!(msg.contains("cycle") && msg.contains("2"), "message must name cycle + dropped count: {}", msg);
    assert!(cycle_error(5, 5).is_none(), "full sort = no error");
    assert!(cycle_error(0, 0).is_none(), "empty = no error");
}

#[test]
fn given_step_retry_override_when_effective_attempts_computed_then_step_wins() {
    assert_eq!(effective_max_attempts(3, Some(1)), 1, "step-level retry.max_attempts overrides global");
    assert_eq!(effective_max_attempts(3, Some(7)), 7, "step-level override may exceed global");
    assert_eq!(effective_max_attempts(3, None), 3, "no step config → global applies");
    assert_eq!(effective_max_attempts(3, Some(0)), 1, "zero attempts clamped to 1 (never zero-shot)");
}

#[test]
fn is_retry_exhausted_error_matches_known_patterns() {
    assert!(is_retry_exhausted_error("All 3 attempts failed: timeout"));
    assert!(is_retry_exhausted_error("All 1 attempts failed: connection refused"));
    assert!(!is_retry_exhausted_error("Load failed: docker not running"));
    assert!(!is_retry_exhausted_error("attempts failed without prefix"));
    assert!(!is_retry_exhausted_error(""));
}

fn prompt_step(id: &str, prompt: Option<&str>, entity: Option<&str>) -> WorkflowStep {
    let mut step = WorkflowStep::named("infer".into(), id.into());
    step.prompt = prompt.map(String::from);
    step.generative_entity = entity.map(String::from);
    step
}

#[test]
fn require_step_prompt_allows_control_flow_without_prompt() {
    let step = prompt_step("s1", None, Some("control_flow"));
    let result = require_step_prompt(&step).unwrap();
    assert!(result.is_empty(), "control_flow steps return empty prompt");
}

#[test]
fn require_step_prompt_rejects_generative_without_prompt() {
    let step = prompt_step("s2", None, Some("agent"));
    let err = require_step_prompt(&step).unwrap_err();
    assert!(err.message().contains("requires non-empty `prompt`"), "got: {}", err.message());
}

#[test]
fn require_step_prompt_rejects_whitespace_only_prompt() {
    let step = prompt_step("s3", Some("   \n\t  "), None);
    let err = require_step_prompt(&step).unwrap_err();
    assert!(err.message().contains("requires non-empty `prompt`"));
    assert!(err.message().contains("`s3`"));
}

#[test]
fn require_step_prompt_accepts_real_prompt() {
    let step = prompt_step("s4", Some("Hello world"), Some("agent"));
    let result = require_step_prompt(&step).unwrap();
    assert_eq!(result, "Hello world");
}

#[test]
fn test_extract_iterate_values_no_when() {
    let step = WorkflowStep::named("test".into(), "test_step".into());
    assert!(extract_iterate_values(&step).is_none());
}

#[test]
fn iterate_values_build_one_set_per_index() {
    let mut step = WorkflowStep::named("t".into(), "t".into());
    step.when = Some(obj(vec![(
        "before_step_starts",
        arr(vec![
            obj(vec![("log", s("x"))]),
            obj(vec![(
                "iterate_values",
                obj(vec![
                    ("step.model_ref", arr(vec![s("a"), s("b"), s("c")])),
                    ("model_name", arr(vec![s("A"), s("B")])),
                    ("ignored", s("scalar")),
                ]),
            )]),
        ]),
    )]));
    let sets = extract_iterate_values(&step).expect("iterations");
    assert_eq!(sets.len(), 3);
    assert_eq!(sets[0], vec![("model_ref".to_string(), s("a")), ("model_name".to_string(), s("A"))]);
    assert_eq!(sets[1], vec![("model_ref".to_string(), s("b")), ("model_name".to_string(), s("B"))]);
    assert_eq!(sets[2], vec![("model_ref".to_string(), s("c"))]);
}

#[test]
fn iterate_values_not_a_map_gives_none() {
    let mut step = WorkflowStep::named("t".into(), "t".into());
    step.when = Some(obj(vec![("before_step_starts", obj(vec![("iterate_values", arr(vec![]))]))]));
    assert!(extract_iterate_values(&step).is_none());
    step.when = Some(obj(vec![("before_step_starts", obj(vec![("iterate_values", obj(vec![]))]))]));
    assert_eq!(extract_iterate_values(&step), Some(vec![]));
}

#[test]
fn dependencies_merge_both_keys_once_with_conditions() {
    let step = obj(vec![
        ("depends_on", arr(vec![s("a"), s("b")])),
        ("requires", arr(vec![s("b"), obj(vec![("step", s("c")), ("condition", s("result.ok == true"))]), n(3)])),
    ]);
    let (deps, conds) = extract_dependency_names(&step);
    assert_eq!(deps, vec!["a", "b", "c"]);
    assert_eq!(conds, vec![("c".to_string(), "result.ok == true".to_string())]);
    let (none, no_conds) = extract_dependency_names(&obj(vec![("requires", s("a"))]));
    assert!(none.is_empty() && no_conds.is_empty());
}

#[test]
fn hook_actions_list_or_single() {
    assert_eq!(hook_actions_as_vec(&arr(vec![s("a"), s("b")])), vec![s("a"), s("b")]);
    assert_eq!(hook_actions_as_vec(&s("a")), vec![s("a")]);
    assert!(looks_like_hook_action(&obj(vec![("shell", s("ls"))])));
    assert!(!looks_like_hook_action(&obj(vec![("group", s("x"))])));
    assert!(!looks_like_hook_action(&s("log")));
}

#[test]
fn hooks_merge_defaults_step_hooks_and_requires_failed() {
    let defaults = obj(vec![("after_step_fails", obj(vec![("log", s("d"))]))]);
    let step = obj(vec![
        ("when", obj(vec![("after_step_fails", arr(vec![obj(vec![("fail", s("x"))])])), ("before_step_starts", obj(vec![("log", s("b"))]))])),
        ("on_requires_failed", obj(vec![("g1", obj(vec![("skip_step", s("y"))])), ("g2", arr(vec![obj(vec![("notify", s("z"))])]))])),
    ]);
    let merged = merged_step_hooks(Some(&defaults), &step).expect("hooks");
    let expected = obj(vec![
        ("after_step_fails", arr(vec![obj(vec![("log", s("d"))]), obj(vec![("fail", s("x"))])])),
        ("before_step_starts", arr(vec![obj(vec![("log", s("b"))])])),
        ("on_requires_failed", arr(vec![obj(vec![("skip_step", s("y"))]), obj(vec![("notify", s("z"))])])),
    ]);
    assert_eq!(merged, expected);
    assert!(merged_step_hooks(None, &obj(vec![("prompt", s("p"))])).is_none());
    assert_eq!(merged_step_hooks(None, &obj(vec![("when", obj(vec![]))])), Some(obj(vec![])));
}

#[test]
fn steps_from_list_and_map() {
    let doc = obj(vec![(
        "agentic_workflow",
        obj(vec![
            ("when", obj(vec![("after_step_succeeds", obj(vec![("log", s("ok"))]))])),
            (
                "steps",
                arr(vec![
                    obj(vec![("step", s("first")), ("prompt", s("Hi")), ("retry", obj(vec![("max_attempts", n(2))]))]),
                    obj(vec![("step", s("second")), ("id", s("s2")), ("depends_on", arr(vec![s("first")])), ("loop", obj(vec![]))]),
                ]),
            ),
        ]),
    )]);
    let steps = steps_from_workflow(&doc).expect("steps");
    assert_eq!(steps.len(), 2);
    assert_eq!(steps[0].step_name, "first");
    assert_eq!(steps[0].step_id, "first");
    assert_eq!(steps[0].prompt.as_deref(), Some("Hi"));
    assert_eq!(steps[0].retry_max_attempts, Some(2));
    assert!(steps[0].when.is_some());
    assert_eq!(steps[1].step_id, "s2");
    assert_eq!(steps[1].requires, vec!["first"]);
    assert_eq!(steps[1].loop_config, Some(obj(vec![])));

    let map_doc = obj(vec![("agentic_workflow", obj(vec![("steps", obj(vec![("s1", obj(vec![("prompt", s("hello"))]))]))]))]);
    let steps = steps_from_workflow(&map_doc).expect("steps");
    assert_eq!(steps.len(), 1);
    assert_eq!(steps[0].step_name, "s1");
    assert!(steps[0].when.is_none());
}

#[test]
fn steps_errors() {
    assert_eq!(steps_from_workflow(&obj(vec![("name", s("x"))])).unwrap_err(), StepsError::NoAgenticWorkflow);
    let unnamed = obj(vec![("agentic_workflow", obj(vec![("steps", arr(vec![obj(vec![("step", s("a"))]), obj(vec![("prompt", s("p"))])]))]))]);
    let err = steps_from_workflow(&unnamed).unwrap_err();
    assert_eq!(err, StepsError::MissingStepName { index: 1 });
    assert!(err.message("wf.yml").contains("array-format step 2 (0-based index 1) in wf.yml"));
    let empty = obj(vec![("agentic_workflow", obj(vec![("steps", arr(vec![]))]))]);
    assert_eq!(steps_from_workflow(&empty).unwrap_err(), StepsError::NoSteps);
    let scalar = obj(vec![("agentic_workflow", obj(vec![("steps", s("nope"))]))]);
    assert_eq!(steps_from_workflow(&scalar).unwrap_err(), StepsError::NotListOrMap);
    assert_eq!(
        StepsError::NoSteps.message("w.yml"),
        "[benchmark] agentic_workflow.steps in w.yml is empty — refusing to fall back to discovery benchmark (Issue T)"
    );
}
