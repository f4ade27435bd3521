use whitt::admission::{Admission, RejectCode};
use whitt::discovery::{discovery_plan, DiscoveryPlan, ListSource};
use whitt::cleaning::clean_response_checked;
use whitt::run_loop::{
    after_iteration, first_iteration, latest_outputs, record_output, run_transition, setup_transition, step_kind,
    ConditionVerdict, IterationAction, IterationEvent, RunAction, RunEvent, RunStage, RunState, SetupAction,
    SetupEvent, SetupPhase, StepKind,
};
use whitt::streaming::{streamed_token_count, streaming_failure, StreamAggregate, StreamChunk};
use whitt::step_execution::{
    step_output, step_result, direct_transition, load_transition, next_attempt, step_gate, step_outcome, AttemptAction, AttemptOutcome,
    DirectAction, DirectEvent, DirectStage, GateAction, HookVerdict, LoadAction, LoadEvent, LoadStage,
};
use whitt::workflow::WorkflowStep;

fn step(id: &str, requires: &[&str]) -> WorkflowStep {
    let mut s = WorkflowStep::named(id.to_string(), id.to_string());
    s.requires = requires.iter().map(|r| r.to_string()).collect();
    s
}

fn ready(index: usize) -> RunState {
    RunState { index, loop_count: 0, cap: 100, stage: RunStage::Ready }
}

fn strings(v: &[&str]) -> Vec<String> {
    v.iter().map(|s| s.to_string()).collect()
}

#[test]
fn linear_workflow_runs_each_step_then_finishes() {
    let steps = vec![step("a", &[]), step("b", &[])];
    let none: Vec<(String, String)> = Vec::new();
    let done: Vec<String> = Vec::new();
    let s = RunState::start(&steps);
    assert_eq!(s, RunState { index: 0, loop_count: 0, cap: 100, stage: RunStage::Ready });
    let (s, a) = run_transition(&s, &RunEvent::Continue, &steps, &none, &done);
    assert!(matches!(a, RunAction::RunStep { index: 0 }));
    assert_eq!(s.stage, RunStage::Running);
    assert_eq!(s.loop_count, 1);
    let finished = RunEvent::StepFinished { route: None, skip_remaining: false, iterated: false };
    let (s, a) = run_transition(&s, &finished, &steps, &none, &done);
    assert!(matches!(a, RunAction::Proceed));
    assert_eq!(s.index, 1);
    let (s, a) = run_transition(&s, &RunEvent::Continue, &steps, &none, &done);
    assert!(matches!(a, RunAction::RunStep { index: 1 }));
    let (s, _) = run_transition(&s, &finished, &steps, &none, &done);
    let (s, a) = run_transition(&s, &RunEvent::Continue, &steps, &none, &done);
    assert!(matches!(a, RunAction::Finish));
    assert_eq!(s.stage, RunStage::Done);
    let (_, a) = run_transition(&s, &RunEvent::Continue, &steps, &none, &done);
    assert!(matches!(a, RunAction::Ignored));
}

#[test]
fn step_with_missing_dependency_is_skipped() {
    let steps = vec![step("b", &["a", "z"])];
    let outputs = vec![("a".to_string(), "out".to_string())];
    let done: Vec<String> = Vec::new();
    let (s, a) = run_transition(&ready(0), &RunEvent::Continue, &steps, &outputs, &done);
    match a {
        RunAction::SkipUnsatisfied { index, unmet } => {
            assert_eq!(index, 0);
            assert_eq!(unmet, strings(&["z"]));
        }
        other => panic!("unexpected {:?}", other),
    }
    assert_eq!(s.index, 1);
    assert_eq!(s.stage, RunStage::Ready);
}

#[test]
fn dependency_conditions_are_asked_for_and_decide() {
    let mut b = step("b", &["a"]);
    b.require_conditions = vec![("a".to_string(), "output.ok".to_string())];
    let steps = vec![b];
    let outputs = vec![("a".to_string(), "yes".to_string())];
    let done: Vec<String> = Vec::new();
    let (s, a) = run_transition(&ready(0), &RunEvent::Continue, &steps, &outputs, &done);
    match &a {
        RunAction::EvaluateConditions(checks) => {
            assert_eq!(checks.len(), 1);
            assert_eq!(checks[0].dependency, "a");
            assert_eq!(checks[0].output, "yes");
            assert_eq!(checks[0].condition, "output.ok");
        }
        other => panic!("unexpected {:?}", other),
    }
    assert_eq!(s.stage, RunStage::AwaitingConditions);

    let (_, a) = run_transition(&s, &RunEvent::ConditionsEvaluated(vec![ConditionVerdict::NotMet]), &steps, &outputs, &done);
    match a {
        RunAction::SkipUnsatisfied { unmet, .. } => assert_eq!(unmet, strings(&["a (condition \"output.ok\" not met)"])),
        other => panic!("unexpected {:?}", other),
    }

    let bad = RunEvent::ConditionsEvaluated(vec![ConditionVerdict::Invalid("cannot parse".to_string())]);
    let (s2, a) = run_transition(&s, &bad, &steps, &outputs, &done);
    assert!(matches!(a, RunAction::Fail { ref message } if message == "cannot parse"));
    assert_eq!(s2.stage, RunStage::Done);

    let (_, a) = run_transition(&s, &RunEvent::ConditionsEvaluated(vec![ConditionVerdict::Met]), &steps, &outputs, &done);
    assert!(matches!(a, RunAction::RunStep { index: 0 }));

    let (_, a) = run_transition(&s, &RunEvent::ConditionsEvaluated(Vec::new()), &steps, &outputs, &done);
    assert!(matches!(a, RunAction::Ignored));
}

#[test]
fn resumed_steps_are_skipped() {
    let steps = vec![step("a", &[]), step("b", &["a"])];
    let outputs = vec![("a".to_string(), "restored".to_string())];
    let done = strings(&["a"]);
    let (s, a) = run_transition(&ready(0), &RunEvent::Continue, &steps, &outputs, &done);
    assert!(matches!(a, RunAction::SkipResumed { index: 0 }));
    let (_, a) = run_transition(&s, &RunEvent::Continue, &steps, &outputs, &done);
    assert!(matches!(a, RunAction::RunStep { index: 1 }));
}

#[test]
fn routes_jump_fan_out_and_stop() {
    let steps = vec![step("a", &[]), step("b", &[]), step("c", &[]), step("d", &[])];
    let none: Vec<(String, String)> = Vec::new();
    let done: Vec<String> = Vec::new();
    let running = RunState { index: 0, loop_count: 1, cap: 100, stage: RunStage::Running };

    let jump = RunEvent::StepFinished { route: Some(strings(&["c"])), skip_remaining: false, iterated: false };
    let (s, a) = run_transition(&running, &jump, &steps, &none, &done);
    assert!(matches!(a, RunAction::Proceed));
    assert_eq!(s.index, 2);

    let fan = RunEvent::StepFinished { route: Some(strings(&["b", "c"])), skip_remaining: false, iterated: false };
    let (s, a) = run_transition(&running, &fan, &steps, &none, &done);
    match a {
        RunAction::FanOut { targets } => assert_eq!(targets, strings(&["b", "c"])),
        other => panic!("unexpected {:?}", other),
    }
    assert_eq!(s.stage, RunStage::FanningOut);
    let (s2, _) = run_transition(&s, &RunEvent::FanOutFinished { last_target: Some(2) }, &steps, &none, &done);
    assert_eq!(s2.index, 3);
    let (s3, _) = run_transition(&s, &RunEvent::FanOutFinished { last_target: None }, &steps, &none, &done);
    assert_eq!(s3.index, 1);

    let stop = RunEvent::StepFinished { route: None, skip_remaining: true, iterated: true };
    let (s, a) = run_transition(&running, &stop, &steps, &none, &done);
    assert!(matches!(a, RunAction::Finish));
    assert_eq!(s.stage, RunStage::Done);
}

#[test]
fn loop_cap_with_steps_left_fails_the_run() {
    let steps = vec![step("a", &[]), step("b", &[])];
    let none: Vec<(String, String)> = Vec::new();
    let done: Vec<String> = Vec::new();
    let s = RunState { index: 0, loop_count: 100, cap: 100, stage: RunStage::Ready };
    let (_, a) = run_transition(&s, &RunEvent::Continue, &steps, &none, &done);
    match a {
        RunAction::Fail { message } => assert_eq!(
            message,
            "workflow loop exceeded 100 iterations with 2 step(s) unexecuted — stopping and failing instead of exiting 0 (silent-exit-0 fix)"
        ),
        other => panic!("unexpected {:?}", other),
    }
}

#[test]
fn recorded_outputs_keep_the_latest_per_step() {
    let mut outputs: Vec<(String, String)> = Vec::new();
    record_output(&mut outputs, "a", "1");
    record_output(&mut outputs, "b", "2");
    record_output(&mut outputs, "a", "3");
    assert_eq!(outputs, vec![("a".to_string(), "3".to_string()), ("b".to_string(), "2".to_string())]);

    let entries = vec![
        ("x".to_string(), "first".to_string()),
        ("y".to_string(), "only".to_string()),
        ("x".to_string(), "last".to_string()),
    ];
    let restored = latest_outputs(&entries);
    assert_eq!(restored, vec![("x".to_string(), "last".to_string()), ("y".to_string(), "only".to_string())]);
}

#[test]
fn hooks_before_a_step_stop_it() {
    let o = step_gate(&HookVerdict::SkipStep, &GateAction::Proceed).expect("stopped");
    assert!(!o.ran);
    assert_eq!(o.error.as_deref(), Some("Skipped by hook"));
    let o = step_gate(&HookVerdict::Fail("no".to_string()), &GateAction::Proceed).expect("stopped");
    assert_eq!(o.error.as_deref(), Some("Skipped by hook"));
    let o = step_gate(&HookVerdict::RouteTo(strings(&["x"])), &GateAction::Proceed).expect("stopped");
    assert_eq!(o.error.as_deref(), Some("Routed by hook"));
    assert_eq!(o.route_to, Some(strings(&["x"])));
    let o = step_gate(&HookVerdict::Continue, &GateAction::Block("RESOURCE_CRITICAL red".to_string())).expect("stopped");
    assert_eq!(o.error.as_deref(), Some("RESOURCE_CRITICAL red"));
    assert!(step_gate(&HookVerdict::Continue, &GateAction::Warn).is_none());
}

#[test]
fn hooks_after_a_step_shape_its_result() {
    let ok: Option<String> = None;
    let o = step_outcome(&HookVerdict::Continue, &GateAction::Proceed, &ok, &HookVerdict::Fail("bad".to_string()), &HookVerdict::Continue);
    assert!(o.ran);
    assert_eq!(o.error.as_deref(), Some("after_step_succeeds hook failed: bad"));
    let o = step_outcome(&HookVerdict::Continue, &GateAction::Proceed, &ok, &HookVerdict::SkipRemaining, &HookVerdict::Continue);
    assert!(o.skip_remaining && !o.skip_loop && o.error.is_none());
    let o = step_outcome(&HookVerdict::Continue, &GateAction::Proceed, &ok, &HookVerdict::SkipLoop, &HookVerdict::Continue);
    assert!(o.skip_loop && !o.skip_remaining);

    let exhausted = Some("All 3 attempts failed: timeout".to_string());
    let o = step_outcome(
        &HookVerdict::Continue,
        &GateAction::Proceed,
        &exhausted,
        &HookVerdict::RouteTo(strings(&["f"])),
        &HookVerdict::RouteTo(strings(&["r"])),
    );
    assert_eq!(o.error, exhausted);
    assert_eq!(o.route_to, Some(strings(&["r"])));
    let plain = Some("boom".to_string());
    let o = step_outcome(
        &HookVerdict::Continue,
        &GateAction::Proceed,
        &plain,
        &HookVerdict::RouteTo(strings(&["f"])),
        &HookVerdict::RouteTo(strings(&["r"])),
    );
    assert_eq!(o.route_to, Some(strings(&["f"])));
}

#[test]
fn failed_attempts_are_retried_then_given_up() {
    let admitted = Admission::Admitted;
    assert!(matches!(next_attempt(0, 3, &AttemptOutcome::Responded, &admitted), AttemptAction::Done));
    let failed = AttemptOutcome::Failed("timeout".to_string());
    assert!(matches!(
        next_attempt(0, 3, &failed, &admitted),
        AttemptAction::Retry { next_attempt: 1, backoff_secs: 1 }
    ));
    assert!(matches!(
        next_attempt(1, 3, &failed, &admitted),
        AttemptAction::Retry { next_attempt: 2, backoff_secs: 2 }
    ));
    match next_attempt(2, 3, &failed, &admitted) {
        AttemptAction::GiveUp { error } => assert_eq!(error, "All 3 attempts failed: timeout"),
        other => panic!("unexpected {:?}", other),
    }
    let critical = AttemptOutcome::Failed("RESOURCE_CRITICAL: cancelled".to_string());
    assert!(matches!(next_attempt(0, 3, &critical, &admitted), AttemptAction::GiveUp { .. }));
    let refused = Admission::Rejected { code: RejectCode::WorkflowRam, detail: "low".to_string() };
    match next_attempt(0, 3, &AttemptOutcome::Responded, &refused) {
        AttemptAction::GiveUp { error } => assert_eq!(error, "All 3 attempts failed: RESOURCE_REJECT_WORKFLOW_RAM: low"),
        other => panic!("unexpected {:?}", other),
    }
}

#[test]
fn load_checks_run_in_order_and_abort_with_their_errors() {
    let admitted = LoadEvent::Admission(Admission::Admitted);
    assert!(matches!(load_transition(LoadStage::Preflight, false, true, false, &admitted), LoadAction::Next(LoadStage::ModelState)));
    assert!(matches!(load_transition(LoadStage::ModelState, false, true, false, &admitted), LoadAction::Next(LoadStage::DefaultLoad)));
    assert!(matches!(load_transition(LoadStage::ModelState, true, true, true, &admitted), LoadAction::Next(LoadStage::Health)));
    assert!(matches!(load_transition(LoadStage::DefaultLoad, false, true, false, &admitted), LoadAction::Next(LoadStage::Loading)));
    let refused = LoadEvent::Admission(Admission::Rejected { code: RejectCode::WorkflowVram, detail: "short".to_string() });
    match load_transition(LoadStage::Preflight, false, false, false, &refused) {
        LoadAction::Abort(e) => assert_eq!(e, "RESOURCE_REJECT_WORKFLOW_VRAM: short"),
        other => panic!("unexpected {:?}", other),
    }
    match load_transition(LoadStage::Health, false, false, true, &LoadEvent::Health(Some("down".to_string()))) {
        LoadAction::Abort(e) => assert_eq!(e, "Health check before load failed: down"),
        other => panic!("unexpected {:?}", other),
    }
    match load_transition(LoadStage::Loading, false, false, false, &LoadEvent::LoadTimedOut { waited_secs: 121, limit_secs: 120 }) {
        LoadAction::Abort(e) => assert_eq!(
            e,
            "Model load timed out after 121s (limit: 120s). Possible GPU driver issue — aborting to prevent system crash."
        ),
        other => panic!("unexpected {:?}", other),
    }
    match load_transition(LoadStage::Loading, false, false, false, &LoadEvent::LoadFailed("404".to_string())) {
        LoadAction::Abort(e) => assert_eq!(e, "Load failed: 404"),
        other => panic!("unexpected {:?}", other),
    }
    assert!(matches!(load_transition(LoadStage::Loading, false, false, false, &LoadEvent::Loaded), LoadAction::Infer));
}

#[test]
fn discovery_source_follows_the_workflow_then_directory_and_list() {
    assert_eq!(discovery_plan(true, 2, true, true), DiscoveryPlan::WorkflowSources);
    assert_eq!(discovery_plan(true, 0, true, false), DiscoveryPlan::Scan { directory: true, list: ListSource::Workflow });
    assert_eq!(discovery_plan(true, 0, false, true), DiscoveryPlan::Scan { directory: false, list: ListSource::File });
    assert_eq!(discovery_plan(false, 3, true, false), DiscoveryPlan::Scan { directory: true, list: ListSource::Nothing });
}

#[test]
fn steps_run_by_kind() {
    assert_eq!(step_kind(true, true, true, true), StepKind::Iterate);
    assert_eq!(step_kind(false, true, false, false), StepKind::WithModel);
    assert_eq!(step_kind(false, false, true, true), StepKind::FirstModel);
    assert_eq!(step_kind(false, false, true, false), StepKind::Nothing);
    assert_eq!(step_kind(false, false, false, true), StepKind::Nothing);
}

#[test]
fn iterations_stop_on_route_skip_or_last() {
    assert!(matches!(first_iteration(2), IterationAction::Run(0)));
    assert!(matches!(first_iteration(0), IterationAction::Finished { route: None, skip_remaining: false }));
    let plain = IterationEvent::Ran { route: None, skip_remaining: false, skip_loop: false };
    assert!(matches!(after_iteration(0, 2, &plain), IterationAction::Run(1)));
    assert!(matches!(after_iteration(1, 2, &plain), IterationAction::Finished { route: None, skip_remaining: false }));
    assert!(matches!(after_iteration(0, 3, &IterationEvent::ModelMissing), IterationAction::Run(1)));
    let routed = IterationEvent::Ran { route: Some(strings(&["t"])), skip_remaining: true, skip_loop: true };
    match after_iteration(0, 3, &routed) {
        IterationAction::Finished { route, skip_remaining } => {
            assert_eq!(route, Some(strings(&["t"])));
            assert!(!skip_remaining);
        }
        other => panic!("unexpected {:?}", other),
    }
    let skip = IterationEvent::Ran { route: None, skip_remaining: true, skip_loop: false };
    assert!(matches!(after_iteration(0, 3, &skip), IterationAction::Finished { route: None, skip_remaining: true }));
    let skip_loop = IterationEvent::Ran { route: None, skip_remaining: false, skip_loop: true };
    assert!(matches!(after_iteration(0, 3, &skip_loop), IterationAction::Finished { route: None, skip_remaining: false }));
}

#[test]
fn streamed_chunks_build_the_response() {
    let mut agg = StreamAggregate::new();
    assert_eq!(agg.receive(&StreamChunk::Content(Some("Hello ".to_string()))), Some(("Hello ".to_string(), 1)));
    assert_eq!(agg.receive(&StreamChunk::Failed("bad chunk".to_string())), None);
    assert_eq!(agg.receive(&StreamChunk::Content(None)), None);
    assert_eq!(agg.receive(&StreamChunk::Content(Some("world".to_string()))), Some(("world".to_string(), 3)));
    assert_eq!(agg.text.iter().collect::<String>(), "Hello world");
    assert_eq!(agg.chunks_received, 3);
    assert_eq!(streamed_token_count("  one two\tthree\n"), 3);
    assert_eq!(streamed_token_count(""), 0);
    assert_eq!(streaming_failure("refused"), "Streaming failed: refused");
}

#[test]
fn responses_are_cleaned_where_the_fence_can_be_cut() {
    assert_eq!(clean_response_checked("<|im_start|>{\"a\": 1,}<|im_end|>").as_deref(), Some("{\"a\": 1}"));
    assert_eq!(clean_response_checked("```json\n{\"a\": 1}\n```").as_deref(), Some("{\"a\": 1}"));
    assert_eq!(clean_response_checked("plain text").as_deref(), Some("plain text"));
}

#[test]
fn given_hook_skipped_step_when_executed_then_result_attributed_to_step() {
    let outcome = step_gate(&HookVerdict::SkipStep, &GateAction::Proceed).expect("hook-skip arm stops the step");
    assert!(!outcome.ran);
    assert_eq!(outcome.error.as_deref(), Some("Skipped by hook"));
    let full = step_outcome(&HookVerdict::SkipStep, &GateAction::Proceed, &None, &HookVerdict::Continue, &HookVerdict::Continue);
    assert_eq!(full.error.as_deref(), Some("Skipped by hook"));
    assert!(full.route_to.is_none());
}

#[test]
fn given_success_hook_fail_verdict_when_step_executes_then_result_marked_failed() {
    let outcome = step_outcome(
        &HookVerdict::Continue,
        &GateAction::Proceed,
        &None,
        &HookVerdict::Fail("verifier rejected output".to_string()),
        &HookVerdict::Continue,
    );
    let err = outcome.error.expect("hook fail verdict must mark the step result as failed");
    assert!(err.contains("verifier rejected output"), "error must carry the hook's reason, got: {}", err);
}

#[test]
fn given_checkpoint_file_when_loaded_then_returns_last_outputs() {
    let entries = vec![
        ("a".to_string(), "first".to_string()),
        ("a".to_string(), "second".to_string()),
        ("b".to_string(), "done".to_string()),
    ];
    let map = latest_outputs(&entries);
    let get = |k: &str| map.iter().find(|(id, _)| id == k).map(|(_, v)| v.as_str());
    assert_eq!(get("a"), Some("second"), "duplicate step ids: last entry must win");
    assert_eq!(get("b"), Some("done"));
    assert_eq!(map.len(), 2);
    assert!(latest_outputs(&Vec::new()).is_empty());
}

#[test]
fn direct_benchmarks_compare_modes_and_restore_the_gpu() {
    let healthy = DirectEvent::Health(None);
    assert!(matches!(direct_transition(DirectStage::GpuHealth, true, 0, 2, &healthy), DirectAction::Next(DirectStage::Gpu)));
    match direct_transition(DirectStage::GpuHealth, true, 0, 2, &DirectEvent::Health(Some("down".to_string()))) {
        DirectAction::SkipModel { cpu, error, restore_gpu } => {
            assert!(!cpu && !restore_gpu);
            assert_eq!(error, "Health check failed: down");
        }
        other => panic!("unexpected {:?}", other),
    }
    let ok = DirectEvent::Finished { failed: false };
    let bad = DirectEvent::Finished { failed: true };
    assert!(matches!(direct_transition(DirectStage::Gpu, true, 0, 2, &ok), DirectAction::Next(DirectStage::CpuHealth)));
    assert!(matches!(
        direct_transition(DirectStage::Gpu, true, 0, 2, &bad),
        DirectAction::Done { speedup: false, restore_gpu: false, delay: true }
    ));
    assert!(matches!(
        direct_transition(DirectStage::Gpu, false, 1, 2, &ok),
        DirectAction::Done { speedup: false, restore_gpu: false, delay: false }
    ));
    assert!(matches!(
        direct_transition(DirectStage::CpuHealth, true, 0, 2, &DirectEvent::Health(Some("x".to_string()))),
        DirectAction::SkipModel { cpu: true, restore_gpu: true, .. }
    ));
    assert!(matches!(
        direct_transition(DirectStage::Cpu, true, 0, 2, &ok),
        DirectAction::Done { speedup: true, restore_gpu: true, delay: true }
    ));
    assert!(matches!(
        direct_transition(DirectStage::Cpu, true, 0, 2, &bad),
        DirectAction::Done { speedup: false, restore_gpu: true, .. }
    ));
}

#[test]
fn run_phases_check_resources_before_the_server() {
    let (p, a) = setup_transition(SetupPhase::LoadConfig, false, &SetupEvent::Passed);
    assert_eq!(p, SetupPhase::ResourcePreflight);
    assert!(matches!(a, SetupAction::CheckResources));
    let (p, a) = setup_transition(p, false, &SetupEvent::Passed);
    assert_eq!(p, SetupPhase::ServerPreflight);
    assert!(matches!(a, SetupAction::CheckServer));
    let (_, a) = setup_transition(SetupPhase::ResourcePreflight, false, &SetupEvent::Refused("RAM low".to_string()));
    assert!(matches!(a, SetupAction::Fail(ref m) if m == "RAM low"));
    let (p2, a) = setup_transition(p, true, &SetupEvent::Passed);
    assert_eq!(p2, SetupPhase::Done);
    assert!(matches!(a, SetupAction::FinishPreflightOnly));
    let (p, a) = setup_transition(p, false, &SetupEvent::Passed);
    assert!(matches!(a, SetupAction::Prepare));
    let (p, a) = setup_transition(p, false, &SetupEvent::Passed);
    assert!(matches!(a, SetupAction::DiscoverModels));
    let (p, a) = setup_transition(p, false, &SetupEvent::Found(0));
    assert!(matches!(a, SetupAction::ListServerModels));
    let (_, a) = setup_transition(p, false, &SetupEvent::Found(0));
    assert!(matches!(a, SetupAction::Fail(ref m) if m == "No models found for benchmarking"));
    let (p, a) = setup_transition(p, false, &SetupEvent::Found(2));
    assert_eq!(p, SetupPhase::LoadSteps);
    assert!(matches!(a, SetupAction::LoadSteps));
    let (_, a) = setup_transition(p, false, &SetupEvent::StepsLoaded { declared: Some(5), sorted: 3 });
    assert!(matches!(a, SetupAction::Fail(ref m) if m.contains("cycle") && m.contains("2 of 5")));
    let (_, a) = setup_transition(p, false, &SetupEvent::StepsLoaded { declared: None, sorted: 0 });
    assert!(matches!(a, SetupAction::RunDirect));
    let (_, a) = setup_transition(p, false, &SetupEvent::StepsLoaded { declared: Some(0), sorted: 0 });
    assert!(matches!(a, SetupAction::RunDirect));
    let (p, a) = setup_transition(p, false, &SetupEvent::StepsLoaded { declared: Some(2), sorted: 2 });
    assert!(matches!(a, SetupAction::RunWorkflow));
    let (p, a) = setup_transition(p, false, &SetupEvent::Passed);
    assert!(matches!(a, SetupAction::WriteReport));
    let (p, a) = setup_transition(p, false, &SetupEvent::Passed);
    assert_eq!(p, SetupPhase::Done);
    assert!(matches!(a, SetupAction::Finish));
    let (_, a) = setup_transition(p, false, &SetupEvent::Passed);
    assert!(matches!(a, SetupAction::Ignored));
}

#[test]
fn step_results_name_the_step_and_keep_responses_only_when_run() {
    let skipped = step_gate(&HookVerdict::SkipStep, &GateAction::Proceed).expect("stopped");
    let responses = strings(&["hello", "again"]);
    let r = step_result("angle_one", "m.gguf", "/models/m.gguf", &skipped, &responses);
    assert_eq!(r.step_id, "angle_one");
    assert_eq!(r.model_id, "m.gguf");
    assert_eq!(r.model_path, "/models/m.gguf");
    assert_eq!(r.gpu_mode, "gpu");
    assert_eq!(r.error.as_deref(), Some("Skipped by hook"));
    assert!(r.responses.is_empty());
    assert_eq!(step_output(&r), "");
    let ran = step_outcome(&HookVerdict::Continue, &GateAction::Proceed, &None, &HookVerdict::Continue, &HookVerdict::Continue);
    let r = step_result("s", "m", "/p", &ran, &responses);
    assert!(r.error.is_none());
    assert_eq!(r.responses, responses);
    assert_eq!(step_output(&r), "hello");
}

#[test]
fn given_workflow_step_execution_when_emission_sites_counted_then_exactly_one() {
    let before = HookVerdict::RouteTo(strings(&["next"]));
    let gated = step_gate(&before, &GateAction::Proceed).expect("stopped before inference");
    let full = step_outcome(&before, &GateAction::Proceed, &Some("ignored".to_string()), &HookVerdict::SkipLoop, &HookVerdict::Continue);
    assert_eq!(gated.ran, full.ran);
    assert_eq!(gated.error, full.error);
    assert_eq!(gated.route_to, full.route_to);
    let record = step_result("s1", "m", "/p", &full, &Vec::new());
    assert_eq!(record.step_id, "s1");
    assert_eq!(record.error.as_deref(), Some("Routed by hook"));
}

#[test]
fn given_hook_trigger_call_sites_when_counted_then_none_swallow_errors() {
    let o = step_outcome(&HookVerdict::Fail("no".to_string()), &GateAction::Proceed, &None, &HookVerdict::Continue, &HookVerdict::Continue);
    assert!(o.error.is_some());
    let o = step_outcome(&HookVerdict::Continue, &GateAction::Proceed, &None, &HookVerdict::Fail("bad".to_string()), &HookVerdict::Continue);
    assert_eq!(o.error.as_deref(), Some("after_step_succeeds hook failed: bad"));
    let o = step_outcome(
        &HookVerdict::Continue,
        &GateAction::Proceed,
        &Some("boom".to_string()),
        &HookVerdict::Fail("ignored reason".to_string()),
        &HookVerdict::Continue,
    );
    assert_eq!(o.error.as_deref(), Some("boom"));
    let mut b = step("b", &["a"]);
    b.require_conditions = vec![("a".to_string(), "bad condition".to_string())];
    let steps = vec![b];
    let outputs = vec![("a".to_string(), "x".to_string())];
    let done: Vec<String> = Vec::new();
    let s = RunState { index: 0, loop_count: 1, cap: 100, stage: RunStage::AwaitingConditions };
    let bad = RunEvent::ConditionsEvaluated(vec![ConditionVerdict::Invalid("evaluator failed".to_string())]);
    let (_, a) = run_transition(&s, &bad, &steps, &outputs, &done);
    assert!(matches!(a, RunAction::Fail { ref message } if message == "evaluator failed"));
}
