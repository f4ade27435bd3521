//! The decisions of the workflow loop of a benchmark run, as a state
//! machine: from the loop's state and what the caller reports, the next
//! state and what the caller does next (evaluate dependency conditions,
//! skip a step, run a step, fan out over route targets, fail or finish).

use vstd::prelude::*;
use crate::dispatch::{
    after_fan_out, after_iterations, after_step, find_value, ids_of, missing,
    missing_dependencies, transition_after_iterations, transition_after_step, value_of,
    StepTransition,
};
use crate::model_resolution::{debug_quoted, debug_text};
use crate::settings::strings_view;
use crate::text::{chars_to_string, push_str, str_equal};
use crate::workflow::{
    cap_message, cycle_error, cycle_message, iteration_cap, max_workflow_iterations, premature_cap_error, WorkflowStep,
};

verus! {

/// Where the loop stands.
#[derive(Debug, Clone, Copy, PartialEq, Eq, Structural)]
pub enum RunStage {
    /// About to take the step at `index`.
    Ready,
    /// Waiting for the verdicts of the step's dependency conditions.
    AwaitingConditions,
    /// The step at `index` is running.
    Running,
    /// The route targets of the step at `index` are running.
    FanningOut,
    /// The loop has ended.
    Done,
}

/// The state of the workflow loop: the step it is at, how many loop
/// iterations it has begun, and its iteration cap.
#[derive(Debug, Clone, Copy, PartialEq, Eq, Structural)]
pub struct RunState {
    pub index: usize,
    pub loop_count: usize,
    pub cap: usize,
    pub stage: RunStage,
}

/// The verdict of one dependency condition on the dependency's output.
#[derive(Debug)]
pub enum ConditionVerdict {
    Met,
    NotMet,
    /// The condition could not be evaluated; the run fails with this message.
    Invalid(String),
}

/// What the caller reports to the loop.
#[derive(Debug)]
pub enum RunEvent {
    /// Go on from the current state.
    Continue,
    /// The verdicts of the conditions the loop asked for, in the same order.
    ConditionsEvaluated(Vec<ConditionVerdict>),
    /// The step ran (once, or once per set of iteration values when
    /// `iterated`); `route` and `skip_remaining` are what its hooks asked for.
    StepFinished { route: Option<Vec<String>>, skip_remaining: bool, iterated: bool },
    /// The route targets ran; `last_target` is the position of the last
    /// target step that ran, if any did.
    FanOutFinished { last_target: Option<usize> },
}

/// A dependency condition to evaluate on the dependency's recorded output.
#[derive(Debug)]
pub struct ConditionCheck {
    pub dependency: String,
    pub output: String,
    pub condition: String,
}

/// What the caller does next.
#[derive(Debug)]
pub enum RunAction {
    /// Evaluate these conditions and report the verdicts.
    EvaluateConditions(Vec<ConditionCheck>),
    /// The step at `index` is skipped: these dependencies have no output
    /// or their conditions are not met (fire `on_requires_failed`).
    SkipUnsatisfied { index: usize, unmet: Vec<String> },
    /// The step at `index` is skipped: its output was restored from a
    /// checkpoint.
    SkipResumed { index: usize },
    /// Run the step at `index`.
    RunStep { index: usize },
    /// Run each of these route targets.
    FanOut { targets: Vec<String> },
    /// Nothing to do; continue.
    Proceed,
    /// The run fails with this message.
    Fail { message: String },
    /// The workflow loop is over.
    Finish,
    /// The event does not fit the state; nothing changed.
    Ignored,
}

/// What a `RunAction` says, over plain values.
pub enum RunActionView {
    EvaluateConditions(Seq<(Seq<char>, Seq<char>, Seq<char>)>),
    SkipUnsatisfied { index: usize, unmet: Seq<Seq<char>> },
    SkipResumed { index: usize },
    RunStep { index: usize },
    FanOut { targets: Seq<Seq<char>> },
    Proceed,
    Fail { message: Seq<char> },
    Finish,
    Ignored,
}

/// Views of condition checks.
pub open spec fn checks_view(v: Seq<ConditionCheck>) -> Seq<(Seq<char>, Seq<char>, Seq<char>)> {
    v.map_values(|c: ConditionCheck| (c.dependency@, c.output@, c.condition@))
}

impl View for RunAction {
    type V = RunActionView;

    open spec fn view(&self) -> RunActionView {
        match self {
            RunAction::EvaluateConditions(v) => RunActionView::EvaluateConditions(checks_view(v@)),
            RunAction::SkipUnsatisfied { index, unmet } => RunActionView::SkipUnsatisfied {
                index: *index,
                unmet: strings_view(unmet@),
            },
            RunAction::SkipResumed { index } => RunActionView::SkipResumed { index: *index },
            RunAction::RunStep { index } => RunActionView::RunStep { index: *index },
            RunAction::FanOut { targets } => RunActionView::FanOut { targets: strings_view(targets@) },
            RunAction::Proceed => RunActionView::Proceed,
            RunAction::Fail { message } => RunActionView::Fail { message: message@ },
            RunAction::Finish => RunActionView::Finish,
            RunAction::Ignored => RunActionView::Ignored,
        }
    }
}

/// The conditions to evaluate for a step: one per dependency, in order,
/// that has recorded output and a condition attached.
pub open spec fn condition_checks(
    deps: Seq<String>,
    conditions: Seq<(String, String)>,
    outputs: Seq<(String, String)>,
) -> Seq<(Seq<char>, Seq<char>, Seq<char>)>
    decreases deps.len(),
{
    if deps.len() == 0 {
        Seq::empty()
    } else {
        let rest = condition_checks(deps.drop_last(), conditions, outputs);
        let d = deps.last()@;
        match (value_of(outputs, d), value_of(conditions, d)) {
            (Some(o), Some(c)) => rest.push((d, o, c)),
            _ => rest,
        }
    }
}

/// The message of the first condition that could not be evaluated.
pub open spec fn first_invalid(verdicts: Seq<ConditionVerdict>) -> Option<Seq<char>>
    decreases verdicts.len(),
{
    if verdicts.len() == 0 {
        None
    } else {
        match first_invalid(verdicts.drop_last()) {
            Some(m) => Some(m),
            None => match verdicts.last() {
                ConditionVerdict::Invalid(m) => Some(m@),
                _ => None,
            },
        }
    }
}

/// How an unmet condition is reported: the dependency, then the condition
/// as `{:?}` renders it.
pub open spec fn unmet_text(dep: Seq<char>, condition: Seq<char>) -> Seq<char> {
    dep + " (condition "@ + debug_text(condition) + " not met)"@
}

/// The unmet conditions among the checks, in order.
pub open spec fn unmet_conditions(
    checks: Seq<(Seq<char>, Seq<char>, Seq<char>)>,
    verdicts: Seq<ConditionVerdict>,
) -> Seq<Seq<char>>
    decreases checks.len(),
{
    if checks.len() == 0 || verdicts.len() == 0 {
        Seq::empty()
    } else {
        let rest = unmet_conditions(checks.drop_last(), verdicts.drop_last());
        match verdicts.last() {
            ConditionVerdict::NotMet => rest.push(unmet_text(checks.last().0, checks.last().2)),
            _ => rest,
        }
    }
}

/// Some entry of `ids` is `id`.
pub open spec fn has_id(ids: Seq<String>, id: Seq<char>) -> bool {
    exists|k: int| 0 <= k < ids.len() && #[trigger] ids[k]@ == id
}

/// `s` with another stage.
pub open spec fn at_stage(s: RunState, stage: RunStage) -> RunState {
    RunState { index: s.index, loop_count: s.loop_count, cap: s.cap, stage }
}

/// `s` at another step, ready to take it.
pub open spec fn ready_at(s: RunState, index: int) -> RunState {
    RunState { index: index as usize, loop_count: s.loop_count, cap: s.cap, stage: RunStage::Ready }
}

/// The loop ends: it fails when the cap stopped it with steps left, and
/// finishes otherwise.
pub open spec fn stopped(s: RunState, len: nat) -> (RunState, RunActionView) {
    if s.loop_count >= s.cap && s.index < len {
        (at_stage(s, RunStage::Done), RunActionView::Fail { message: cap_message(s.cap as nat, (len - s.index) as nat) })
    } else {
        (at_stage(s, RunStage::Done), RunActionView::Finish)
    }
}

/// A step whose dependencies are satisfied is skipped when its output
/// was restored from a checkpoint, and run otherwise.
pub open spec fn resume_decision(s: RunState, step: WorkflowStep, completed: Seq<String>) -> (RunState, RunActionView) {
    if has_id(completed, step.step_id@) {
        (ready_at(s, s.index + 1), RunActionView::SkipResumed { index: s.index })
    } else {
        (at_stage(s, RunStage::Running), RunActionView::RunStep { index: s.index })
    }
}

/// The dependency gate, given the verdicts of the step's conditions: a
/// condition that could not be evaluated fails the run; missing outputs
/// and unmet conditions skip the step; otherwise the resume check decides.
pub open spec fn dependency_decision(
    s: RunState,
    step: WorkflowStep,
    outputs: Seq<(String, String)>,
    completed: Seq<String>,
    verdicts: Seq<ConditionVerdict>,
) -> (RunState, RunActionView) {
    let checks = condition_checks(step.requires@, step.require_conditions@, outputs);
    if verdicts.len() != checks.len() {
        (s, RunActionView::Ignored)
    } else {
        match first_invalid(verdicts) {
            Some(m) => (at_stage(s, RunStage::Done), RunActionView::Fail { message: m }),
            None => {
                let unmet = missing(step.requires@, outputs) + unmet_conditions(checks, verdicts);
                if unmet.len() > 0 {
                    (ready_at(s, s.index + 1), RunActionView::SkipUnsatisfied { index: s.index, unmet })
                } else {
                    resume_decision(s, step, completed)
                }
            },
        }
    }
}

/// Taking the step at `s.index`: a step without dependencies goes to the
/// resume check; one whose dependencies carry conditions asks for their
/// verdicts first.
pub open spec fn take_step(
    s: RunState,
    step: WorkflowStep,
    outputs: Seq<(String, String)>,
    completed: Seq<String>,
) -> (RunState, RunActionView) {
    if step.requires@.len() == 0 {
        resume_decision(s, step, completed)
    } else {
        let checks = condition_checks(step.requires@, step.require_conditions@, outputs);
        if checks.len() == 0 {
            dependency_decision(s, step, outputs, completed, Seq::empty())
        } else {
            (at_stage(s, RunStage::AwaitingConditions), RunActionView::EvaluateConditions(checks))
        }
    }
}

/// Views of an optional list of strings.
pub open spec fn opt_vec(v: Option<Vec<String>>) -> Option<Seq<String>> {
    match v {
        Some(t) => Some(t@),
        None => None,
    }
}

/// The state after a step ran, from the transition its hooks chose.
pub open spec fn after_run(s: RunState, t: StepTransition, route: Option<Seq<String>>, len: nat) -> (RunState, RunActionView) {
    match t {
        StepTransition::JumpTo(k) => (ready_at(s, k as int), RunActionView::Proceed),
        StepTransition::Next(k) => (ready_at(s, k as int), RunActionView::Proceed),
        StepTransition::Stop => stopped(s, len),
        StepTransition::FanOut => (
            at_stage(s, RunStage::FanningOut),
            RunActionView::FanOut { targets: strings_view(route->0) },
        ),
    }
}

/// One transition of the workflow loop.
pub open spec fn run_transition_spec(
    s: RunState,
    e: RunEvent,
    steps: Seq<WorkflowStep>,
    outputs: Seq<(String, String)>,
    completed: Seq<String>,
) -> (RunState, RunActionView) {
    match s.stage {
        RunStage::Ready => match e {
            RunEvent::Continue => if s.index < steps.len() && s.loop_count < s.cap {
                let s1 = RunState {
                    index: s.index,
                    loop_count: (s.loop_count + 1) as usize,
                    cap: s.cap,
                    stage: s.stage,
                };
                take_step(s1, steps[s.index as int], outputs, completed)
            } else {
                stopped(s, steps.len())
            },
            _ => (s, RunActionView::Ignored),
        },
        RunStage::AwaitingConditions => match e {
            RunEvent::ConditionsEvaluated(v) => if s.index < steps.len() {
                dependency_decision(s, steps[s.index as int], outputs, completed, v@)
            } else {
                (s, RunActionView::Ignored)
            },
            _ => (s, RunActionView::Ignored),
        },
        RunStage::Running => match e {
            RunEvent::StepFinished { route, skip_remaining, iterated } => if s.index < steps.len() {
                let t = if iterated {
                    transition_after_iterations(s.index as int, opt_vec(route), skip_remaining, ids_of(steps))
                } else {
                    transition_after_step(s.index as int, opt_vec(route), skip_remaining, ids_of(steps))
                };
                after_run(s, t, opt_vec(route), steps.len())
            } else {
                (s, RunActionView::Ignored)
            },
            _ => (s, RunActionView::Ignored),
        },
        RunStage::FanningOut => match e {
            RunEvent::FanOutFinished { last_target } => if s.index < steps.len() && match last_target {
                Some(k) => k < steps.len(),
                None => true,
            } {
                (
                    ready_at(
                        s,
                        match last_target {
                            Some(k) => k + 1,
                            None => s.index + 1,
                        },
                    ),
                    RunActionView::Proceed,
                )
            } else {
                (s, RunActionView::Ignored)
            },
            _ => (s, RunActionView::Ignored),
        },
        RunStage::Done => (s, RunActionView::Ignored),
    }
}

impl RunState {
    /// The loop before its first step, with the workflow's iteration cap.
    pub fn start(steps: &Vec<WorkflowStep>) -> (s: RunState)
        ensures
            s == (RunState { index: 0, loop_count: 0, cap: iteration_cap(steps@) as usize, stage: RunStage::Ready }),
    {
        RunState { index: 0, loop_count: 0, cap: max_workflow_iterations(steps), stage: RunStage::Ready }
    }
}

fn step_ids(steps: &Vec<WorkflowStep>) -> (ids: Vec<String>)
    ensures
        ids@ == ids_of(steps@),
{
    let mut ids: Vec<String> = Vec::new();
    let mut i: usize = 0;
    while i < steps.len()
        invariant
            i <= steps@.len(),
            ids@ == ids_of(steps@.subrange(0, i as int)),
        decreases steps.len() - i,
    {
        ids.push(steps[i].step_id.clone());
        assert(ids_of(steps@.subrange(0, i + 1)) =~= ids_of(steps@.subrange(0, i as int)).push(steps@[i as int].step_id));
        i += 1;
    }
    assert(steps@.subrange(0, steps.len() as int) =~= steps@);
    ids
}

fn contains_id(ids: &Vec<String>, id: &str) -> (b: bool)
    ensures
        b == has_id(ids@, id@),
{
    let mut i: usize = 0;
    while i < ids.len()
        invariant
            i <= ids@.len(),
            forall|k: int| 0 <= k < i ==> #[trigger] ids@[k]@ != id@,
        decreases ids.len() - i,
    {
        if str_equal(ids[i].as_str(), id) {
            return true;
        }
        i += 1;
    }
    false
}

fn checks_for(step: &WorkflowStep, outputs: &Vec<(String, String)>) -> (v: Vec<ConditionCheck>)
    ensures
        checks_view(v@) == condition_checks(step.requires@, step.require_conditions@, outputs@),
{
    let mut v: Vec<ConditionCheck> = Vec::new();
    let mut i: usize = 0;
    let ghost deps = step.requires@;
    assert(deps.subrange(0, 0) =~= Seq::<String>::empty());
    assert(checks_view(v@) =~= Seq::empty());
    while i < step.requires.len()
        invariant
            i <= deps.len(),
            deps == step.requires@,
            checks_view(v@) == condition_checks(deps.subrange(0, i as int), step.require_conditions@, outputs@),
        decreases step.requires.len() - i,
    {
        let ghost before = v@;
        let ghost sub = deps.subrange(0, i + 1);
        assert(sub.drop_last() =~= deps.subrange(0, i as int));
        assert(sub.last() == deps[i as int]);
        let d = step.requires[i].as_str();
        match find_value(outputs, d) {
            Some(o) => match find_value(&step.require_conditions, d) {
                Some(c) => {
                    v.push(ConditionCheck { dependency: d.to_string(), output: o, condition: c });
                    assert(checks_view(v@) =~= checks_view(before).push((deps[i as int]@, v@.last().output@, v@.last().condition@)));
                },
                None => {},
            },
            None => {},
        }
        i += 1;
    }
    assert(deps.subrange(0, deps.len() as int) =~= deps);
    v
}

fn invalid_message(verdicts: &Vec<ConditionVerdict>) -> (r: Option<String>)
    ensures
        match r {
            Some(m) => first_invalid(verdicts@) == Some(m@),
            None => first_invalid(verdicts@) is None,
        },
{
    let mut i: usize = 0;
    assert(verdicts@.subrange(0, 0) =~= Seq::<ConditionVerdict>::empty());
    while i < verdicts.len()
        invariant
            i <= verdicts@.len(),
            first_invalid(verdicts@.subrange(0, i as int)) is None,
        decreases verdicts.len() - i,
    {
        let ghost sub = verdicts@.subrange(0, i + 1);
        assert(sub.drop_last() =~= verdicts@.subrange(0, i as int));
        assert(sub.last() == verdicts@[i as int]);
        match &verdicts[i] {
            ConditionVerdict::Invalid(m) => {
                proof {
                    lemma_first_invalid_prefix(verdicts@, i + 1);
                }
                return Some(m.clone());
            },
            _ => {},
        }
        i += 1;
    }
    assert(verdicts@.subrange(0, verdicts.len() as int) =~= verdicts@);
    None
}

proof fn lemma_first_invalid_prefix(v: Seq<ConditionVerdict>, n: int)
    requires
        0 <= n <= v.len(),
        first_invalid(v.subrange(0, n)) is Some,
    ensures
        first_invalid(v) == first_invalid(v.subrange(0, n)),
    decreases v.len() - n,
{
    if n < v.len() {
        let sub = v.subrange(0, n + 1);
        assert(sub.drop_last() =~= v.subrange(0, n));
        lemma_first_invalid_prefix(v, n + 1);
    } else {
        assert(v.subrange(0, n) =~= v);
    }
}

fn unmet_text_of(dep: &str, condition: &str) -> (t: String)
    ensures
        t@ == unmet_text(dep@, condition@),
{
    let mut out: Vec<char> = Vec::new();
    push_str(&mut out, dep);
    push_str(&mut out, " (condition ");
    let q = debug_quoted(condition);
    push_str(&mut out, q.as_str());
    push_str(&mut out, " not met)");
    chars_to_string(out.as_slice())
}

fn unmet_list(
    step: &WorkflowStep,
    outputs: &Vec<(String, String)>,
    checks: &Vec<ConditionCheck>,
    verdicts: &Vec<ConditionVerdict>,
) -> (r: Vec<String>)
    requires
        checks@.len() == verdicts@.len(),
    ensures
        strings_view(r@) == missing(step.requires@, outputs@) + unmet_conditions(checks_view(checks@), verdicts@),
{
    let mut r = missing_dependencies(&step.requires, outputs);
    let ghost base = strings_view(r@);
    let mut i: usize = 0;
    assert(checks_view(checks@).subrange(0, 0) =~= Seq::<(Seq<char>, Seq<char>, Seq<char>)>::empty());
    assert(base + Seq::<Seq<char>>::empty() =~= base);
    while i < checks.len()
        invariant
            i <= checks@.len(),
            checks@.len() == verdicts@.len(),
            base == missing(step.requires@, outputs@),
            strings_view(r@) == base + unmet_conditions(
                checks_view(checks@).subrange(0, i as int),
                verdicts@.subrange(0, i as int),
            ),
        decreases checks.len() - i,
    {
        let ghost before = strings_view(r@);
        let ghost cs = checks_view(checks@).subrange(0, i + 1);
        let ghost vs = verdicts@.subrange(0, i + 1);
        assert(cs.drop_last() =~= checks_view(checks@).subrange(0, i as int));
        assert(vs.drop_last() =~= verdicts@.subrange(0, i as int));
        assert(cs.last() == checks_view(checks@)[i as int]);
        assert(vs.last() == verdicts@[i as int]);
        match &verdicts[i] {
            ConditionVerdict::NotMet => {
                let t = unmet_text_of(checks[i].dependency.as_str(), checks[i].condition.as_str());
                r.push(t);
                assert(strings_view(r@) =~= before.push(t@));
            },
            _ => {},
        }
        i += 1;
    }
    assert(checks_view(checks@).subrange(0, checks.len() as int) =~= checks_view(checks@));
    assert(verdicts@.subrange(0, verdicts.len() as int) =~= verdicts@);
    r
}

fn resume_or_run(s: RunState, step: &WorkflowStep, completed: &Vec<String>) -> (r: (RunState, RunAction))
    requires
        s.index < usize::MAX,
    ensures
        r.0 == resume_decision(s, *step, completed@).0,
        r.1@ == resume_decision(s, *step, completed@).1,
{
    if contains_id(completed, step.step_id.as_str()) {
        (RunState { index: s.index + 1, loop_count: s.loop_count, cap: s.cap, stage: RunStage::Ready }, RunAction::SkipResumed { index: s.index })
    } else {
        (RunState { index: s.index, loop_count: s.loop_count, cap: s.cap, stage: RunStage::Running }, RunAction::RunStep { index: s.index })
    }
}

fn gate_dependencies(
    s: RunState,
    step: &WorkflowStep,
    outputs: &Vec<(String, String)>,
    completed: &Vec<String>,
    verdicts: &Vec<ConditionVerdict>,
) -> (r: (RunState, RunAction))
    requires
        s.index < usize::MAX,
    ensures
        r.0 == dependency_decision(s, *step, outputs@, completed@, verdicts@).0,
        r.1@ == dependency_decision(s, *step, outputs@, completed@, verdicts@).1,
{
    let checks = checks_for(step, outputs);
    if verdicts.len() != checks.len() {
        return (s, RunAction::Ignored);
    }
    match invalid_message(verdicts) {
        Some(m) => (RunState { index: s.index, loop_count: s.loop_count, cap: s.cap, stage: RunStage::Done }, RunAction::Fail { message: m }),
        None => {
            let unmet = unmet_list(step, outputs, &checks, verdicts);
            if unmet.len() > 0 {
                (
                    RunState { index: s.index + 1, loop_count: s.loop_count, cap: s.cap, stage: RunStage::Ready },
                    RunAction::SkipUnsatisfied { index: s.index, unmet },
                )
            } else {
                resume_or_run(s, step, completed)
            }
        },
    }
}

fn stop_run(s: RunState, len: usize) -> (r: (RunState, RunAction))
    ensures
        r.0 == stopped(s, len as nat).0,
        r.1@ == stopped(s, len as nat).1,
{
    let done = RunState { index: s.index, loop_count: s.loop_count, cap: s.cap, stage: RunStage::Done };
    match premature_cap_error(s.loop_count, s.cap, s.index, len) {
        Some(m) => (done, RunAction::Fail { message: m }),
        None => (done, RunAction::Finish),
    }
}

fn clone_strings(v: &Vec<String>) -> (r: Vec<String>)
    ensures
        r@ == v@,
{
    let mut r: Vec<String> = Vec::new();
    let mut i: usize = 0;
    while i < v.len()
        invariant
            i <= v@.len(),
            r@ == v@.subrange(0, i as int),
        decreases v.len() - i,
    {
        r.push(v[i].clone());
        assert(r@ =~= v@.subrange(0, i + 1));
        i += 1;
    }
    assert(v@.subrange(0, v.len() as int) =~= v@);
    r
}

/// One transition of the workflow loop, as `run_transition_spec` says.
/// `outputs` are the step outputs recorded so far (restored ones
/// included), `completed` the steps whose output was restored from a
/// checkpoint when resuming (empty otherwise).
pub fn run_transition(
    state: &RunState,
    event: &RunEvent,
    steps: &Vec<WorkflowStep>,
    outputs: &Vec<(String, String)>,
    completed: &Vec<String>,
) -> (r: (RunState, RunAction))
    ensures
        r.0 == run_transition_spec(*state, *event, steps@, outputs@, completed@).0,
        r.1@ == run_transition_spec(*state, *event, steps@, outputs@, completed@).1,
{
    let s = *state;
    match s.stage {
        RunStage::Ready => match event {
            RunEvent::Continue => if s.index < steps.len() && s.loop_count < s.cap {
                let s1 = RunState { index: s.index, loop_count: s.loop_count + 1, cap: s.cap, stage: s.stage };
                let step = &steps[s.index];
                if step.requires.len() == 0 {
                    resume_or_run(s1, step, completed)
                } else {
                    let checks = checks_for(step, outputs);
                    if checks.len() == 0 {
                        let none: Vec<ConditionVerdict> = Vec::new();
                        assert(none@ =~= Seq::<ConditionVerdict>::empty());
                        gate_dependencies(s1, step, outputs, completed, &none)
                    } else {
                        (
                            RunState { index: s1.index, loop_count: s1.loop_count, cap: s1.cap, stage: RunStage::AwaitingConditions },
                            RunAction::EvaluateConditions(checks),
                        )
                    }
                }
            } else {
                stop_run(s, steps.len())
            },
            _ => (s, RunAction::Ignored),
        },
        RunStage::AwaitingConditions => match event {
            RunEvent::ConditionsEvaluated(v) => if s.index < steps.len() {
                gate_dependencies(s, &steps[s.index], outputs, completed, v)
            } else {
                (s, RunAction::Ignored)
            },
            _ => (s, RunAction::Ignored),
        },
        RunStage::Running => match event {
            RunEvent::StepFinished { route, skip_remaining, iterated } => if s.index < steps.len() {
                let ids = step_ids(steps);
                let route_ref: Option<&Vec<String>> = match route {
                    Some(t) => Some(t),
                    None => None,
                };
                let t = if *iterated {
                    after_iterations(s.index, route_ref, *skip_remaining, &ids)
                } else {
                    after_step(s.index, route_ref, *skip_remaining, &ids)
                };
                match t {
                    StepTransition::JumpTo(k) => (RunState { index: k, loop_count: s.loop_count, cap: s.cap, stage: RunStage::Ready }, RunAction::Proceed),
                    StepTransition::Next(k) => (RunState { index: k, loop_count: s.loop_count, cap: s.cap, stage: RunStage::Ready }, RunAction::Proceed),
                    StepTransition::Stop => stop_run(s, steps.len()),
                    StepTransition::FanOut => {
                        let targets = match route {
                            Some(t) => clone_strings(t),
                            None => Vec::new(),
                        };
                        (
                            RunState { index: s.index, loop_count: s.loop_count, cap: s.cap, stage: RunStage::FanningOut },
                            RunAction::FanOut { targets },
                        )
                    },
                }
            } else {
                (s, RunAction::Ignored)
            },
            _ => (s, RunAction::Ignored),
        },
        RunStage::FanningOut => match event {
            RunEvent::FanOutFinished { last_target } => {
                let fits = match last_target {
                    Some(k) => *k < steps.len(),
                    None => true,
                };
                if s.index < steps.len() && fits {
                    let next = after_fan_out(s.index, *last_target);
                    (RunState { index: next, loop_count: s.loop_count, cap: s.cap, stage: RunStage::Ready }, RunAction::Proceed)
                } else {
                    (s, RunAction::Ignored)
                }
            },
            _ => (s, RunAction::Ignored),
        },
        RunStage::Done => (s, RunAction::Ignored),
    }
}

/// The phases of a benchmark run, in the order they come.
#[derive(Debug, Clone, Copy, PartialEq, Eq, Structural)]
pub enum SetupPhase {
    /// Reading the workflow configuration.
    LoadConfig,
    /// The workflow's resource preflight, before anything reaches the server.
    ResourcePreflight,
    /// The server preflight: disk space, stale processes, health.
    ServerPreflight,
    /// Output directories, the client and the server's load parameters.
    Prepare,
    /// Finding model files.
    Discover,
    /// Asking the server for its loaded models, when no file was found.
    ServerModels,
    /// Reading and ordering the workflow steps.
    LoadSteps,
    /// Running the workflow loop, or the direct benchmark without one.
    Execute,
    /// Writing the final report.
    Report,
    /// Over.
    Done,
}

/// What the caller reports about a phase.
#[derive(Debug)]
pub enum SetupEvent {
    /// The phase's work succeeded.
    Passed,
    /// The phase's work failed with this message.
    Refused(String),
    /// This many models were found.
    Found(usize),
    /// The workflow declares `declared` steps (`None`: no workflow steps)
    /// and the dependency sort kept `sorted` of them.
    StepsLoaded { declared: Option<usize>, sorted: usize },
}

/// What the caller does next in the run.
#[derive(Debug)]
pub enum SetupAction {
    LoadConfig,
    CheckResources,
    CheckServer,
    Prepare,
    DiscoverModels,
    ListServerModels,
    LoadSteps,
    RunWorkflow,
    RunDirect,
    WriteReport,
    /// Preflight-only run: report an empty suite and stop.
    FinishPreflightOnly,
    Fail(String),
    Finish,
    /// The event does not fit the phase; nothing changed.
    Ignored,
}

/// What a `SetupAction` says, over plain values.
pub enum SetupActionView {
    LoadConfig,
    CheckResources,
    CheckServer,
    Prepare,
    DiscoverModels,
    ListServerModels,
    LoadSteps,
    RunWorkflow,
    RunDirect,
    WriteReport,
    FinishPreflightOnly,
    Fail(Seq<char>),
    Finish,
    Ignored,
}

impl View for SetupAction {
    type V = SetupActionView;

    open spec fn view(&self) -> SetupActionView {
        match self {
            SetupAction::LoadConfig => SetupActionView::LoadConfig,
            SetupAction::CheckResources => SetupActionView::CheckResources,
            SetupAction::CheckServer => SetupActionView::CheckServer,
            SetupAction::Prepare => SetupActionView::Prepare,
            SetupAction::DiscoverModels => SetupActionView::DiscoverModels,
            SetupAction::ListServerModels => SetupActionView::ListServerModels,
            SetupAction::LoadSteps => SetupActionView::LoadSteps,
            SetupAction::RunWorkflow => SetupActionView::RunWorkflow,
            SetupAction::RunDirect => SetupActionView::RunDirect,
            SetupAction::WriteReport => SetupActionView::WriteReport,
            SetupAction::FinishPreflightOnly => SetupActionView::FinishPreflightOnly,
            SetupAction::Fail(m) => SetupActionView::Fail(m@),
            SetupAction::Finish => SetupActionView::Finish,
            SetupAction::Ignored => SetupActionView::Ignored,
        }
    }
}

/// The error of a run that found no model anywhere.
pub open spec fn no_models_message() -> Seq<char> {
    "No models found for benchmarking"@
}

/// One step of a benchmark run's phases. A failure in any phase before
/// the report ends the run with its message. The resource preflight runs
/// right after the configuration is read and before the server preflight;
/// a preflight-only run stops after the server preflight. Discovery that
/// finds nothing asks the server for its loaded models, and a run without
/// any model fails. A workflow whose dependency sort dropped steps is
/// refused; one with steps runs the workflow loop, and a run without
/// workflow steps benchmarks the models directly. The report comes last.
pub open spec fn setup_transition_spec(
    phase: SetupPhase,
    preflight_only: bool,
    event: SetupEvent,
) -> (SetupPhase, SetupActionView) {
    match (phase, event) {
        (SetupPhase::Done, _) => (phase, SetupActionView::Ignored),
        (_, SetupEvent::Refused(m)) => (SetupPhase::Done, SetupActionView::Fail(m@)),
        (SetupPhase::LoadConfig, SetupEvent::Passed) => (SetupPhase::ResourcePreflight, SetupActionView::CheckResources),
        (SetupPhase::ResourcePreflight, SetupEvent::Passed) => (SetupPhase::ServerPreflight, SetupActionView::CheckServer),
        (SetupPhase::ServerPreflight, SetupEvent::Passed) => if preflight_only {
            (SetupPhase::Done, SetupActionView::FinishPreflightOnly)
        } else {
            (SetupPhase::Prepare, SetupActionView::Prepare)
        },
        (SetupPhase::Prepare, SetupEvent::Passed) => (SetupPhase::Discover, SetupActionView::DiscoverModels),
        (SetupPhase::Discover, SetupEvent::Found(k)) => if k > 0 {
            (SetupPhase::LoadSteps, SetupActionView::LoadSteps)
        } else {
            (SetupPhase::ServerModels, SetupActionView::ListServerModels)
        },
        (SetupPhase::ServerModels, SetupEvent::Found(k)) => if k > 0 {
            (SetupPhase::LoadSteps, SetupActionView::LoadSteps)
        } else {
            (SetupPhase::Done, SetupActionView::Fail(no_models_message()))
        },
        (SetupPhase::LoadSteps, SetupEvent::StepsLoaded { declared, sorted }) => match declared {
            Some(d) => if sorted < d {
                (SetupPhase::Done, SetupActionView::Fail(cycle_message((d - sorted) as nat, d as nat)))
            } else if d > 0 {
                (SetupPhase::Execute, SetupActionView::RunWorkflow)
            } else {
                (SetupPhase::Execute, SetupActionView::RunDirect)
            },
            None => (SetupPhase::Execute, SetupActionView::RunDirect),
        },
        (SetupPhase::Execute, SetupEvent::Passed) => (SetupPhase::Report, SetupActionView::WriteReport),
        (SetupPhase::Report, SetupEvent::Passed) => (SetupPhase::Done, SetupActionView::Finish),
        _ => (phase, SetupActionView::Ignored),
    }
}

/// One step of a benchmark run's phases, as `setup_transition_spec` says.
pub fn setup_transition(phase: SetupPhase, preflight_only: bool, event: &SetupEvent) -> (r: (SetupPhase, SetupAction))
    ensures
        r.0 == setup_transition_spec(phase, preflight_only, *event).0,
        r.1@ == setup_transition_spec(phase, preflight_only, *event).1,
{
    proof {
        reveal_strlit("No models found for benchmarking");
    }
    match (phase, event) {
        (SetupPhase::Done, _) => (phase, SetupAction::Ignored),
        (_, SetupEvent::Refused(m)) => (SetupPhase::Done, SetupAction::Fail(m.clone())),
        (SetupPhase::LoadConfig, SetupEvent::Passed) => (SetupPhase::ResourcePreflight, SetupAction::CheckResources),
        (SetupPhase::ResourcePreflight, SetupEvent::Passed) => (SetupPhase::ServerPreflight, SetupAction::CheckServer),
        (SetupPhase::ServerPreflight, SetupEvent::Passed) => if preflight_only {
            (SetupPhase::Done, SetupAction::FinishPreflightOnly)
        } else {
            (SetupPhase::Prepare, SetupAction::Prepare)
        },
        (SetupPhase::Prepare, SetupEvent::Passed) => (SetupPhase::Discover, SetupAction::DiscoverModels),
        (SetupPhase::Discover, SetupEvent::Found(k)) => if *k > 0 {
            (SetupPhase::LoadSteps, SetupAction::LoadSteps)
        } else {
            (SetupPhase::ServerModels, SetupAction::ListServerModels)
        },
        (SetupPhase::ServerModels, SetupEvent::Found(k)) => if *k > 0 {
            (SetupPhase::LoadSteps, SetupAction::LoadSteps)
        } else {
            (SetupPhase::Done, SetupAction::Fail("No models found for benchmarking".to_string()))
        },
        (SetupPhase::LoadSteps, SetupEvent::StepsLoaded { declared, sorted }) => match declared {
            Some(d) => match cycle_error(*sorted, *d) {
                Some(m) => (SetupPhase::Done, SetupAction::Fail(m)),
                None => if *d > 0 {
                    (SetupPhase::Execute, SetupAction::RunWorkflow)
                } else {
                    (SetupPhase::Execute, SetupAction::RunDirect)
                },
            },
            None => (SetupPhase::Execute, SetupAction::RunDirect),
        },
        (SetupPhase::Execute, SetupEvent::Passed) => (SetupPhase::Report, SetupAction::WriteReport),
        (SetupPhase::Report, SetupEvent::Passed) => (SetupPhase::Done, SetupAction::Finish),
        _ => (phase, SetupAction::Ignored),
    }
}

/// The position of a phase in the run's order.
pub open spec fn phase_rank(p: SetupPhase) -> nat {
    match p {
        SetupPhase::LoadConfig => 0,
        SetupPhase::ResourcePreflight => 1,
        SetupPhase::ServerPreflight => 2,
        SetupPhase::Prepare => 3,
        SetupPhase::Discover => 4,
        SetupPhase::ServerModels => 5,
        SetupPhase::LoadSteps => 6,
        SetupPhase::Execute => 7,
        SetupPhase::Report => 8,
        SetupPhase::Done => 9,
    }
}

/// An action that reaches the server or its models.
pub open spec fn touches_server(a: SetupActionView) -> bool {
    match a {
        SetupActionView::CheckServer | SetupActionView::Prepare | SetupActionView::DiscoverModels
        | SetupActionView::ListServerModels | SetupActionView::LoadSteps | SetupActionView::RunWorkflow
        | SetupActionView::RunDirect => true,
        _ => false,
    }
}

/// The run's phases only move forward. Nothing reaches the server (its
/// health check, its model list, a load) before the resource preflight has
/// passed: the only way past the resource preflight, other than failing,
/// is its success. The workflow loop starts only for a workflow whose
/// dependency sort kept every step.
pub proof fn lemma_run_phases_in_order(phase: SetupPhase, preflight_only: bool, event: SetupEvent)
    ensures
        ({
            let r = setup_transition_spec(phase, preflight_only, event);
            phase_rank(r.0) >= phase_rank(phase)
        }),
        ({
            let r = setup_transition_spec(phase, preflight_only, event);
            touches_server(r.1) ==> phase_rank(r.0) > phase_rank(SetupPhase::ResourcePreflight) && r.0
                != SetupPhase::Done && (phase_rank(phase) > phase_rank(SetupPhase::ResourcePreflight) || (
            phase == SetupPhase::ResourcePreflight && event is Passed))
        }),
        ({
            let r = setup_transition_spec(phase, preflight_only, event);
            r.1 is RunWorkflow ==> phase == SetupPhase::LoadSteps && (event matches SetupEvent::StepsLoaded {
                declared: Some(d),
                sorted,
            } && sorted >= d && d > 0)
        }),
{
}

/// How a step is run.
#[derive(Debug, Clone, Copy, PartialEq, Eq, Structural)]
pub enum StepKind {
    /// Once per set of iteration values.
    Iterate,
    /// Once, on the model its generative entity names.
    WithModel,
    /// Once, on the first model found (a prompt without a generative entity).
    FirstModel,
    /// Not at all.
    Nothing,
}

/// A step with iteration values runs once per set; otherwise one with a
/// generative entity runs on that entity's model, and one with only a
/// prompt runs on the first model found, when there is one.
pub open spec fn step_kind_spec(
    has_iteration_values: bool,
    has_generative_entity: bool,
    has_prompt: bool,
    has_models: bool,
) -> StepKind {
    if has_iteration_values {
        StepKind::Iterate
    } else if has_generative_entity {
        StepKind::WithModel
    } else if has_prompt && has_models {
        StepKind::FirstModel
    } else {
        StepKind::Nothing
    }
}

/// How a step is run, as `step_kind_spec` says.
pub fn step_kind(has_iteration_values: bool, has_generative_entity: bool, has_prompt: bool, has_models: bool) -> (k: StepKind)
    ensures
        k == step_kind_spec(has_iteration_values, has_generative_entity, has_prompt, has_models),
{
    if has_iteration_values {
        StepKind::Iterate
    } else if has_generative_entity {
        StepKind::WithModel
    } else if has_prompt && has_models {
        StepKind::FirstModel
    } else {
        StepKind::Nothing
    }
}

/// What an iteration of a step reported.
#[derive(Debug)]
pub enum IterationEvent {
    /// The iteration ran; its hooks asked for these.
    Ran { route: Option<Vec<String>>, skip_remaining: bool, skip_loop: bool },
    /// The iteration's model could not be resolved; it was recorded as failed.
    ModelMissing,
}

/// What follows an iteration.
#[derive(Debug)]
pub enum IterationAction {
    /// Run the iteration at this position.
    Run(usize),
    /// The step's iterations are over; report this to the workflow loop.
    Finished { route: Option<Vec<String>>, skip_remaining: bool },
}

/// What an `IterationAction` says, over plain values.
pub enum IterationActionView {
    Run(usize),
    Finished { route: Option<Seq<Seq<char>>>, skip_remaining: bool },
}

impl View for IterationAction {
    type V = IterationActionView;

    open spec fn view(&self) -> IterationActionView {
        match self {
            IterationAction::Run(k) => IterationActionView::Run(*k),
            IterationAction::Finished { route, skip_remaining } => IterationActionView::Finished {
                route: match route {
                    Some(t) => Some(strings_view(t@)),
                    None => None,
                },
                skip_remaining: *skip_remaining,
            },
        }
    }
}

/// The first iteration of a step with `count` sets of values.
pub open spec fn first_iteration_spec(count: nat) -> IterationActionView {
    if count > 0 {
        IterationActionView::Run(0)
    } else {
        IterationActionView::Finished { route: None, skip_remaining: false }
    }
}

/// After iteration `done` of `count`: a route ends the iterations and is
/// passed on; so does a request to skip the rest of the workflow, and a
/// request to skip the loop ends them with neither; otherwise (also when
/// the model was missing) the next iteration runs, and after the last the
/// iterations end with neither.
pub open spec fn after_iteration_spec(done: nat, count: nat, event: IterationEvent) -> IterationActionView {
    let next = if done + 1 < count {
        IterationActionView::Run((done + 1) as usize)
    } else {
        IterationActionView::Finished { route: None, skip_remaining: false }
    };
    match event {
        IterationEvent::Ran { route, skip_remaining, skip_loop } => match route {
            Some(t) => IterationActionView::Finished { route: Some(strings_view(t@)), skip_remaining: false },
            None => if skip_remaining {
                IterationActionView::Finished { route: None, skip_remaining: true }
            } else if skip_loop {
                IterationActionView::Finished { route: None, skip_remaining: false }
            } else {
                next
            },
        },
        IterationEvent::ModelMissing => next,
    }
}

/// The first iteration, as `first_iteration_spec` says.
pub fn first_iteration(count: usize) -> (a: IterationAction)
    ensures
        a@ == first_iteration_spec(count as nat),
{
    if count > 0 {
        IterationAction::Run(0)
    } else {
        IterationAction::Finished { route: None, skip_remaining: false }
    }
}

/// What follows an iteration, as `after_iteration_spec` says.
pub fn after_iteration(done: usize, count: usize, event: &IterationEvent) -> (a: IterationAction)
    requires
        done < count,
    ensures
        a@ == after_iteration_spec(done as nat, count as nat, *event),
{
    let go_on = done + 1 < count;
    match event {
        IterationEvent::Ran { route, skip_remaining, skip_loop } => match route {
            Some(t) => IterationAction::Finished { route: Some(clone_strings(t)), skip_remaining: false },
            None => if *skip_remaining {
                IterationAction::Finished { route: None, skip_remaining: true }
            } else if *skip_loop || !go_on {
                IterationAction::Finished { route: None, skip_remaining: false }
            } else {
                IterationAction::Run(done + 1)
            },
        },
        IterationEvent::ModelMissing => if go_on {
            IterationAction::Run(done + 1)
        } else {
            IterationAction::Finished { route: None, skip_remaining: false }
        },
    }
}

/// Iterations run in order, each at most once: the iteration that follows
/// iteration `done` is the next one, within the step's sets of values.
pub proof fn lemma_iterations_advance_by_one(done: nat, count: nat, event: IterationEvent)
    requires
        done < count <= usize::MAX,
    ensures
        after_iteration_spec(done, count, event) matches IterationActionView::Run(k) ==> k == done + 1 && k < count,
        first_iteration_spec(count) matches IterationActionView::Run(k) ==> k == 0 && k < count,
{
}

/// The value of the last entry for `key`.
pub open spec fn last_value(entries: Seq<(String, String)>, key: Seq<char>) -> Option<Seq<char>>
    decreases entries.len(),
{
    if entries.len() == 0 {
        None
    } else if entries.last().0@ == key {
        Some(entries.last().1@)
    } else {
        last_value(entries.drop_last(), key)
    }
}

proof fn lemma_value_of_push(s: Seq<(String, String)>, x: (String, String), k: Seq<char>)
    ensures
        value_of(s.push(x), k) == match value_of(s, k) {
            Some(v) => Some(v),
            None => if x.0@ == k {
                Some(x.1@)
            } else {
                None
            },
        },
    decreases s.len(),
{
    if s.len() == 0 {
        assert(s.push(x)[0] == x);
        assert(s.push(x).drop_first() =~= Seq::<(String, String)>::empty());
        assert(value_of(Seq::<(String, String)>::empty(), k) is None);
    } else {
        assert(s.push(x)[0] == s[0]);
        assert(s.push(x).drop_first() =~= s.drop_first().push(x));
        lemma_value_of_push(s.drop_first(), x, k);
    }
}

proof fn lemma_value_of_update(s: Seq<(String, String)>, i: int, x: (String, String), k: Seq<char>)
    requires
        0 <= i < s.len(),
        s[i].0@ == x.0@,
        forall|j: int| 0 <= j < i ==> #[trigger] s[j].0@ != x.0@,
    ensures
        value_of(s.update(i, x), k) == if k == x.0@ {
            Some(x.1@)
        } else {
            value_of(s, k)
        },
    decreases i,
{
    if i == 0 {
        assert(s.update(i, x).drop_first() =~= s.drop_first());
    } else {
        assert(s.update(i, x)[0] == s[0]);
        assert(s.update(i, x).drop_first() =~= s.drop_first().update(i - 1, x));
        assert forall|j: int| 0 <= j < i - 1 implies #[trigger] s.drop_first()[j].0@ != x.0@ by {
            assert(s.drop_first()[j] == s[j + 1]);
        }
        lemma_value_of_update(s.drop_first(), i - 1, x, k);
    }
}

/// Records `text` as the output of step `id`: the step's entry takes the
/// new text, and a step without one gets a new entry at the end; every
/// other step's output stays as it was.
pub fn record_output(outputs: &mut Vec<(String, String)>, id: &str, text: &str)
    ensures
        forall|k: Seq<char>| #[trigger] value_of(final(outputs)@, k) == if k == id@ {
            Some(text@)
        } else {
            value_of(old(outputs)@, k)
        },
{
    let entry = (id.to_string(), text.to_string());
    let mut i: usize = 0;
    while i < outputs.len()
        invariant
            i <= outputs@.len(),
            outputs@ == old(outputs)@,
            entry.0@ == id@,
            entry.1@ == text@,
            forall|j: int| 0 <= j < i ==> #[trigger] outputs@[j].0@ != id@,
        decreases outputs.len() - i,
    {
        if str_equal(outputs[i].0.as_str(), id) {
            let ghost before = outputs@;
            outputs.set(i, entry);
            proof {
                assert forall|k: Seq<char>| #[trigger] value_of(outputs@, k) == if k == id@ {
                    Some(text@)
                } else {
                    value_of(before, k)
                } by {
                    lemma_value_of_update(before, i as int, (entry.0, entry.1), k);
                }
            }
            return;
        }
        i += 1;
    }
    let ghost before = outputs@;
    proof {
        assert forall|k: Seq<char>| k == id@ implies value_of(before, k) is None by {
            lemma_value_of_absent(before, k);
        }
    }
    outputs.push(entry);
    proof {
        assert forall|k: Seq<char>| #[trigger] value_of(outputs@, k) == if k == id@ {
            Some(text@)
        } else {
            value_of(before, k)
        } by {
            lemma_value_of_push(before, (entry.0, entry.1), k);
        }
    }
}

proof fn lemma_value_of_absent(s: Seq<(String, String)>, k: Seq<char>)
    requires
        forall|j: int| 0 <= j < s.len() ==> #[trigger] s[j].0@ != k,
    ensures
        value_of(s, k) is None,
    decreases s.len(),
{
    if s.len() > 0 {
        assert forall|j: int| 0 <= j < s.drop_first().len() implies #[trigger] s.drop_first()[j].0@ != k by {
            assert(s.drop_first()[j] == s[j + 1]);
        }
        lemma_value_of_absent(s.drop_first(), k);
    }
}

/// The step outputs a checkpoint's entries restore, in the order they were
/// written: each step keeps the output of its last entry.
pub fn latest_outputs(entries: &Vec<(String, String)>) -> (outputs: Vec<(String, String)>)
    ensures
        forall|k: Seq<char>| #[trigger] value_of(outputs@, k) == last_value(entries@, k),
{
    let mut outputs: Vec<(String, String)> = Vec::new();
    let mut i: usize = 0;
    proof {
        assert forall|k: Seq<char>| #[trigger] value_of(outputs@, k) == last_value(entries@.subrange(0, 0), k) by {
            assert(entries@.subrange(0, 0).len() == 0);
        }
    }
    while i < entries.len()
        invariant
            i <= entries@.len(),
            forall|k: Seq<char>| #[trigger] value_of(outputs@, k) == last_value(entries@.subrange(0, i as int), k),
        decreases entries.len() - i,
    {
        record_output(&mut outputs, entries[i].0.as_str(), entries[i].1.as_str());
        proof {
            let sub = entries@.subrange(0, i + 1);
            assert(sub.drop_last() =~= entries@.subrange(0, i as int));
            assert(sub.last() == entries@[i as int]);
            assert forall|k: Seq<char>| #[trigger] value_of(outputs@, k) == last_value(sub, k) by {
                assert(last_value(sub, k) == if sub.last().0@ == k {
                    Some(sub.last().1@)
                } else {
                    last_value(sub.drop_last(), k)
                });
            }
        }
        i += 1;
    }
    assert(entries@.subrange(0, entries.len() as int) =~= entries@);
    outputs
}

/// The loop runs a step only when it is the step it stands at, every
/// dependency of that step has recorded output, and the step's output
/// was not restored from a checkpoint; a skipped step is passed by
/// exactly one position.
pub proof fn lemma_steps_run_only_past_the_gate(
    s: RunState,
    e: RunEvent,
    steps: Seq<WorkflowStep>,
    outputs: Seq<(String, String)>,
    completed: Seq<String>,
)
    requires
        s.index < usize::MAX,
    ensures
        ({
            let r = run_transition_spec(s, e, steps, outputs, completed);
            r.1 matches RunActionView::RunStep { index } ==> index == s.index && index < steps.len()
                && r.0.stage == RunStage::Running && !has_id(completed, steps[index as int].step_id@)
                && missing(steps[index as int].requires@, outputs).len() == 0
        }),
        ({
            let r = run_transition_spec(s, e, steps, outputs, completed);
            (r.1 matches RunActionView::SkipResumed { index } ==> index == s.index && r.0.index == s.index + 1
                && has_id(completed, steps[index as int].step_id@))
        }),
        ({
            let r = run_transition_spec(s, e, steps, outputs, completed);
            (r.1 matches RunActionView::SkipUnsatisfied { index, unmet } ==> index == s.index
                && r.0.index == s.index + 1 && unmet.len() > 0)
        }),
{
    if s.index < steps.len() {
        let step = steps[s.index as int];
        if step.requires@.len() == 0 {
            assert(missing(step.requires@, outputs) =~= Seq::<Seq<char>>::empty());
        }
    }
}

/// The loop never begins more iterations than its cap, keeps its cap, and
/// never moves its iteration count backwards; only taking a step counts
/// one more iteration.
pub proof fn lemma_loop_count_within_cap(
    s: RunState,
    e: RunEvent,
    steps: Seq<WorkflowStep>,
    outputs: Seq<(String, String)>,
    completed: Seq<String>,
)
    requires
        s.loop_count <= s.cap,
    ensures
        run_transition_spec(s, e, steps, outputs, completed).0.loop_count <= s.cap,
        run_transition_spec(s, e, steps, outputs, completed).0.cap == s.cap,
        run_transition_spec(s, e, steps, outputs, completed).0.loop_count == s.loop_count
            || run_transition_spec(s, e, steps, outputs, completed).0.loop_count == s.loop_count + 1,
{
}

} // verus!
