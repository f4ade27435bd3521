//! The decisions of running one workflow step and of retrying one
//! inference request: what the step's hooks and the pressure gate make of
//! the step, and whether a failed attempt is retried.

use vstd::prelude::*;
use vstd::arithmetic::power2::{lemma2_to64, lemma2_to64_rest, lemma_pow2_strictly_increases, lemma_pow2_unfold, pow2};
use crate::admission::{reject_code_name, rejection_message, Admission};
use crate::decimal::{decimal, u64_to_chars};
use crate::settings::strings_view;
use crate::text::{chars_to_string, has_prefix, occurs_at, push_all, push_str, seq_contains, str_contains};
use crate::workflow::is_retry_exhausted_error;
use vstd::string::StringSliceAdditionalSpecFns;
use vstd::utf8::{encode_utf8, is_char_boundary};

verus! {

/// What a step's hooks asked for at one trigger.
#[derive(Debug)]
pub enum HookVerdict {
    /// Nothing that changes the step's course.
    Continue,
    SkipStep,
    RouteTo(Vec<String>),
    Fail(String),
    SkipRemaining,
    SkipLoop,
}

/// What the resource gate says before a step's inference.
#[derive(Debug)]
pub enum GateAction {
    Proceed,
    /// Close to the limits; the step goes ahead.
    Warn,
    /// Critical pressure; the step fails with this reason.
    Block(String),
}

/// The course a step took.
#[derive(Debug)]
pub struct StepOutcome {
    /// Inference ran.
    pub ran: bool,
    /// The error the step's result carries.
    pub error: Option<String>,
    pub route_to: Option<Vec<String>>,
    pub skip_remaining: bool,
    pub skip_loop: bool,
}

/// What a `StepOutcome` says, over plain values.
pub struct StepOutcomeView {
    pub ran: bool,
    pub error: Option<Seq<char>>,
    pub route_to: Option<Seq<Seq<char>>>,
    pub skip_remaining: bool,
    pub skip_loop: bool,
}

impl View for StepOutcome {
    type V = StepOutcomeView;

    open spec fn view(&self) -> StepOutcomeView {
        StepOutcomeView {
            ran: self.ran,
            error: match self.error {
                Some(e) => Some(e@),
                None => None,
            },
            route_to: match self.route_to {
                Some(t) => Some(strings_view(t@)),
                None => None,
            },
            skip_remaining: self.skip_remaining,
            skip_loop: self.skip_loop,
        }
    }
}

/// A step that did not reach inference, with the given error and route.
pub open spec fn not_run(error: Seq<char>, route_to: Option<Seq<Seq<char>>>) -> StepOutcomeView {
    StepOutcomeView { ran: false, error: Some(error), route_to, skip_remaining: false, skip_loop: false }
}

/// The error text `s` is one that says every attempt failed.
pub open spec fn says_retries_exhausted(s: Seq<char>) -> bool {
    has_prefix(s, "All "@) && seq_contains(s, " attempts failed:"@)
}

/// The course of a step.
///
/// - A `before_step_starts` verdict of skip or fail skips the step
///   ("Skipped by hook"); a route sends the run to its targets ("Routed by
///   hook"); either way no inference runs.
/// - Otherwise a blocking gate fails the step with its reason.
/// - Otherwise inference runs. When it failed, the error stands and an
///   `after_step_fails` route is followed, or, when the error says every
///   attempt failed, an `after_all_retries_exhausted` route in its place.
/// - When it succeeded, an `after_step_succeeds` verdict of fail marks the
///   step failed ("after_step_succeeds hook failed: <reason>"), and a
///   route, skip-remaining or skip-loop verdict is passed on.
pub open spec fn step_outcome_spec(
    before: HookVerdict,
    gate: GateAction,
    inference_error: Option<String>,
    after: HookVerdict,
    exhausted: HookVerdict,
) -> StepOutcomeView {
    match before {
        HookVerdict::SkipStep => not_run("Skipped by hook"@, None),
        HookVerdict::Fail(_) => not_run("Skipped by hook"@, None),
        HookVerdict::RouteTo(t) => not_run("Routed by hook"@, Some(strings_view(t@))),
        _ => match gate {
            GateAction::Block(reason) => not_run(reason@, None),
            _ => match inference_error {
                Some(err) => {
                    let after_route = match after {
                        HookVerdict::RouteTo(t) => Some(strings_view(t@)),
                        _ => None,
                    };
                    let route = match exhausted {
                        HookVerdict::RouteTo(t) => if says_retries_exhausted(err@) {
                            Some(strings_view(t@))
                        } else {
                            after_route
                        },
                        _ => after_route,
                    };
                    StepOutcomeView { ran: true, error: Some(err@), route_to: route, skip_remaining: false, skip_loop: false }
                },
                None => match after {
                    HookVerdict::Fail(reason) => StepOutcomeView {
                        ran: true,
                        error: Some("after_step_succeeds hook failed: "@ + reason@),
                        route_to: None,
                        skip_remaining: false,
                        skip_loop: false,
                    },
                    HookVerdict::RouteTo(t) => StepOutcomeView {
                        ran: true,
                        error: None,
                        route_to: Some(strings_view(t@)),
                        skip_remaining: false,
                        skip_loop: false,
                    },
                    HookVerdict::SkipRemaining => StepOutcomeView {
                        ran: true,
                        error: None,
                        route_to: None,
                        skip_remaining: true,
                        skip_loop: false,
                    },
                    HookVerdict::SkipLoop => StepOutcomeView {
                        ran: true,
                        error: None,
                        route_to: None,
                        skip_remaining: false,
                        skip_loop: true,
                    },
                    _ => StepOutcomeView { ran: true, error: None, route_to: None, skip_remaining: false, skip_loop: false },
                },
            },
        },
    }
}

fn copy_strings(v: &Vec<String>) -> (r: Vec<String>)
    ensures
        r@ == v@,
{
    let mut r: Vec<String> = Vec::new();
    let mut i: usize = 0;
    while i < v.len()
        invariant
            i <= v@.len(),
            r@ == v@.subrange(0, i as int),
        decreases v.len() - i,
    {
        r.push(v[i].clone());
        assert(r@ =~= v@.subrange(0, i + 1));
        i += 1;
    }
    assert(v@.subrange(0, v.len() as int) =~= v@);
    r
}

fn outcome_not_run(error: &str, route_to: Option<Vec<String>>) -> (o: StepOutcome)
    ensures
        o@ == not_run(error@, match route_to {
            Some(t) => Some(strings_view(t@)),
            None => None,
        }),
{
    StepOutcome { ran: false, error: Some(error.to_string()), route_to, skip_remaining: false, skip_loop: false }
}

/// The course of a step up to its inference: `Some` when the step stops
/// there (what `step_outcome` gives whatever follows), `None` when
/// inference runs.
pub fn step_gate(before: &HookVerdict, gate: &GateAction) -> (r: Option<StepOutcome>)
    ensures
        match r {
            Some(o) => forall|ie: Option<String>, a: HookVerdict, x: HookVerdict| #[trigger] step_outcome_spec(*before, *gate, ie, a, x) == o@,
            None => forall|ie: Option<String>, a: HookVerdict, x: HookVerdict| #[trigger] step_outcome_spec(*before, *gate, ie, a, x).ran,
        },
{
    proof {
        reveal_strlit("Skipped by hook");
        reveal_strlit("Routed by hook");
    }
    match before {
        HookVerdict::SkipStep => Some(outcome_not_run("Skipped by hook", None)),
        HookVerdict::Fail(_) => Some(outcome_not_run("Skipped by hook", None)),
        HookVerdict::RouteTo(t) => Some(outcome_not_run("Routed by hook", Some(copy_strings(t)))),
        _ => match gate {
            GateAction::Block(reason) => Some(outcome_not_run(reason.as_str(), None)),
            _ => None,
        },
    }
}

/// The course of a step, as `step_outcome_spec` says: `before` is the
/// verdict of the `before_step_starts` hooks, `gate` the resource gate's,
/// `inference_error` the error inference ended with, `after` the verdict
/// of `after_step_fails` (on an error) or `after_step_succeeds` (without
/// one), and `exhausted` that of `after_all_retries_exhausted`.
pub fn step_outcome(
    before: &HookVerdict,
    gate: &GateAction,
    inference_error: &Option<String>,
    after: &HookVerdict,
    exhausted: &HookVerdict,
) -> (o: StepOutcome)
    ensures
        o@ == step_outcome_spec(*before, *gate, *inference_error, *after, *exhausted),
{
    match step_gate(before, gate) {
        Some(o) => {
            assert(step_outcome_spec(*before, *gate, *inference_error, *after, *exhausted) == o@);
            return o;
        },
        None => {
            assert(step_outcome_spec(*before, *gate, *inference_error, *after, *exhausted).ran);
        },
    }
    match inference_error {
        Some(err) => {
            let after_route: Option<Vec<String>> = match after {
                HookVerdict::RouteTo(t) => Some(copy_strings(t)),
                _ => None,
            };
            let route = match exhausted {
                HookVerdict::RouteTo(t) => if is_retry_exhausted_error(err.as_str()) {
                    Some(copy_strings(t))
                } else {
                    after_route
                },
                _ => after_route,
            };
            StepOutcome { ran: true, error: Some(err.clone()), route_to: route, skip_remaining: false, skip_loop: false }
        },
        None => match after {
            HookVerdict::Fail(reason) => {
                let mut out: Vec<char> = Vec::new();
                push_str(&mut out, "after_step_succeeds hook failed: ");
                push_str(&mut out, reason.as_str());
                StepOutcome {
                    ran: true,
                    error: Some(chars_to_string(out.as_slice())),
                    route_to: None,
                    skip_remaining: false,
                    skip_loop: false,
                }
            },
            HookVerdict::RouteTo(t) => StepOutcome {
                ran: true,
                error: None,
                route_to: Some(copy_strings(t)),
                skip_remaining: false,
                skip_loop: false,
            },
            HookVerdict::SkipRemaining => StepOutcome {
                ran: true,
                error: None,
                route_to: None,
                skip_remaining: true,
                skip_loop: false,
            },
            HookVerdict::SkipLoop => StepOutcome {
                ran: true,
                error: None,
                route_to: None,
                skip_remaining: false,
                skip_loop: true,
            },
            _ => StepOutcome { ran: true, error: None, route_to: None, skip_remaining: false, skip_loop: false },
        },
    }
}

/// A step that did not reach inference always carries an error and never
/// asks to skip anything; a step asks to skip the rest of the workflow or
/// its loop only after inference succeeded, and then carries no error.
pub proof fn lemma_step_outcome_shapes(
    before: HookVerdict,
    gate: GateAction,
    inference_error: Option<String>,
    after: HookVerdict,
    exhausted: HookVerdict,
)
    ensures
        ({
            let o = step_outcome_spec(before, gate, inference_error, after, exhausted);
            !o.ran ==> o.error is Some && !o.skip_remaining && !o.skip_loop
        }),
        ({
            let o = step_outcome_spec(before, gate, inference_error, after, exhausted);
            (o.skip_remaining || o.skip_loop) ==> o.ran && o.error is None && inference_error is None
        }),
        ({
            let o = step_outcome_spec(before, gate, inference_error, after, exhausted);
            o.ran ==> (inference_error is Some ==> o.error == Some(inference_error->0@))
        }),
{
}

/// What a workflow step's result records, apart from its timings, rates
/// and token counts.
#[derive(Debug)]
pub struct StepResultRecord {
    pub step_id: String,
    pub model_id: String,
    pub model_path: String,
    pub gpu_mode: String,
    pub error: Option<String>,
    /// The responses to the step's prompts, in order; none when the step
    /// did not reach inference.
    pub responses: Vec<String>,
}

/// Views of an optional string.
pub open spec fn opt_text(s: Option<String>) -> Option<Seq<char>> {
    match s {
        Some(t) => Some(t@),
        None => None,
    }
}

/// The result record of a step that took the course `outcome` on model
/// `model_id` (file `model_path`), with `responses` from its inference:
/// it names the step and the model, runs in GPU mode, carries the
/// outcome's error, and holds the responses only when inference ran.
pub fn step_result(
    step_id: &str,
    model_id: &str,
    model_path: &str,
    outcome: &StepOutcome,
    responses: &Vec<String>,
) -> (r: StepResultRecord)
    ensures
        r.step_id@ == step_id@,
        r.model_id@ == model_id@,
        r.model_path@ == model_path@,
        r.gpu_mode@ == "gpu"@,
        opt_text(r.error) == outcome@.error,
        outcome.ran ==> strings_view(r.responses@) == strings_view(responses@),
        !outcome.ran ==> r.responses@.len() == 0,
{
    let error = match &outcome.error {
        Some(e) => Some(e.clone()),
        None => None,
    };
    let kept = if outcome.ran {
        copy_strings(responses)
    } else {
        Vec::new()
    };
    StepResultRecord {
        step_id: step_id.to_string(),
        model_id: model_id.to_string(),
        model_path: model_path.to_string(),
        gpu_mode: "gpu".to_string(),
        error,
        responses: kept,
    }
}

/// The output a step leaves for the steps after it: its first response,
/// or nothing.
pub open spec fn output_of(responses: Seq<String>) -> Seq<char> {
    if responses.len() > 0 {
        responses[0]@
    } else {
        Seq::empty()
    }
}

/// The output a step's result leaves for the steps after it, as
/// `output_of` says.
pub fn step_output(record: &StepResultRecord) -> (o: String)
    ensures
        o@ == output_of(record.responses@),
{
    if record.responses.len() > 0 {
        record.responses[0].clone()
    } else {
        String::new()
    }
}

/// The marker of an error raised because resource pressure turned
/// critical.
pub const RESOURCE_CRITICAL: &'static str = "RESOURCE_CRITICAL";

/// How one inference attempt ended.
#[derive(Debug)]
pub enum AttemptOutcome {
    /// The server answered.
    Responded,
    /// The request failed with this error.
    Failed(String),
}

/// What follows an inference attempt.
#[derive(Debug)]
pub enum AttemptAction {
    /// The prompt has its response.
    Done,
    /// Wait `backoff_secs` seconds, then make attempt `next_attempt`.
    Retry { next_attempt: u32, backoff_secs: u64 },
    /// The prompt fails with this error.
    GiveUp { error: String },
}

/// What an `AttemptAction` says, over plain values.
pub enum AttemptActionView {
    Done,
    Retry { next_attempt: u32, backoff_secs: u64 },
    GiveUp { error: Seq<char> },
}

impl View for AttemptAction {
    type V = AttemptActionView;

    open spec fn view(&self) -> AttemptActionView {
        match self {
            AttemptAction::Done => AttemptActionView::Done,
            AttemptAction::Retry { next_attempt, backoff_secs } => AttemptActionView::Retry {
                next_attempt: *next_attempt,
                backoff_secs: *backoff_secs,
            },
            AttemptAction::GiveUp { error } => AttemptActionView::GiveUp { error: error@ },
        }
    }
}

/// The error of a prompt whose attempts all failed, the last with `last`.
pub open spec fn exhausted_message(max_attempts: nat, last: Seq<char>) -> Seq<char> {
    "All "@ + decimal(max_attempts) + " attempts failed: "@ + last
}

/// What follows attempt `attempt` (counted from 0) of `max_attempts`: a
/// refused admission before the attempt gives up at once with the
/// refusal; a response ends the prompt; a failure under critical
/// resource pressure, or on the last attempt, gives up with that error;
/// any other failure is retried after `2^attempt` seconds.
pub open spec fn attempt_action_spec(
    attempt: u32,
    max_attempts: u32,
    outcome: AttemptOutcome,
    admission: Admission,
) -> AttemptActionView {
    match admission {
        Admission::Rejected { code, detail } => AttemptActionView::GiveUp {
            error: exhausted_message(max_attempts as nat, reject_code_name(code) + ": "@ + detail@),
        },
        Admission::Admitted => match outcome {
            AttemptOutcome::Responded => AttemptActionView::Done,
            AttemptOutcome::Failed(e) => if seq_contains(e@, RESOURCE_CRITICAL@) || attempt + 1 >= max_attempts {
                AttemptActionView::GiveUp { error: exhausted_message(max_attempts as nat, e@) }
            } else {
                AttemptActionView::Retry { next_attempt: (attempt + 1) as u32, backoff_secs: pow2(attempt as nat) as u64 }
            },
        },
    }
}

fn exhausted_text(max_attempts: u32, last: &str) -> (t: String)
    ensures
        t@ == exhausted_message(max_attempts as nat, last@),
{
    let mut out: Vec<char> = Vec::new();
    push_str(&mut out, "All ");
    push_all(&mut out, &u64_to_chars(max_attempts as u64));
    push_str(&mut out, " attempts failed: ");
    push_str(&mut out, last);
    chars_to_string(out.as_slice())
}

fn two_to(e: u32) -> (p: u64)
    requires
        e < 64,
    ensures
        p == pow2(e as nat),
{
    proof {
        lemma2_to64();
        lemma2_to64_rest();
    }
    let mut p: u64 = 1;
    let mut i: u32 = 0;
    while i < e
        invariant
            i <= e < 64,
            p == pow2(i as nat),
            pow2(64) == 0x10000000000000000,
        decreases e - i,
    {
        proof {
            lemma_pow2_unfold((i + 1) as nat);
            lemma_pow2_strictly_increases((i + 1) as nat, 64);
        }
        p = p * 2;
        i += 1;
    }
    p
}

/// What follows an inference attempt, as `attempt_action_spec` says;
/// `admission` is the inference admission checked before the attempt
/// (the attempt was not made when it refused).
pub fn next_attempt(attempt: u32, max_attempts: u32, outcome: &AttemptOutcome, admission: &Admission) -> (a: AttemptAction)
    requires
        attempt < max_attempts,
        attempt + 1 < max_attempts ==> attempt < 64,
    ensures
        a@ == attempt_action_spec(attempt, max_attempts, *outcome, *admission),
{
    match rejection_message(admission) {
        Some(m) => {
            return AttemptAction::GiveUp { error: exhausted_text(max_attempts, m.as_str()) };
        },
        None => {},
    }
    match outcome {
        AttemptOutcome::Responded => AttemptAction::Done,
        AttemptOutcome::Failed(e) => {
            if str_contains(e.as_str(), RESOURCE_CRITICAL) || attempt + 1 >= max_attempts {
                AttemptAction::GiveUp { error: exhausted_text(max_attempts, e.as_str()) }
            } else {
                AttemptAction::Retry { next_attempt: attempt + 1, backoff_secs: two_to(attempt) }
            }
        },
    }
}

/// Whether an attempt sends a cut prompt: the last attempt of a prompt
/// longer than 4000 bytes sends only its last 3000 bytes.
pub open spec fn prompt_is_cut(attempt: u32, max_attempts: u32, prompt_bytes: nat) -> bool {
    attempt + 1 == max_attempts && prompt_bytes > 4000
}

/// The prompt an attempt sends. On the last attempt a prompt of more than
/// 4000 bytes is cut to its last 3000 bytes; any other attempt sends it
/// whole. `None` when that cut would fall inside a character's encoding,
/// where no prompt can be sent.
pub fn attempt_prompt(prompt: &str, attempt: u32, max_attempts: u32) -> (r: Option<String>)
    requires
        prompt.spec_bytes().len() <= usize::MAX,
    ensures
        !prompt_is_cut(attempt, max_attempts, prompt.spec_bytes().len()) ==> (r matches Some(p) && p@ == prompt@),
        prompt_is_cut(attempt, max_attempts, prompt.spec_bytes().len()) ==> match r {
            Some(p) => is_char_boundary(prompt.spec_bytes(), prompt.spec_bytes().len() - 3000)
                && encode_utf8(p@) == prompt.spec_bytes().subrange(
                    prompt.spec_bytes().len() - 3000,
                    prompt.spec_bytes().len() as int,
                ),
            None => !is_char_boundary(prompt.spec_bytes(), prompt.spec_bytes().len() - 3000),
        },
{
    let len: usize = prompt.len();
    if attempt < max_attempts && attempt == max_attempts - 1 && len > 4000 {
        let cut: usize = len - 3000;
        if prompt.is_char_boundary(cut) {
            let (_, tail) = prompt.split_at(cut);
            Some(tail.to_owned())
        } else {
            None
        }
    } else {
        Some(prompt.to_owned())
    }
}

/// The checks a model goes through before inference, in order.
#[derive(Debug, Clone, Copy, PartialEq, Eq, Structural)]
pub enum LoadStage {
    /// The workflow's preflight admission.
    Preflight,
    /// The workflow's admission for the model's current load state.
    ModelState,
    /// The default load admission (a model not yet loaded, no workflow contract).
    DefaultLoad,
    /// The server's health before the load.
    Health,
    /// The load itself.
    Loading,
}

/// What a load check reported.
#[derive(Debug)]
pub enum LoadEvent {
    /// The admission decided at this stage.
    Admission(Admission),
    /// The check refused the load with this message.
    Refused(String),
    /// The health check: the error it failed with, if it did.
    Health(Option<String>),
    /// The load did not finish within its limit.
    LoadTimedOut { waited_secs: u64, limit_secs: u64 },
    /// The load failed with this error.
    LoadFailed(String),
    /// The model is loaded.
    Loaded,
}

/// What follows a load check.
#[derive(Debug)]
pub enum LoadAction {
    /// Go on with this check.
    Next(LoadStage),
    /// The model's run ends with this error.
    Abort(String),
    /// Run the prompts.
    Infer,
}

/// What a `LoadAction` says, over plain values.
pub enum LoadActionView {
    Next(LoadStage),
    Abort(Seq<char>),
    Infer,
}

impl View for LoadAction {
    type V = LoadActionView;

    open spec fn view(&self) -> LoadActionView {
        match self {
            LoadAction::Next(s) => LoadActionView::Next(*s),
            LoadAction::Abort(e) => LoadActionView::Abort(e@),
            LoadAction::Infer => LoadActionView::Infer,
        }
    }
}

/// The error of a load that ran past its limit.
pub open spec fn load_timeout_message(waited: nat, limit: nat) -> Seq<char> {
    "Model load timed out after "@ + decimal(waited) + "s (limit: "@ + decimal(limit)
        + "s). Possible GPU driver issue — aborting to prevent system crash."@
}

/// The check after the admission stages: health when the caller checks
/// it, else the load.
pub open spec fn after_admissions(health_check: bool) -> LoadStage {
    if health_check { LoadStage::Health } else { LoadStage::Loading }
}

/// One step through the load checks: a refused admission or check, a
/// failed health check, a load that timed out or failed each end the
/// model's run with their error; otherwise the next check follows (the
/// default load admission only for a model not yet loaded when the run
/// asks for it), and a finished load goes on to inference. An event that
/// does not belong to the stage leaves it where it is.
pub open spec fn load_transition_spec(
    stage: LoadStage,
    already_loaded: bool,
    default_admission: bool,
    health_check: bool,
    event: LoadEvent,
) -> LoadActionView {
    match (stage, event) {
        (LoadStage::Preflight, LoadEvent::Admission(Admission::Rejected { code, detail })) => LoadActionView::Abort(
            reject_code_name(code) + ": "@ + detail@,
        ),
        (LoadStage::Preflight, LoadEvent::Admission(Admission::Admitted)) => LoadActionView::Next(LoadStage::ModelState),
        (LoadStage::ModelState, LoadEvent::Admission(Admission::Rejected { code, detail })) => LoadActionView::Abort(
            reject_code_name(code) + ": "@ + detail@,
        ),
        (LoadStage::ModelState, LoadEvent::Admission(Admission::Admitted)) => if !already_loaded && default_admission {
            LoadActionView::Next(LoadStage::DefaultLoad)
        } else {
            LoadActionView::Next(after_admissions(health_check))
        },
        (LoadStage::DefaultLoad, LoadEvent::Admission(Admission::Rejected { code, detail })) => LoadActionView::Abort(
            reject_code_name(code) + ": "@ + detail@,
        ),
        (LoadStage::DefaultLoad, LoadEvent::Refused(m)) => LoadActionView::Abort(m@),
        (LoadStage::DefaultLoad, LoadEvent::Admission(Admission::Admitted)) => LoadActionView::Next(after_admissions(health_check)),
        (LoadStage::Health, LoadEvent::Health(Some(e))) => LoadActionView::Abort("Health check before load failed: "@ + e@),
        (LoadStage::Health, LoadEvent::Health(None)) => LoadActionView::Next(LoadStage::Loading),
        (LoadStage::Loading, LoadEvent::LoadTimedOut { waited_secs, limit_secs }) => LoadActionView::Abort(
            load_timeout_message(waited_secs as nat, limit_secs as nat),
        ),
        (LoadStage::Loading, LoadEvent::LoadFailed(e)) => LoadActionView::Abort("Load failed: "@ + e@),
        (LoadStage::Loading, LoadEvent::Loaded) => LoadActionView::Infer,
        _ => LoadActionView::Next(stage),
    }
}

fn prefixed(prefix: &str, text: &str) -> (t: String)
    ensures
        t@ == prefix@ + text@,
{
    let mut out: Vec<char> = Vec::new();
    push_str(&mut out, prefix);
    push_str(&mut out, text);
    chars_to_string(out.as_slice())
}

fn admission_step(admission: &Admission, next: LoadStage) -> (a: LoadAction)
    ensures
        a@ == match *admission {
            Admission::Rejected { code, detail } => LoadActionView::Abort(reject_code_name(code) + ": "@ + detail@),
            Admission::Admitted => LoadActionView::Next(next),
        },
{
    match rejection_message(admission) {
        Some(m) => LoadAction::Abort(m),
        None => LoadAction::Next(next),
    }
}

/// One step through the load checks, as `load_transition_spec` says.
pub fn load_transition(
    stage: LoadStage,
    already_loaded: bool,
    default_admission: bool,
    health_check: bool,
    event: &LoadEvent,
) -> (a: LoadAction)
    ensures
        a@ == load_transition_spec(stage, already_loaded, default_admission, health_check, *event),
{
    let after = if health_check { LoadStage::Health } else { LoadStage::Loading };
    match (stage, event) {
        (LoadStage::Preflight, LoadEvent::Admission(adm)) => admission_step(adm, LoadStage::ModelState),
        (LoadStage::ModelState, LoadEvent::Admission(adm)) => {
            let next = if !already_loaded && default_admission {
                LoadStage::DefaultLoad
            } else {
                after
            };
            admission_step(adm, next)
        },
        (LoadStage::DefaultLoad, LoadEvent::Admission(adm)) => admission_step(adm, after),
        (LoadStage::DefaultLoad, LoadEvent::Refused(m)) => LoadAction::Abort(m.clone()),
        (LoadStage::Health, LoadEvent::Health(h)) => match h {
            Some(e) => LoadAction::Abort(prefixed("Health check before load failed: ", e.as_str())),
            None => LoadAction::Next(LoadStage::Loading),
        },
        (LoadStage::Loading, LoadEvent::LoadTimedOut { waited_secs, limit_secs }) => {
            let mut out: Vec<char> = Vec::new();
            push_str(&mut out, "Model load timed out after ");
            push_all(&mut out, &u64_to_chars(*waited_secs));
            push_str(&mut out, "s (limit: ");
            push_all(&mut out, &u64_to_chars(*limit_secs));
            push_str(&mut out, "s). Possible GPU driver issue — aborting to prevent system crash.");
            LoadAction::Abort(chars_to_string(out.as_slice()))
        },
        (LoadStage::Loading, LoadEvent::LoadFailed(e)) => LoadAction::Abort(prefixed("Load failed: ", e.as_str())),
        (LoadStage::Loading, LoadEvent::Loaded) => LoadAction::Infer,
        _ => LoadAction::Next(stage),
    }
}

/// The position of a load check in the order the checks run.
pub open spec fn load_rank(s: LoadStage) -> int {
    match s {
        LoadStage::Preflight => 0,
        LoadStage::ModelState => 1,
        LoadStage::DefaultLoad => 2,
        LoadStage::Health => 3,
        LoadStage::Loading => 4,
    }
}

/// The load checks only move forward, and inference starts only once the
/// load itself has finished.
pub proof fn lemma_load_checks_move_forward(
    stage: LoadStage,
    already_loaded: bool,
    default_admission: bool,
    health_check: bool,
    event: LoadEvent,
)
    ensures
        load_transition_spec(stage, already_loaded, default_admission, health_check, event) matches LoadActionView::Next(s)
            ==> load_rank(s) >= load_rank(stage),
        load_transition_spec(stage, already_loaded, default_admission, health_check, event) is Infer
            ==> stage == LoadStage::Loading && event is Loaded,
{
}

/// The stages of benchmarking one model without a workflow: a health
/// check and a run on the GPU, then, when comparing, the same on the CPU.
#[derive(Debug, Clone, Copy, PartialEq, Eq, Structural)]
pub enum DirectStage {
    GpuHealth,
    Gpu,
    /// The server was restarted in CPU mode; check its health.
    CpuHealth,
    Cpu,
}

/// What a stage of a direct benchmark reported.
#[derive(Debug)]
pub enum DirectEvent {
    /// The health check, with the error it failed with, if it did.
    Health(Option<String>),
    /// The benchmark ran; `failed` when its result carries an error.
    Finished { failed: bool },
}

/// What follows a stage of a direct benchmark.
#[derive(Debug)]
pub enum DirectAction {
    /// Go on with this stage.
    Next(DirectStage),
    /// Record a failed result for the mode (`cpu` or not) with this
    /// error; restart the server in GPU mode when `restore_gpu`; go on
    /// with the next model at once.
    SkipModel { cpu: bool, error: String, restore_gpu: bool },
    /// The model is done: report its results, with a speedup factor when
    /// both modes succeeded; restart in GPU mode when `restore_gpu`; wait
    /// before the next model when `delay`.
    Done { speedup: bool, restore_gpu: bool, delay: bool },
}

/// What a `DirectAction` says, over plain values.
pub enum DirectActionView {
    Next(DirectStage),
    SkipModel { cpu: bool, error: Seq<char>, restore_gpu: bool },
    Done { speedup: bool, restore_gpu: bool, delay: bool },
}

impl View for DirectAction {
    type V = DirectActionView;

    open spec fn view(&self) -> DirectActionView {
        match self {
            DirectAction::Next(s) => DirectActionView::Next(*s),
            DirectAction::SkipModel { cpu, error, restore_gpu } => DirectActionView::SkipModel {
                cpu: *cpu,
                error: error@,
                restore_gpu: *restore_gpu,
            },
            DirectAction::Done { speedup, restore_gpu, delay } => DirectActionView::Done {
                speedup: *speedup,
                restore_gpu: *restore_gpu,
                delay: *delay,
            },
        }
    }
}

/// One step of benchmarking model `index` of `count` without a workflow:
/// a failed health check skips the model with "Health check failed: ..."
/// (no wait before the next one); a GPU run that failed, or any GPU run
/// when not comparing, finishes the model; a good GPU run when comparing
/// goes on to the CPU; the CPU run finishes the model, with a speedup
/// when it succeeded too. A model that finishes is followed by a wait
/// unless it is the last. An event that does not belong to the stage
/// leaves it where it is.
pub open spec fn direct_transition_spec(
    stage: DirectStage,
    compare: bool,
    index: nat,
    count: nat,
    event: DirectEvent,
) -> DirectActionView {
    let delay = index + 1 < count;
    match (stage, event) {
        (DirectStage::GpuHealth, DirectEvent::Health(Some(e))) => DirectActionView::SkipModel {
            cpu: false,
            error: "Health check failed: "@ + e@,
            restore_gpu: false,
        },
        (DirectStage::GpuHealth, DirectEvent::Health(None)) => DirectActionView::Next(DirectStage::Gpu),
        (DirectStage::Gpu, DirectEvent::Finished { failed }) => if compare && !failed {
            DirectActionView::Next(DirectStage::CpuHealth)
        } else {
            DirectActionView::Done { speedup: false, restore_gpu: false, delay }
        },
        (DirectStage::CpuHealth, DirectEvent::Health(Some(e))) => DirectActionView::SkipModel {
            cpu: true,
            error: "Health check failed: "@ + e@,
            restore_gpu: true,
        },
        (DirectStage::CpuHealth, DirectEvent::Health(None)) => DirectActionView::Next(DirectStage::Cpu),
        (DirectStage::Cpu, DirectEvent::Finished { failed }) => DirectActionView::Done {
            speedup: !failed,
            restore_gpu: true,
            delay,
        },
        _ => DirectActionView::Next(stage),
    }
}

/// One step of a direct benchmark, as `direct_transition_spec` says.
pub fn direct_transition(stage: DirectStage, compare: bool, index: usize, count: usize, event: &DirectEvent) -> (a: DirectAction)
    ensures
        a@ == direct_transition_spec(stage, compare, index as nat, count as nat, *event),
{
    let delay = index < count && count - index > 1;
    match (stage, event) {
        (DirectStage::GpuHealth, DirectEvent::Health(h)) => match h {
            Some(e) => DirectAction::SkipModel {
                cpu: false,
                error: prefixed("Health check failed: ", e.as_str()),
                restore_gpu: false,
            },
            None => DirectAction::Next(DirectStage::Gpu),
        },
        (DirectStage::Gpu, DirectEvent::Finished { failed }) => if compare && !*failed {
            DirectAction::Next(DirectStage::CpuHealth)
        } else {
            DirectAction::Done { speedup: false, restore_gpu: false, delay }
        },
        (DirectStage::CpuHealth, DirectEvent::Health(h)) => match h {
            Some(e) => DirectAction::SkipModel {
                cpu: true,
                error: prefixed("Health check failed: ", e.as_str()),
                restore_gpu: true,
            },
            None => DirectAction::Next(DirectStage::Cpu),
        },
        (DirectStage::Cpu, DirectEvent::Finished { failed }) => DirectAction::Done {
            speedup: !*failed,
            restore_gpu: true,
            delay,
        },
        _ => DirectAction::Next(stage),
    }
}

/// Every path that switched the server to CPU mode switches it back, and
/// a speedup is reported only after both modes ran.
pub proof fn lemma_cpu_mode_is_restored(stage: DirectStage, compare: bool, index: nat, count: nat, event: DirectEvent)
    ensures
        (stage == DirectStage::CpuHealth || stage == DirectStage::Cpu) ==> match direct_transition_spec(stage, compare, index, count, event) {
            DirectActionView::SkipModel { restore_gpu, .. } => restore_gpu,
            DirectActionView::Done { restore_gpu, .. } => restore_gpu,
            DirectActionView::Next(s) => s == DirectStage::Cpu || s == stage,
        },
        direct_transition_spec(stage, compare, index, count, event) matches DirectActionView::Done { speedup, .. } && speedup
            ==> stage == DirectStage::Cpu,
{
}

/// An attempt is retried only with attempts left, as the next attempt;
/// and the error a prompt gives up with is one that says every attempt
/// failed, so the step's `after_all_retries_exhausted` route applies to it.
pub proof fn lemma_give_up_says_exhausted(
    attempt: u32,
    max_attempts: u32,
    outcome: AttemptOutcome,
    admission: Admission,
)
    ensures
        attempt_action_spec(attempt, max_attempts, outcome, admission) matches AttemptActionView::Retry {
            next_attempt,
            ..
        } ==> next_attempt == attempt + 1 && next_attempt < max_attempts,
        attempt_action_spec(attempt, max_attempts, outcome, admission) matches AttemptActionView::GiveUp {
            error,
        } ==> says_retries_exhausted(error),
{
    match attempt_action_spec(attempt, max_attempts, outcome, admission) {
        AttemptActionView::GiveUp { error } => {
            let rest = match admission {
                Admission::Rejected { code, detail } => reject_code_name(code) + ": "@ + detail@,
                Admission::Admitted => match outcome {
                    AttemptOutcome::Failed(e) => e@,
                    AttemptOutcome::Responded => Seq::empty(),
                },
            };
            assert(error == exhausted_message(max_attempts as nat, rest));
            lemma_exhausted_message_says_so(max_attempts as nat, rest);
        },
        _ => {},
    }
}

proof fn lemma_exhausted_message_says_so(n: nat, last: Seq<char>)
    ensures
        says_retries_exhausted(exhausted_message(n, last)),
{
    reveal_strlit("All ");
    reveal_strlit(" attempts failed:");
    reveal_strlit(" attempts failed: ");
    let m = exhausted_message(n, last);
    let d = decimal(n);
    assert(m.subrange(0, 4) =~= "All "@);
    let i: int = 4 + d.len() as int;
    assert(m.subrange(i, i + 17) =~= " attempts failed:"@);
    assert(occurs_at(m, " attempts failed:"@, i));
}

} // verus!
