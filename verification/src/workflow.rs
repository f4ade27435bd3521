//! Workflow steps as read from a workflow file, and the small rules the
//! workflow loop applies to them.

use vstd::prelude::*;
use crate::decimal::{decimal, u64_to_chars};
use crate::json::{as_u64, get, member, u64_of, JsonValue};
use crate::text::{
    chars_to_string, contains_chars, has_prefix, push_all, push_str, seq_contains,
    starts_with_chars, str_to_chars, trim, trim_chars,
};

verus! {

/// One step of an agentic workflow.
#[derive(Debug)]
pub struct WorkflowStep {
    pub step_name: String,
    pub step_id: String,
    /// Names of the steps this one depends on (`depends_on` and `requires`
    /// merged, first occurrence kept).
    pub requires: Vec<String>,
    /// Conditions attached to `requires` entries, keyed by dependency name.
    pub require_conditions: Vec<(String, String)>,
    /// Per-step `retry.max_attempts`.
    pub retry_max_attempts: Option<u32>,
    /// The step's hooks, merged with the workflow's default hooks.
    pub when: Option<JsonValue>,
    pub prompt: Option<String>,
    pub generative_entity: Option<String>,
    pub model_overrides: Option<JsonValue>,
    pub loop_config: Option<JsonValue>,
}

impl WorkflowStep {
    /// A step with the given name and id and nothing else.
    pub fn named(step_name: String, step_id: String) -> (s: WorkflowStep)
        ensures
            s.step_name == step_name,
            s.step_id == step_id,
            s.requires@.len() == 0,
            s.require_conditions@.len() == 0,
            s.retry_max_attempts is None,
            s.when is None,
            s.prompt is None,
            s.generative_entity is None,
            s.model_overrides is None,
            s.loop_config is None,
    {
        WorkflowStep {
            step_name,
            step_id,
            requires: Vec::new(),
            require_conditions: Vec::new(),
            retry_max_attempts: None,
            when: None,
            prompt: None,
            generative_entity: None,
            model_overrides: None,
            loop_config: None,
        }
    }
}

/// Attempts a step gets: its own `retry.max_attempts` where set, else the
/// global limit; never fewer than one.
pub fn effective_max_attempts(global: u32, step_override: Option<u32>) -> (n: u32)
    ensures
        n == (match step_override {
            Some(s) => if s >= 1 {
                s
            } else {
                1
            },
            None => if global >= 1 {
                global
            } else {
                1
            },
        }),
{
    let n = match step_override {
        Some(s) => s,
        None => global,
    };
    if n >= 1 {
        n
    } else {
        1
    }
}

/// A step's `loop.count.max_iterations`, where it is an unsigned integer.
pub open spec fn loop_cap_of(s: WorkflowStep) -> Option<u64> {
    match s.loop_config {
        Some(l) => match member(l, "count"@) {
            Some(c) => match member(c, "max_iterations"@) {
                Some(m) => u64_of(m),
                None => None,
            },
            None => None,
        },
        None => None,
    }
}

/// The largest loop cap any step declares.
pub open spec fn loop_override(steps: Seq<WorkflowStep>) -> Option<u64>
    decreases steps.len(),
{
    if steps.len() == 0 {
        None
    } else {
        let rest = loop_override(steps.drop_last());
        match (rest, loop_cap_of(steps.last())) {
            (Some(a), Some(b)) => Some(
                if a >= b {
                    a
                } else {
                    b
                },
            ),
            (Some(a), None) => Some(a),
            (None, b) => b,
        }
    }
}

/// Iterations the workflow loop may run: the largest declared loop cap
/// (100 when none is), at least 100, and at least four per step.
pub open spec fn iteration_cap(steps: Seq<WorkflowStep>) -> int {
    let o: int = match loop_override(steps) {
        Some(v) => v as int,
        None => 100,
    };
    let floor: int = if o >= 100 {
        o
    } else {
        100
    };
    let per_step: int = 4 * (steps.len() as int);
    if floor >= per_step {
        floor
    } else {
        per_step
    }
}

fn loop_cap(s: &WorkflowStep) -> (r: Option<u64>)
    ensures
        r == loop_cap_of(*s),
{
    match &s.loop_config {
        Some(l) => match get(l, "count") {
            Some(c) => match get(c, "max_iterations") {
                Some(m) => as_u64(m),
                None => None,
            },
            None => None,
        },
        None => None,
    }
}

/// The iteration cap of the workflow loop, as `iteration_cap` says.
pub fn max_workflow_iterations(steps: &Vec<WorkflowStep>) -> (n: usize)
    ensures
        n == iteration_cap(steps@) as usize,
{
    let mut best: Option<u64> = None;
    let mut i: usize = 0;
    while i < steps.len()
        invariant
            i <= steps@.len(),
            best == loop_override(steps@.subrange(0, i as int)),
        decreases steps.len() - i,
    {
        assert(steps@.subrange(0, i + 1).drop_last() =~= steps@.subrange(0, i as int));
        let c = loop_cap(&steps[i]);
        best = match (best, c) {
            (Some(a), Some(b)) => Some(
                if a >= b {
                    a
                } else {
                    b
                },
            ),
            (Some(a), None) => Some(a),
            (None, b) => b,
        };
        i += 1;
    }
    assert(steps@.subrange(0, steps@.len() as int) =~= steps@);
    let o: u128 = match best {
        Some(v) => v as u128,
        None => 100,
    };
    let floor: u128 = if o >= 100 {
        o
    } else {
        100
    };
    let per_step: u128 = 4 * (steps.len() as u128);
    let cap: u128 = if floor >= per_step {
        floor
    } else {
        per_step
    };
    cap as usize
}

/// The error for a workflow loop stopped by its iteration cap with steps
/// left.
pub open spec fn cap_message(cap: nat, left: nat) -> Seq<char> {
    "workflow loop exceeded "@ + decimal(cap) + " iterations with "@ + decimal(left)
        + " step(s) unexecuted — stopping and failing instead of exiting 0 (silent-exit-0 fix)"@
}

/// An error when the loop hit its cap while steps remained unexecuted;
/// `None` when the workflow completed (also when it did so exactly at the
/// cap).
pub fn premature_cap_error(loop_count: usize, max_loop_iterations: usize, current_index: usize, steps_len: usize) -> (r: Option<String>)
    ensures
        loop_count >= max_loop_iterations && current_index < steps_len ==> (r matches Some(m) && m@
            == cap_message(max_loop_iterations as nat, (steps_len - current_index) as nat)),
        !(loop_count >= max_loop_iterations && current_index < steps_len) ==> r is None,
{
    if loop_count >= max_loop_iterations && current_index < steps_len {
        let mut out: Vec<char> = Vec::new();
        push_str(&mut out, "workflow loop exceeded ");
        push_all(&mut out, &u64_to_chars(max_loop_iterations as u64));
        push_str(&mut out, " iterations with ");
        push_all(&mut out, &u64_to_chars((steps_len - current_index) as u64));
        push_str(&mut out, " step(s) unexecuted — stopping and failing instead of exiting 0 (silent-exit-0 fix)");
        Some(chars_to_string(&out))
    } else {
        None
    }
}

/// The error for a dependency graph whose sort dropped steps.
pub open spec fn cycle_message(dropped: nat, total: nat) -> Seq<char> {
    "cycle detected in depends_on graph: "@ + decimal(dropped) + " of "@ + decimal(total)
        + " steps dropped by topological sort — refusing to run a workflow that silently skips steps"@
}

/// An error when sorting the steps kept fewer than there were.
pub fn cycle_error(sorted_len: usize, original_len: usize) -> (r: Option<String>)
    ensures
        sorted_len < original_len ==> (r matches Some(m) && m@ == cycle_message(
            (original_len - sorted_len) as nat,
            original_len as nat,
        )),
        sorted_len >= original_len ==> r is None,
{
    if sorted_len < original_len {
        let mut out: Vec<char> = Vec::new();
        push_str(&mut out, "cycle detected in depends_on graph: ");
        push_all(&mut out, &u64_to_chars((original_len - sorted_len) as u64));
        push_str(&mut out, " of ");
        push_all(&mut out, &u64_to_chars(original_len as u64));
        push_str(
            &mut out,
            " steps dropped by topological sort — refusing to run a workflow that silently skips steps",
        );
        Some(chars_to_string(&out))
    } else {
        None
    }
}

/// A step that is not control flow has no prompt with text in it.
#[derive(Debug)]
pub struct MissingPromptError {
    pub step_id: String,
}

impl MissingPromptError {
    /// The error's text.
    pub fn message(&self) -> (m: String)
        ensures
            m@ == "workflow step `"@ + self.step_id@
                + "` requires non-empty `prompt` field when generative_entity is not `control_flow`"@,
    {
        let mut out: Vec<char> = Vec::new();
        push_str(&mut out, "workflow step `");
        push_str(&mut out, self.step_id.as_str());
        push_str(
            &mut out,
            "` requires non-empty `prompt` field when generative_entity is not `control_flow`",
        );
        chars_to_string(&out)
    }
}

/// The prompt a step runs with: empty for control flow steps; otherwise
/// its prompt, which must hold more than white space.
pub fn require_step_prompt(step: &WorkflowStep) -> (r: Result<String, MissingPromptError>)
    ensures
        (step.generative_entity matches Some(g) && g@ == "control_flow"@) ==> (r matches Ok(p) && p@.len() == 0),
        !(step.generative_entity matches Some(g) && g@ == "control_flow"@) ==> match step.prompt {
            Some(p) => if trim(p@).len() > 0 {
                r matches Ok(q) && q@ == p@
            } else {
                r matches Err(e) && e.step_id@ == step.step_id@
            },
            None => r matches Err(e) && e.step_id@ == step.step_id@,
        },
{
    let is_control_flow = match &step.generative_entity {
        Some(g) => crate::text::str_equal(g.as_str(), "control_flow"),
        None => false,
    };
    if is_control_flow {
        return Ok(String::new());
    }
    match &step.prompt {
        Some(p) => {
            let t = trim_chars(&str_to_chars(p.as_str()));
            if t.len() > 0 {
                Ok(p.clone())
            } else {
                Err(MissingPromptError { step_id: step.step_id.clone() })
            }
        },
        None => Err(MissingPromptError { step_id: step.step_id.clone() }),
    }
}

/// An error message that says every attempt failed (`All <n> attempts
/// failed: ...`).
pub fn is_retry_exhausted_error(error: &str) -> (b: bool)
    ensures
        b == (has_prefix(error@, "All "@) && seq_contains(error@, " attempts failed:"@)),
{
    let e = str_to_chars(error);
    let prefix = str_to_chars("All ");
    let marker = str_to_chars(" attempts failed:");
    starts_with_chars(&e, &prefix) && contains_chars(&e, &marker)
}

/// The token budget of a step: its `model_overrides.max_tokens` where that
/// is an unsigned integer, else the run's.
pub open spec fn step_token_budget(step: WorkflowStep, run_max_tokens: u64) -> u64 {
    match step.model_overrides {
        Some(mo) => match member(mo, "max_tokens"@) {
            Some(v) => match u64_of(v) {
                Some(n) => n,
                None => run_max_tokens,
            },
            None => run_max_tokens,
        },
        None => run_max_tokens,
    }
}

/// The token budget of a step, as `step_token_budget` says.
pub fn step_max_tokens(step: &WorkflowStep, run_max_tokens: u64) -> (n: u64)
    ensures
        n == step_token_budget(*step, run_max_tokens),
{
    match &step.model_overrides {
        Some(mo) => match get(mo, "max_tokens") {
            Some(v) => match as_u64(v) {
                Some(n) => n,
                None => run_max_tokens,
            },
            None => run_max_tokens,
        },
        None => run_max_tokens,
    }
}

/// A prompt as hooks see it: its first 100 characters and `...` when it
/// is longer.
pub open spec fn prompt_preview_of(prompt: Seq<char>) -> Seq<char> {
    if prompt.len() > 100 {
        prompt.subrange(0, 100) + "..."@
    } else {
        prompt
    }
}

/// A prompt as hooks see it, as `prompt_preview_of` says.
pub fn prompt_preview(prompt: &str) -> (p: String)
    ensures
        p@ == prompt_preview_of(prompt@),
{
    let v = str_to_chars(prompt);
    if v.len() > 100 {
        let mut out = crate::text::slice_chars(&v, 0, 100);
        push_str(&mut out, "...");
        chars_to_string(out.as_slice())
    } else {
        prompt.to_string()
    }
}

} // verus!
