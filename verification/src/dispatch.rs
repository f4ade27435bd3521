//! The decisions a benchmark run makes between steps: which model a step
//! names, whether its dependencies have produced output, where a route
//! jumps to, and how command-line and workflow parameters combine.

use vstd::prelude::*;
use crate::settings::strings_view;
use crate::workflow::WorkflowStep;
use crate::text::{
    chars_to_string, ends_with_chars, has_prefix, has_suffix, seq_contains, slice_chars,
    starts_with_chars, str_contains, str_equal, str_to_chars,
};

verus! {

/// The key a generative entity names: `${models.<key>}` gives `<key>`;
/// any other text is its own key.
pub open spec fn model_key(ge: Seq<char>) -> Seq<char> {
    if has_prefix(ge, "${models."@) && has_suffix(ge.skip(9), "}"@) {
        ge.subrange(9, ge.len() - 1)
    } else {
        ge
    }
}

/// The key of a generative entity, as `model_key` says.
pub fn model_key_of(ge: &str) -> (k: String)
    ensures
        k@ == model_key(ge@),
{
    let v = str_to_chars(ge);
    let prefix = str_to_chars("${models.");
    proof {
        reveal_strlit("${models.");
    }
    if starts_with_chars(&v, &prefix) {
        let rest = slice_chars(&v, 9, v.len());
        let close = str_to_chars("}");
        if ends_with_chars(&rest, &close) {
            proof {
                reveal_strlit("}");
            }
            assert(v@.skip(9) =~= rest@);
            let inner = slice_chars(&v, 9, v.len() - 1);
            return chars_to_string(inner.as_slice());
        }
        assert(v@.skip(9) =~= rest@);
    }
    ge.to_string()
}

/// The value recorded under `key` (the first entry of that name).
pub open spec fn value_of(entries: Seq<(String, String)>, key: Seq<char>) -> Option<Seq<char>>
    decreases entries.len(),
{
    if entries.len() == 0 {
        None
    } else if entries[0].0@ == key {
        Some(entries[0].1@)
    } else {
        value_of(entries.drop_first(), key)
    }
}

/// The model a generative entity stands for: the workflow's model of that
/// key where it declares one, else the key itself.
pub open spec fn model_name(ge: Seq<char>, yaml_models: Option<Seq<(String, String)>>) -> Seq<char> {
    match yaml_models {
        Some(ms) => match value_of(ms, model_key(ge)) {
            Some(n) => n,
            None => model_key(ge),
        },
        None => model_key(ge),
    }
}

pub(crate) fn find_value(entries: &Vec<(String, String)>, key: &str) -> (r: Option<String>)
    ensures
        match r {
            Some(v) => value_of(entries@, key@) == Some(v@),
            None => value_of(entries@, key@) is None,
        },
{
    let mut i: usize = 0;
    assert(entries@.skip(0) =~= entries@);
    while i < entries.len()
        invariant
            i <= entries@.len(),
            value_of(entries@, key@) == value_of(entries@.skip(i as int), key@),
        decreases entries.len() - i,
    {
        assert(entries@.skip(i as int).drop_first() =~= entries@.skip(i + 1));
        assert(entries@.skip(i as int)[0] == entries@[i as int]);
        if str_equal(entries[i].0.as_str(), key) {
            return Some(entries[i].1.clone());
        }
        i += 1;
    }
    None
}

/// The model a generative entity stands for, as `model_name` says.
pub fn model_name_for(ge: &str, yaml_models: Option<&Vec<(String, String)>>) -> (n: String)
    ensures
        n@ == model_name(
            ge@,
            match yaml_models {
                Some(ms) => Some(ms@),
                None => None,
            },
        ),
{
    let key = model_key_of(ge);
    match yaml_models {
        Some(ms) => match find_value(ms, key.as_str()) {
            Some(n) => n,
            None => key,
        },
        None => key,
    }
}

/// A step has recorded output.
pub open spec fn has_output(outputs: Seq<(String, String)>, id: Seq<char>) -> bool {
    exists|k: int| 0 <= k < outputs.len() && #[trigger] outputs[k].0@ == id
}

/// The dependencies without recorded output, in the order required.
pub open spec fn missing(deps: Seq<String>, outputs: Seq<(String, String)>) -> Seq<Seq<char>>
    decreases deps.len(),
{
    if deps.len() == 0 {
        Seq::empty()
    } else {
        let rest = missing(deps.drop_last(), outputs);
        if has_output(outputs, deps.last()@) {
            rest
        } else {
            rest.push(deps.last()@)
        }
    }
}

fn output_recorded(outputs: &Vec<(String, String)>, id: &str) -> (b: bool)
    ensures
        b == has_output(outputs@, id@),
{
    let mut i: usize = 0;
    while i < outputs.len()
        invariant
            i <= outputs@.len(),
            forall|k: int| 0 <= k < i ==> #[trigger] outputs@[k].0@ != id@,
        decreases outputs.len() - i,
    {
        if str_equal(outputs[i].0.as_str(), id) {
            return true;
        }
        i += 1;
    }
    false
}

/// The dependencies of a step that have no recorded output yet, as
/// `missing` says.
pub fn missing_dependencies(deps: &Vec<String>, outputs: &Vec<(String, String)>) -> (r: Vec<String>)
    ensures
        strings_view(r@) == missing(deps@, outputs@),
{
    let mut out: Vec<String> = Vec::new();
    let mut i: usize = 0;
    assert(deps@.subrange(0, 0) =~= Seq::<String>::empty());
    while i < deps.len()
        invariant
            i <= deps@.len(),
            strings_view(out@) == missing(deps@.subrange(0, i as int), outputs@),
        decreases deps.len() - i,
    {
        let ghost before = strings_view(out@);
        assert(deps@.subrange(0, i + 1).drop_last() =~= deps@.subrange(0, i as int));
        assert(deps@.subrange(0, i + 1).last() == deps@[i as int]);
        if !output_recorded(outputs, deps[i].as_str()) {
            out.push(deps[i].clone());
            assert(strings_view(out@) =~= before.push(deps@[i as int]@));
        }
        i += 1;
    }
    assert(deps@.subrange(0, deps@.len() as int) =~= deps@);
    out
}

/// The position a step id maps to: the last step with that id (later
/// entries of a step index overwrite earlier ones).
pub open spec fn last_position(ids: Seq<String>, id: Seq<char>) -> int
    decreases ids.len(),
{
    if ids.len() == 0 {
        -1
    } else if ids.last()@ == id {
        ids.len() - 1
    } else {
        last_position(ids.drop_last(), id)
    }
}

/// Where a single-target route jumps: the target's position among the
/// steps, or `None` when the route has not exactly one target or the
/// target is not a step.
pub open spec fn single_route(targets: Seq<String>, step_ids: Seq<String>) -> Option<int> {
    if targets.len() == 1 && last_position(step_ids, targets[0]@) >= 0 {
        Some(last_position(step_ids, targets[0]@))
    } else {
        None
    }
}

/// The position of the last step with id `id`, as `last_position` says.
pub fn step_position(step_ids: &Vec<String>, id: &str) -> (r: Option<usize>)
    ensures
        match r {
            Some(k) => last_position(step_ids@, id@) == k,
            None => last_position(step_ids@, id@) == -1,
        },
{
    let mut i: usize = step_ids.len();
    assert(step_ids@.subrange(0, i as int) =~= step_ids@);
    while i > 0
        invariant
            i <= step_ids@.len(),
            last_position(step_ids@, id@) == last_position(step_ids@.subrange(0, i as int), id@),
        decreases i,
    {
        let ghost pre = step_ids@.subrange(0, i as int);
        assert(pre.drop_last() =~= step_ids@.subrange(0, i - 1));
        assert(pre.last() == step_ids@[i - 1]);
        if str_equal(step_ids[i - 1].as_str(), id) {
            return Some(i - 1);
        }
        i -= 1;
    }
    None
}

/// Where a route with a single target jumps, as `single_route` says.
pub fn route_jump(targets: &Vec<String>, step_ids: &Vec<String>) -> (r: Option<usize>)
    ensures
        match r {
            Some(k) => single_route(targets@, step_ids@) == Some(k as int),
            None => single_route(targets@, step_ids@) is None,
        },
{
    if targets.len() != 1 {
        return None;
    }
    step_position(step_ids, targets[0].as_str())
}

/// The placeholder prompt that marks the command line's prompts as unset.
pub open spec fn default_prompt_marker() -> Seq<char> {
    "The quick brown fox"@
}

/// Some command-line prompt is the placeholder.
pub open spec fn has_default_prompt(prompts: Seq<String>) -> bool {
    exists|k: int| 0 <= k < prompts.len() && seq_contains(#[trigger] prompts[k]@, default_prompt_marker())
}

/// The prompts a run uses: the workflow's, when the command line left the
/// placeholder and the workflow gives any; else the command line's.
pub open spec fn merged_prompts(cli: Seq<String>, workflow: Seq<String>) -> Seq<Seq<char>> {
    if has_default_prompt(cli) && workflow.len() > 0 {
        strings_view(workflow)
    } else {
        strings_view(cli)
    }
}

/// The token budget a run uses: the workflow's, when the command line
/// left its default of 100 and the workflow's differs from 128; else the
/// command line's.
pub open spec fn merged_max_tokens(cli: u64, workflow: u64) -> u64 {
    if cli == 100 && workflow != 128 {
        workflow
    } else {
        cli
    }
}

fn prompts_copy(v: &Vec<String>) -> (r: Vec<String>)
    ensures
        r@ == v@,
{
    let mut r: Vec<String> = Vec::new();
    let mut i: usize = 0;
    while i < v.len()
        invariant
            i <= v@.len(),
            r@ == v@.subrange(0, i as int),
        decreases v.len() - i,
    {
        let t = v[i].clone();
        r.push(t);
        i += 1;
        assert(r@ =~= v@.subrange(0, i as int));
    }
    assert(v@.subrange(0, v@.len() as int) =~= v@);
    r
}

/// The prompts, token budget and comparison mode a run uses.
pub fn merged_run_parameters(
    cli_prompts: &Vec<String>,
    cli_max_tokens: u64,
    cli_compare_gpu_cpu: bool,
    workflow_prompts: &Vec<String>,
    workflow_max_tokens: u64,
    workflow_compare_modes: bool,
) -> (r: (Vec<String>, u64, bool))
    ensures
        strings_view(r.0@) == merged_prompts(cli_prompts@, workflow_prompts@),
        r.1 == merged_max_tokens(cli_max_tokens, workflow_max_tokens),
        r.2 == (cli_compare_gpu_cpu || workflow_compare_modes),
{
    let mut has_default = false;
    let mut i: usize = 0;
    while i < cli_prompts.len()
        invariant
            i <= cli_prompts@.len(),
            has_default == exists|k: int| 0 <= k < i && seq_contains(#[trigger] cli_prompts@[k]@, default_prompt_marker()),
        decreases cli_prompts.len() - i,
    {
        if str_contains(cli_prompts[i].as_str(), "The quick brown fox") {
            has_default = true;
        }
        i += 1;
    }
    let prompts = if has_default && workflow_prompts.len() > 0 {
        prompts_copy(workflow_prompts)
    } else {
        prompts_copy(cli_prompts)
    };
    let max_tokens = if cli_max_tokens == 100 && workflow_max_tokens != 128 {
        workflow_max_tokens
    } else {
        cli_max_tokens
    };
    let compare = if !cli_compare_gpu_cpu && workflow_compare_modes {
        true
    } else {
        cli_compare_gpu_cpu
    };
    (prompts, max_tokens, compare)
}

/// How many models a `diverse_n` selection keeps, when it applies: the
/// workflow asks for `diverse_n` with a positive count below the number
/// of models found.
pub fn diverse_selection_size(strategy: Option<&str>, count: Option<u64>, models_found: usize) -> (r: Option<u64>)
    ensures
        r == (if (strategy matches Some(s) && s@ == "diverse_n"@) && (count matches Some(n) && n > 0
            && models_found > n) {
            count
        } else {
            None::<u64>
        }),
{
    let is_diverse = match strategy {
        Some(s) => str_equal(s, "diverse_n"),
        None => false,
    };
    match count {
        Some(n) => if is_diverse && n > 0 && (models_found as u64) > n {
            Some(n)
        } else {
            None
        },
        None => None,
    }
}

/// What a run does after a step.
#[derive(Debug, Clone, Copy, PartialEq, Eq, Structural)]
pub enum StepTransition {
    /// Continue at this step.
    JumpTo(usize),
    /// Run each route target, then continue after the last one run.
    FanOut,
    /// End the workflow.
    Stop,
    /// Continue at the next step.
    Next(usize),
}

/// The transition after a step ran once: a single route target that is a
/// step is jumped to; a route with any other number of targets fans out;
/// otherwise the workflow stops when the step asked to skip the rest, and
/// goes on with the next step when not.
pub open spec fn transition_after_step(
    current: int,
    route: Option<Seq<String>>,
    skip_remaining: bool,
    step_ids: Seq<String>,
) -> StepTransition {
    match route {
        Some(t) => if t.len() == 1 {
            match single_route(t, step_ids) {
                Some(k) => StepTransition::JumpTo(k as usize),
                None => if skip_remaining {
                    StepTransition::Stop
                } else {
                    StepTransition::Next((current + 1) as usize)
                },
            }
        } else {
            StepTransition::FanOut
        },
        None => if skip_remaining {
            StepTransition::Stop
        } else {
            StepTransition::Next((current + 1) as usize)
        },
    }
}

/// The transition after a step ran once per set of iteration values: the
/// workflow stops when an iteration asked to skip the rest; otherwise a
/// route is followed as after a single run, and without one the next step
/// follows.
pub open spec fn transition_after_iterations(
    current: int,
    routed: Option<Seq<String>>,
    skip_remaining: bool,
    step_ids: Seq<String>,
) -> StepTransition {
    if skip_remaining {
        StepTransition::Stop
    } else {
        transition_after_step(current, routed, false, step_ids)
    }
}

fn route_transition(current: usize, targets: &Vec<String>, skip_remaining: bool, step_ids: &Vec<String>) -> (t: StepTransition)
    requires
        current < usize::MAX,
    ensures
        t == transition_after_step(current as int, Some(targets@), skip_remaining, step_ids@),
{
    if targets.len() == 1 {
        match route_jump(targets, step_ids) {
            Some(k) => StepTransition::JumpTo(k),
            None => if skip_remaining {
                StepTransition::Stop
            } else {
                StepTransition::Next(current + 1)
            },
        }
    } else {
        StepTransition::FanOut
    }
}

/// The transition after a step ran once, as `transition_after_step` says.
pub fn after_step(current: usize, route: Option<&Vec<String>>, skip_remaining: bool, step_ids: &Vec<String>) -> (t: StepTransition)
    requires
        current < usize::MAX,
    ensures
        t == transition_after_step(
            current as int,
            match route {
                Some(r) => Some(r@),
                None => None,
            },
            skip_remaining,
            step_ids@,
        ),
{
    match route {
        Some(targets) => route_transition(current, targets, skip_remaining, step_ids),
        None => if skip_remaining {
            StepTransition::Stop
        } else {
            StepTransition::Next(current + 1)
        },
    }
}

/// The transition after a step's iterations, as
/// `transition_after_iterations` says.
pub fn after_iterations(current: usize, routed: Option<&Vec<String>>, skip_remaining: bool, step_ids: &Vec<String>) -> (t: StepTransition)
    requires
        current < usize::MAX,
    ensures
        t == transition_after_iterations(
            current as int,
            match routed {
                Some(r) => Some(r@),
                None => None,
            },
            skip_remaining,
            step_ids@,
        ),
{
    if skip_remaining {
        StepTransition::Stop
    } else {
        after_step(current, routed, false, step_ids)
    }
}

/// Where a run continues after a fan-out: after the last target that ran,
/// or after the current step when none ran.
pub fn after_fan_out(current: usize, last_target: Option<usize>) -> (next: usize)
    requires
        current < usize::MAX,
        last_target matches Some(k) ==> k < usize::MAX,
    ensures
        next == match last_target {
            Some(k) => k + 1,
            None => current + 1,
        },
{
    match last_target {
        Some(k) => k + 1,
        None => current + 1,
    }
}

/// A jump always lands on a step of the workflow, and a run that neither
/// jumps nor fans out nor stops moves on by exactly one step.
pub proof fn lemma_transitions_stay_in_workflow(
    current: int,
    route: Option<Seq<String>>,
    skip_remaining: bool,
    step_ids: Seq<String>,
)
    requires
        0 <= current < usize::MAX,
        step_ids.len() <= usize::MAX,
    ensures
        transition_after_step(current, route, skip_remaining, step_ids) matches StepTransition::JumpTo(k) ==> k < step_ids.len()
            && step_ids[k as int]@ == route->0[0]@,
        transition_after_step(current, route, skip_remaining, step_ids) matches StepTransition::Next(k) ==> k == current + 1,
        transition_after_iterations(current, route, true, step_ids) == StepTransition::Stop,
{
    match route {
        Some(t) => if t.len() == 1 {
            lemma_last_position_bounds(step_ids, t[0]@);
        },
        None => {},
    }
}

proof fn lemma_last_position_bounds(ids: Seq<String>, id: Seq<char>)
    ensures
        -1 <= last_position(ids, id) < ids.len(),
        last_position(ids, id) >= 0 ==> ids[last_position(ids, id)]@ == id,
    decreases ids.len(),
{
    if ids.len() > 0 && ids.last()@ != id {
        lemma_last_position_bounds(ids.drop_last(), id);
    }
}

/// The ids of the steps, in order.
pub open spec fn ids_of(steps: Seq<WorkflowStep>) -> Seq<String> {
    steps.map_values(|s: WorkflowStep| s.step_id)
}

/// The positions of the route targets that are steps with a generative
/// entity, in target order.
pub open spec fn runnable_targets(targets: Seq<String>, steps: Seq<WorkflowStep>) -> Seq<int>
    decreases targets.len(),
{
    if targets.len() == 0 {
        Seq::empty()
    } else {
        let rest = runnable_targets(targets.drop_last(), steps);
        let k = last_position(ids_of(steps), targets.last()@);
        if k >= 0 && steps[k].generative_entity is Some {
            rest.push(k)
        } else {
            rest
        }
    }
}

/// The model the step at `k` runs on.
pub open spec fn target_model(steps: Seq<WorkflowStep>, k: int, yaml_models: Option<Seq<(String, String)>>) -> Seq<char> {
    model_name(steps[k].generative_entity->0@, yaml_models)
}

/// A route runs its targets in parallel when the resource contract allows
/// it, there is more than one target, and more than one of them is a
/// runnable step, all on the same model: the plan is that model and the
/// targets' positions.
pub open spec fn parallel_plan(
    targets: Seq<String>,
    steps: Seq<WorkflowStep>,
    yaml_models: Option<Seq<(String, String)>>,
    allows_parallel: bool,
) -> Option<(Seq<char>, Seq<int>)> {
    let ks = runnable_targets(targets, steps);
    if !allows_parallel || targets.len() <= 1 || ks.len() <= 1 {
        None
    } else if forall|i: int| 0 <= i < ks.len() ==> #[trigger] target_model(steps, ks[i], yaml_models) == target_model(steps, ks[0], yaml_models) {
        Some((target_model(steps, ks[0], yaml_models), ks))
    } else {
        None
    }
}

fn step_ids(steps: &Vec<WorkflowStep>) -> (ids: Vec<String>)
    ensures
        ids@ == ids_of(steps@),
{
    let mut ids: Vec<String> = Vec::new();
    let mut i: usize = 0;
    while i < steps.len()
        invariant
            i <= steps@.len(),
            ids@ == ids_of(steps@).subrange(0, i as int),
        decreases steps.len() - i,
    {
        let id = steps[i].step_id.clone();
        ids.push(id);
        i += 1;
        assert(ids@ =~= ids_of(steps@).subrange(0, i as int));
    }
    assert(ids_of(steps@).subrange(0, steps@.len() as int) =~= ids_of(steps@));
    ids
}

/// The parallel plan of a route, as `parallel_plan` says: the model and
/// the positions of the steps to run.
pub fn parallel_route_plan(
    targets: &Vec<String>,
    steps: &Vec<WorkflowStep>,
    yaml_models: Option<&Vec<(String, String)>>,
    allows_parallel: bool,
) -> (r: Option<(String, Vec<usize>)>)
    ensures
        match parallel_plan(
            targets@,
            steps@,
            match yaml_models {
                Some(m) => Some(m@),
                None => None,
            },
            allows_parallel,
        ) {
            Some((model, ks)) => r matches Some(p) && p.0@ == model && p.1@.len() == ks.len() && forall|i: int|
                0 <= i < ks.len() ==> #[trigger] p.1@[i] as int == ks[i],
            None => r is None,
        },
{
    let ghost ym = match yaml_models {
        Some(m) => Some(m@),
        None => None,
    };
    if !allows_parallel || targets.len() <= 1 {
        return None;
    }
    let ids = step_ids(steps);
    let mut ks: Vec<usize> = Vec::new();
    let mut models: Vec<String> = Vec::new();
    let mut i: usize = 0;
    assert(targets@.subrange(0, 0) =~= Seq::<String>::empty());
    while i < targets.len()
        invariant
            i <= targets@.len(),
            ids@ == ids_of(steps@),
            ym == match yaml_models {
                Some(m) => Some(m@),
                None => None::<Seq<(String, String)>>,
            },
            ks@.len() == runnable_targets(targets@.subrange(0, i as int), steps@).len(),
            models@.len() == ks@.len(),
            forall|q: int| 0 <= q < ks@.len() ==> #[trigger] ks@[q] as int == runnable_targets(
                targets@.subrange(0, i as int),
                steps@,
            )[q] && ks@[q] < steps@.len() && steps@[ks@[q] as int].generative_entity is Some
                && models@[q]@ == target_model(steps@, ks@[q] as int, ym),
        decreases targets.len() - i,
    {
        let ghost pre = targets@.subrange(0, i + 1);
        assert(pre.drop_last() =~= targets@.subrange(0, i as int));
        assert(pre.last() == targets@[i as int]);
        proof {
            lemma_position_bounds(ids@, targets@[i as int]@);
        }
        match step_position(&ids, targets[i].as_str()) {
            Some(k) => {
                match &steps[k].generative_entity {
                    Some(ge) => {
                        let m = model_name_for(ge.as_str(), yaml_models);
                        ks.push(k);
                        models.push(m);
                    },
                    None => {},
                }
            },
            None => {},
        }
        i += 1;
    }
    assert(targets@.subrange(0, targets@.len() as int) =~= targets@);
    let ghost rk = runnable_targets(targets@, steps@);
    if ks.len() <= 1 {
        return None;
    }
    let mut same = true;
    let mut j: usize = 0;
    while j < models.len()
        invariant
            j <= models@.len(),
            models@.len() == ks@.len(),
            ks@.len() == rk.len(),
            rk.len() > 1,
            forall|q: int| 0 <= q < ks@.len() ==> #[trigger] ks@[q] as int == rk[q]
                && models@[q]@ == target_model(steps@, ks@[q] as int, ym),
            same == forall|q: int| 0 <= q < j ==> #[trigger] target_model(steps@, rk[q], ym) == target_model(steps@, rk[0], ym),
        decreases models.len() - j,
    {
        let eq = crate::text::str_equal(models[j].as_str(), models[0].as_str());
        assert(ks@[j as int] as int == rk[j as int]);
        assert(ks@[0] as int == rk[0]);
        assert(eq == (target_model(steps@, rk[j as int], ym) == target_model(steps@, rk[0], ym)));
        same = same && eq;
        j += 1;
    }
    if !same {
        return None;
    }
    assert(ks@[0] as int == rk[0]);
    let m = models[0].clone();
    Some((m, ks))
}

proof fn lemma_position_bounds(ids: Seq<String>, id: Seq<char>)
    ensures
        -1 <= last_position(ids, id) < ids.len(),
    decreases ids.len(),
{
    if ids.len() > 0 && ids.last()@ != id {
        lemma_position_bounds(ids.drop_last(), id);
    }
}

} // verus!
