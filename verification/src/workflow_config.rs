//! The run settings a benchmark workflow file carries: prompts and token
//! budget from its first step, the models it names, and the execution
//! strategy (retries, refusal phrases, timing, streaming) and workspace
//! settings that override the command line.

use vstd::prelude::*;
use crate::json::{
    as_array, as_bool, as_object, as_str, as_u64, at, bool_of, deref_opt, get, get_in, member,
    str_of, u64_of, JsonValue,
};
use crate::settings::{opt_string_view, strings_view};
use crate::text::has_prefix;
use crate::workflow_file::steps_section;

verus! {

broadcast use vstd::std_specs::vec::group_vec_axioms;

/// A string where the value is one.
pub open spec fn str_opt(o: Option<JsonValue>) -> Option<Seq<char>> {
    match o {
        Some(v) => str_of(v),
        None => None,
    }
}

/// An unsigned integer where the value is one.
pub open spec fn u64_opt(o: Option<JsonValue>) -> Option<u64> {
    match o {
        Some(v) => u64_of(v),
        None => None,
    }
}

/// A boolean where the value is one.
pub open spec fn bool_opt(o: Option<JsonValue>) -> Option<bool> {
    match o {
        Some(v) => bool_of(v),
        None => None,
    }
}

/// The members of a value that is an object; none otherwise.
pub open spec fn object_members(o: Option<JsonValue>) -> Seq<(String, JsonValue)> {
    match o {
        Some(JsonValue::Object(ms)) => ms@,
        _ => Seq::empty(),
    }
}

/// The elements of a value that is an array; none otherwise.
pub open spec fn array_items(o: Option<JsonValue>) -> Seq<JsonValue> {
    match o {
        Some(JsonValue::Array(items)) => items@,
        _ => Seq::empty(),
    }
}

/// The first entry of a workflow's steps: a map's first value, or a
/// list's first element.
pub open spec fn first_step(aw: JsonValue) -> Option<JsonValue> {
    match steps_section(aw) {
        JsonValue::Object(ms) => if ms@.len() > 0 {
            Some(ms@[0].1)
        } else {
            None
        },
        JsonValue::Array(items) => if items@.len() > 0 {
            Some(items@[0])
        } else {
            None
        },
        _ => None,
    }
}

/// `sampling.<key>` of the first model that gives it as an unsigned
/// integer.
pub open spec fn first_sampling_u64(models: Seq<(String, JsonValue)>, key: Seq<char>) -> Option<u64>
    decreases models.len(),
{
    if models.len() == 0 {
        None
    } else {
        match u64_opt(at(member(models[0].1, "sampling"@), key)) {
            Some(v) => Some(v),
            None => first_sampling_u64(models.drop_first(), key),
        }
    }
}

/// The step's own `model_overrides.max_tokens`, where it is at least 100
/// (smaller values belong to bootstrap steps and are not a default).
pub open spec fn step_max_tokens(step: JsonValue) -> Option<u64> {
    match u64_opt(at(member(step, "model_overrides"@), "max_tokens"@)) {
        Some(v) => if v >= 100 {
            Some(v)
        } else {
            None
        },
        None => None,
    }
}

/// The token budget: the step's, else the first model's sampling
/// setting, else 4096.
pub open spec fn configured_max_tokens(doc: JsonValue, step: JsonValue) -> u64 {
    match step_max_tokens(step) {
        Some(v) => v,
        None => match first_sampling_u64(object_members(member(doc, "models"@)), "max_tokens"@) {
            Some(v) => v,
            None => 4096,
        },
    }
}

/// `hosting.gpu_layers` of the first provider, else 999.
pub open spec fn configured_gpu_layers(doc: JsonValue) -> u64 {
    let ps = object_members(member(doc, "providers"@));
    if ps.len() > 0 {
        match u64_opt(at(member(ps[0].1, "hosting"@), "gpu_layers"@)) {
            Some(v) => v,
            None => 999,
        }
    } else {
        999
    }
}

/// The non-empty `name`s of the models, in map order.
pub open spec fn model_names(ms: Seq<(String, JsonValue)>) -> Seq<Seq<char>>
    decreases ms.len(),
{
    if ms.len() == 0 {
        Seq::empty()
    } else {
        let rest = model_names(ms.drop_last());
        match str_opt(member(ms.last().1, "name"@)) {
            Some(n) => if n.len() > 0 {
                rest.push(n)
            } else {
                rest
            },
            None => rest,
        }
    }
}

/// The elements that are strings, in order.
pub open spec fn string_items(items: Seq<JsonValue>) -> Seq<Seq<char>>
    decreases items.len(),
{
    if items.len() == 0 {
        Seq::empty()
    } else {
        let rest = string_items(items.drop_last());
        match str_of(items.last()) {
            Some(t) => rest.push(t),
            None => rest,
        }
    }
}

/// `workflow_execution_strategy.<a>.<b>` of a document.
pub open spec fn strategy_at(doc: JsonValue, a: Seq<char>, b: Seq<char>) -> Option<JsonValue> {
    at(at(member(doc, "workflow_execution_strategy"@), a), b)
}

/// `workspace.<a>` of a document.
pub open spec fn workspace_at(doc: JsonValue, a: Seq<char>) -> Option<JsonValue> {
    at(member(doc, "workspace"@), a)
}

/// Attempts per step: `error_handling.retry.max_attempts_per_step`
/// (narrowed to 32 bits as an `as` cast does), else 3.
pub open spec fn configured_attempts(doc: JsonValue) -> u32 {
    match u64_opt(at(strategy_at(doc, "error_handling"@, "retry"@), "max_attempts_per_step"@)) {
        Some(n) => n as u32,
        None => 3,
    }
}

/// The settings a workflow file carries.
#[derive(Debug)]
pub struct WorkflowRunConfig {
    pub prompts: Vec<String>,
    pub max_tokens: u64,
    pub gpu_layers: u64,
    pub model_list: Vec<String>,
    pub inference_max_attempts: u32,
    pub output_root: Option<String>,
    pub refusal_patterns: Vec<String>,
    pub cooldown_after_unload_secs: Option<u64>,
    pub model_load_timeout_secs: Option<u64>,
    pub min_tmp_space_mb: Option<u64>,
    pub streaming_enabled: Option<bool>,
    pub model_selection_strategy: Option<String>,
    pub diverse_n_count: Option<u64>,
    pub model_filter: Option<String>,
    pub detail_template: Option<String>,
}

/// `c` holds what the document `doc`, whose first step is `step` with the
/// prompt `prompt`, says.
pub open spec fn run_config_of(c: WorkflowRunConfig, doc: JsonValue, step: JsonValue, prompt: Seq<char>) -> bool {
    &&& strings_view(c.prompts@) == seq![prompt]
    &&& c.max_tokens == configured_max_tokens(doc, step)
    &&& c.gpu_layers == configured_gpu_layers(doc)
    &&& strings_view(c.model_list@) == model_names(object_members(member(doc, "models"@)))
    &&& c.inference_max_attempts == configured_attempts(doc)
    &&& opt_string_view(c.output_root) == str_opt(at(workspace_at(doc, "directories"@), "output"@))
    &&& strings_view(c.refusal_patterns@) == string_items(
        array_items(strategy_at(doc, "quality"@, "refusal_patterns"@)),
    )
    &&& c.cooldown_after_unload_secs == u64_opt(strategy_at(doc, "timing"@, "cooldown_after_unload_secs"@))
    &&& c.model_load_timeout_secs == u64_opt(strategy_at(doc, "timing"@, "model_load_timeout_secs"@))
    &&& c.min_tmp_space_mb == u64_opt(strategy_at(doc, "timing"@, "min_tmp_space_mb"@))
    &&& c.streaming_enabled == bool_opt(strategy_at(doc, "streaming"@, "enabled"@))
    &&& opt_string_view(c.model_selection_strategy) == str_opt(
        at(workspace_at(doc, "model_selection"@), "strategy"@),
    )
    &&& c.diverse_n_count == u64_opt(at(workspace_at(doc, "model_selection"@), "diverse_n_count"@))
    &&& opt_string_view(c.model_filter) == str_opt(
        at(workspace_at(doc, "model_selection"@), "model_filter"@),
    )
    &&& opt_string_view(c.detail_template) == str_opt(workspace_at(doc, "detail_template"@))
}

/// A workflow file without an `agentic_workflow` section.
#[derive(Debug, Clone, Copy, PartialEq, Eq, Structural)]
pub struct NoAgenticWorkflow;

fn opt_str_owned(o: Option<&JsonValue>) -> (r: Option<String>)
    ensures
        opt_string_view(r) == str_opt(deref_opt(o)),
{
    match o {
        Some(v) => match as_str(v) {
            Some(s) => Some(s.clone()),
            None => None,
        },
        None => None,
    }
}

fn opt_u64(o: Option<&JsonValue>) -> (r: Option<u64>)
    ensures
        r == u64_opt(deref_opt(o)),
{
    match o {
        Some(v) => as_u64(v),
        None => None,
    }
}

fn opt_bool(o: Option<&JsonValue>) -> (r: Option<bool>)
    ensures
        r == bool_opt(deref_opt(o)),
{
    match o {
        Some(v) => as_bool(v),
        None => None,
    }
}

fn members_of(o: Option<&JsonValue>) -> (r: Option<&Vec<(String, JsonValue)>>)
    ensures
        match r {
            Some(ms) => object_members(deref_opt(o)) == ms@,
            None => object_members(deref_opt(o)) == Seq::<(String, JsonValue)>::empty(),
        },
{
    match o {
        Some(v) => as_object(v),
        None => None,
    }
}

fn sampling_u64(models: &Vec<(String, JsonValue)>, key: &str) -> (r: Option<u64>)
    ensures
        r == first_sampling_u64(models@, key@),
{
    let mut i: usize = 0;
    assert(models@.skip(0) =~= models@);
    while i < models.len()
        invariant
            i <= models@.len(),
            first_sampling_u64(models@, key@) == first_sampling_u64(models@.skip(i as int), key@),
        decreases models.len() - i,
    {
        assert(models@.skip(i as int).drop_first() =~= models@.skip(i + 1));
        assert(models@.skip(i as int)[0] == models@[i as int]);
        let found = opt_u64(get_in(get(&models[i].1, "sampling"), key));
        if found.is_some() {
            return found;
        }
        i += 1;
    }
    None
}

fn names_of_models(ms: &Vec<(String, JsonValue)>) -> (r: Vec<String>)
    ensures
        strings_view(r@) == model_names(ms@),
{
    let mut out: Vec<String> = Vec::new();
    let mut i: usize = 0;
    assert(ms@.subrange(0, 0) =~= Seq::<(String, JsonValue)>::empty());
    while i < ms.len()
        invariant
            i <= ms@.len(),
            strings_view(out@) == model_names(ms@.subrange(0, i as int)),
        decreases ms.len() - i,
    {
        let ghost before = strings_view(out@);
        assert(ms@.subrange(0, i + 1).drop_last() =~= ms@.subrange(0, i as int));
        assert(ms@.subrange(0, i + 1).last() == ms@[i as int]);
        if let Some(n) = opt_str_owned(get(&ms[i].1, "name")) {
            if crate::text::str_to_chars(n.as_str()).len() > 0 {
                out.push(n);
                assert(strings_view(out@) =~= before.push(n@));
            }
        }
        i += 1;
    }
    assert(ms@.subrange(0, ms@.len() as int) =~= ms@);
    out
}

fn strings_in(o: Option<&JsonValue>) -> (r: Vec<String>)
    ensures
        strings_view(r@) == string_items(array_items(deref_opt(o))),
{
    let mut out: Vec<String> = Vec::new();
    let items = match o {
        Some(v) => match as_array(v) {
            Some(items) => items,
            None => {
                return out;
            },
        },
        None => {
            return out;
        },
    };
    let mut i: usize = 0;
    assert(items@.subrange(0, 0) =~= Seq::<JsonValue>::empty());
    while i < items.len()
        invariant
            i <= items@.len(),
            strings_view(out@) == string_items(items@.subrange(0, i as int)),
        decreases items.len() - i,
    {
        let ghost before = strings_view(out@);
        assert(items@.subrange(0, i + 1).drop_last() =~= items@.subrange(0, i as int));
        assert(items@.subrange(0, i + 1).last() == items@[i as int]);
        if let Some(t) = as_str(&items[i]) {
            out.push(t.clone());
            assert(strings_view(out@) =~= before.push(t@));
        }
        i += 1;
    }
    assert(items@.subrange(0, items@.len() as int) =~= items@);
    out
}

fn first_step_of(aw: &JsonValue) -> (r: Option<&JsonValue>)
    ensures
        deref_opt(r) == first_step(*aw),
{
    let section = match get(aw, "steps") {
        Some(s) => s,
        None => aw,
    };
    match section {
        JsonValue::Object(ms) => if ms.len() > 0 {
            Some(&ms[0].1)
        } else {
            None
        },
        JsonValue::Array(items) => if items.len() > 0 {
            Some(&items[0])
        } else {
            None
        },
        _ => None,
    }
}

/// `r` is what the run settings of the document `doc` read as: an error
/// without an `agentic_workflow` section; nothing when its first step, or
/// that step's prompt, is missing; otherwise the settings the document
/// and its first step give.
pub open spec fn config_outcome(doc: JsonValue, r: Result<Option<WorkflowRunConfig>, NoAgenticWorkflow>) -> bool {
    match member(doc, "agentic_workflow"@) {
        None => r is Err,
        Some(aw) => match first_step(aw) {
            None => r matches Ok(None),
            Some(step) => match str_of_member(step) {
                None => r matches Ok(None),
                Some(prompt) => r matches Ok(Some(c)) && run_config_of(c, doc, step, prompt),
            },
        },
    }
}

/// The settings a parsed workflow file carries: an error without an
/// `agentic_workflow` section; `None` when it has no first step or that
/// step has no string `prompt`.
pub fn workflow_config_from(doc: &JsonValue) -> (r: Result<Option<WorkflowRunConfig>, NoAgenticWorkflow>)
    ensures
        config_outcome(*doc, r),
{
    let aw = match get(doc, "agentic_workflow") {
        Some(aw) => aw,
        None => {
            return Err(NoAgenticWorkflow);
        },
    };
    let step = match first_step_of(aw) {
        Some(s) => s,
        None => {
            return Ok(None);
        },
    };
    let prompt = match opt_str_owned(get(step, "prompt")) {
        Some(p) => p,
        None => {
            return Ok(None);
        },
    };
    let mut prompts: Vec<String> = Vec::new();
    prompts.push(prompt);
    assert(strings_view(prompts@) =~= seq![prompts@[0]@]);

    let models = get(doc, "models");
    let model_members = members_of(models);
    let max_tokens = match opt_u64(get_in(get(step, "model_overrides"), "max_tokens")) {
        Some(v) if v >= 100 => v,
        _ => match model_members {
            Some(ms) => match sampling_u64(ms, "max_tokens") {
                Some(v) => v,
                None => 4096,
            },
            None => 4096,
        },
    };
    let gpu_layers = match members_of(get(doc, "providers")) {
        Some(ps) => if ps.len() > 0 {
            match opt_u64(get_in(get(&ps[0].1, "hosting"), "gpu_layers")) {
                Some(v) => v,
                None => 999,
            }
        } else {
            999
        },
        None => 999,
    };
    let model_list = match model_members {
        Some(ms) => names_of_models(ms),
        None => Vec::new(),
    };
    let strategy = get(doc, "workflow_execution_strategy");
    let inference_max_attempts: u32 = match opt_u64(
        get_in(get_in(get_in(strategy, "error_handling"), "retry"), "max_attempts_per_step"),
    ) {
        Some(n) => #[verifier::truncate] (n as u32),
        None => 3,
    };
    let workspace = get(doc, "workspace");
    let output_root = opt_str_owned(get_in(get_in(workspace, "directories"), "output"));
    let refusal_patterns = strings_in(get_in(get_in(strategy, "quality"), "refusal_patterns"));
    let timing = get_in(strategy, "timing");
    let cooldown_after_unload_secs = opt_u64(get_in(timing, "cooldown_after_unload_secs"));
    let model_load_timeout_secs = opt_u64(get_in(timing, "model_load_timeout_secs"));
    let min_tmp_space_mb = opt_u64(get_in(timing, "min_tmp_space_mb"));
    let streaming_enabled = opt_bool(get_in(get_in(strategy, "streaming"), "enabled"));
    let selection = get_in(workspace, "model_selection");
    let model_selection_strategy = opt_str_owned(get_in(selection, "strategy"));
    let diverse_n_count = opt_u64(get_in(selection, "diverse_n_count"));
    let model_filter = opt_str_owned(get_in(selection, "model_filter"));
    let detail_template = opt_str_owned(get_in(workspace, "detail_template"));
    assert(max_tokens == configured_max_tokens(*doc, *step));
    assert(gpu_layers == configured_gpu_layers(*doc));
    assert(strings_view(model_list@) == model_names(object_members(member(*doc, "models"@))));
    assert(inference_max_attempts == configured_attempts(*doc));
    Ok(
        Some(
            WorkflowRunConfig {
                prompts,
                max_tokens,
                gpu_layers,
                model_list,
                inference_max_attempts,
                output_root,
                refusal_patterns,
                cooldown_after_unload_secs,
                model_load_timeout_secs,
                min_tmp_space_mb,
                streaming_enabled,
                model_selection_strategy,
                diverse_n_count,
                model_filter,
                detail_template,
            },
        ),
    )
}

/// The step's `prompt` where it is a string.
pub open spec fn str_of_member(step: JsonValue) -> Option<Seq<char>> {
    str_opt(member(step, "prompt"@))
}

/// `(name, source_path)` of the models that give both, non-empty, in map
/// order.
pub open spec fn source_entries(ms: Seq<(String, JsonValue)>) -> Seq<(Seq<char>, Seq<char>)>
    decreases ms.len(),
{
    if ms.len() == 0 {
        Seq::empty()
    } else {
        let rest = source_entries(ms.drop_last());
        let m = ms.last().1;
        match (str_opt(member(m, "name"@)), str_opt(member(m, "source_path"@))) {
            (Some(n), Some(p)) => if n.len() > 0 && p.len() > 0 {
                rest.push((n, p))
            } else {
                rest
            },
            _ => rest,
        }
    }
}

/// The host source paths a workflow gives for its models, as
/// `source_entries` says of its `models` map.
pub fn model_source_paths(doc: &JsonValue) -> (r: Vec<(String, String)>)
    ensures
        r@.map_values(|p: (String, String)| (p.0@, p.1@)) == source_entries(object_members(member(*doc, "models"@))),
{
    let mut out: Vec<(String, String)> = Vec::new();
    let ms = match members_of(get(doc, "models")) {
        Some(ms) => ms,
        None => {
            assert(out@.map_values(|p: (String, String)| (p.0@, p.1@)) =~= Seq::<(Seq<char>, Seq<char>)>::empty());
            return out;
        },
    };
    let mut i: usize = 0;
    assert(ms@.subrange(0, 0) =~= Seq::<(String, JsonValue)>::empty());
    assert(out@.map_values(|p: (String, String)| (p.0@, p.1@)) =~= Seq::<(Seq<char>, Seq<char>)>::empty());
    while i < ms.len()
        invariant
            i <= ms@.len(),
            out@.map_values(|p: (String, String)| (p.0@, p.1@)) == source_entries(ms@.subrange(0, i as int)),
        decreases ms.len() - i,
    {
        let ghost before = out@.map_values(|p: (String, String)| (p.0@, p.1@));
        assert(ms@.subrange(0, i + 1).drop_last() =~= ms@.subrange(0, i as int));
        assert(ms@.subrange(0, i + 1).last() == ms@[i as int]);
        let name = opt_str_owned(get(&ms[i].1, "name"));
        let path = opt_str_owned(get(&ms[i].1, "source_path"));
        match (name, path) {
            (Some(n), Some(p)) => {
                if crate::text::str_to_chars(n.as_str()).len() > 0 && crate::text::str_to_chars(p.as_str()).len() > 0 {
                    let ghost entry = (n@, p@);
                    out.push((n, p));
                    assert(out@.map_values(|q: (String, String)| (q.0@, q.1@)) =~= before.push(entry));
                }
            },
            _ => {},
        }
        i += 1;
    }
    assert(ms@.subrange(0, ms@.len() as int) =~= ms@);
    out
}

/// The model each key of the `models` map stands for: its `name` where
/// that is a string, else the key; keys starting with `global_` or
/// `default_` hold settings, not models, and are left out.
pub open spec fn model_keys(ms: Seq<(String, JsonValue)>) -> Seq<(Seq<char>, Seq<char>)>
    decreases ms.len(),
{
    if ms.len() == 0 {
        Seq::empty()
    } else {
        let rest = model_keys(ms.drop_last());
        let k = ms.last().0@;
        if has_prefix(k, "global_"@) || has_prefix(k, "default_"@) {
            rest
        } else {
            rest.push(
                (
                    k,
                    match str_opt(member(ms.last().1, "name"@)) {
                        Some(n) => n,
                        None => k,
                    },
                ),
            )
        }
    }
}

/// The models a workflow declares by key, as `model_keys` says; `None`
/// when it has no `models` map.
pub fn workflow_models(doc: &JsonValue) -> (r: Option<Vec<(String, String)>>)
    ensures
        match member(*doc, "models"@) {
            Some(JsonValue::Object(ms)) => r matches Some(v) && v@.map_values(|p: (String, String)| (p.0@, p.1@))
                == model_keys(ms@),
            _ => r is None,
        },
{
    let ms = match get(doc, "models") {
        Some(JsonValue::Object(ms)) => ms,
        _ => {
            return None;
        },
    };
    let global = crate::text::str_to_chars("global_");
    let default = crate::text::str_to_chars("default_");
    let mut out: Vec<(String, String)> = Vec::new();
    let mut i: usize = 0;
    assert(ms@.subrange(0, 0) =~= Seq::<(String, JsonValue)>::empty());
    assert(out@.map_values(|p: (String, String)| (p.0@, p.1@)) =~= Seq::<(Seq<char>, Seq<char>)>::empty());
    while i < ms.len()
        invariant
            i <= ms@.len(),
            global@ == "global_"@,
            default@ == "default_"@,
            out@.map_values(|p: (String, String)| (p.0@, p.1@)) == model_keys(ms@.subrange(0, i as int)),
        decreases ms.len() - i,
    {
        let ghost before = out@.map_values(|p: (String, String)| (p.0@, p.1@));
        assert(ms@.subrange(0, i + 1).drop_last() =~= ms@.subrange(0, i as int));
        assert(ms@.subrange(0, i + 1).last() == ms@[i as int]);
        let key = crate::text::str_to_chars(ms[i].0.as_str());
        if !crate::text::starts_with_chars(&key, &global) && !crate::text::starts_with_chars(&key, &default) {
            let name = match opt_str_owned(get(&ms[i].1, "name")) {
                Some(n) => n,
                None => ms[i].0.clone(),
            };
            let ghost entry = (ms@[i as int].0@, name@);
            out.push((ms[i].0.clone(), name));
            assert(out@.map_values(|q: (String, String)| (q.0@, q.1@)) =~= before.push(entry));
        }
        i += 1;
    }
    assert(ms@.subrange(0, ms@.len() as int) =~= ms@);
    Some(out)
}

} // verus!
