//! Reading workflow steps out of a parsed workflow document: step names and
//! ids, dependencies (`depends_on` and `requires`, with their conditions),
//! the hooks each step runs (the workflow's defaults merged with its own),
//! prompts, retry limits and loop settings.

use vstd::prelude::*;
use crate::json::{
    as_array, as_object, as_str, as_u64, clone_json, deref_opt, get, json_of, member, str_of, u64_of,
    Json, JsonValue,
};
use crate::decimal::{decimal, u64_to_chars};
use crate::text::{chars_to_string, has_prefix, push_all, push_str, slice_chars, starts_with_chars, str_equal, str_to_chars};
use crate::workflow::WorkflowStep;

verus! {

broadcast use vstd::std_specs::vec::group_vec_axioms;

/// The items listed under `key` where that member is an array.
pub open spec fn listed(v: JsonValue, key: Seq<char>) -> Seq<JsonValue> {
    match member(v, key) {
        Some(JsonValue::Array(items)) => items@,
        _ => Seq::empty(),
    }
}

/// The dependency entries of a step: `depends_on`, then `requires`.
pub open spec fn dependency_items(step: JsonValue) -> Seq<JsonValue> {
    listed(step, "depends_on"@) + listed(step, "requires"@)
}

/// The step a dependency entry names: the entry itself where it is a
/// string, else its `step` member where that is a string.
pub open spec fn dependency_name(item: JsonValue) -> Option<Seq<char>> {
    match str_of(item) {
        Some(n) => Some(n),
        None => match member(item, "step"@) {
            Some(s) => str_of(s),
            None => None,
        },
    }
}

/// The condition an entry of the form `{step: X, condition: C}` attaches.
pub open spec fn dependency_condition(item: JsonValue) -> Option<(Seq<char>, Seq<char>)> {
    match str_of(item) {
        Some(_) => None,
        None => match dependency_name(item) {
            Some(n) => match member(item, "condition"@) {
                Some(c) => match str_of(c) {
                    Some(t) => Some((n, t)),
                    None => None,
                },
                None => None,
            },
            None => None,
        },
    }
}

/// The names the entries depend on, each once, in order of first mention.
pub open spec fn dependency_names(items: Seq<JsonValue>) -> Seq<Seq<char>>
    decreases items.len(),
{
    if items.len() == 0 {
        Seq::empty()
    } else {
        let d = dependency_names(items.drop_last());
        match dependency_name(items.last()) {
            Some(n) => if d.contains(n) {
                d
            } else {
                d.push(n)
            },
            None => d,
        }
    }
}

/// The (name, condition) pairs the entries attach, in order; for a name
/// given more than once, the last applies.
pub open spec fn dependency_conditions(items: Seq<JsonValue>) -> Seq<(Seq<char>, Seq<char>)>
    decreases items.len(),
{
    if items.len() == 0 {
        Seq::empty()
    } else {
        let c = dependency_conditions(items.drop_last());
        match dependency_condition(items.last()) {
            Some(p) => c.push(p),
            None => c,
        }
    }
}

/// The characters of each string.
pub open spec fn string_views(v: Seq<String>) -> Seq<Seq<char>> {
    v.map_values(|s: String| s@)
}

/// The characters of each pair of strings.
pub open spec fn pair_views(v: Seq<(String, String)>) -> Seq<(Seq<char>, Seq<char>)> {
    v.map_values(|p: (String, String)| (p.0@, p.1@))
}

fn contains_name(v: &Vec<String>, x: &str) -> (b: bool)
    ensures
        b == string_views(v@).contains(x@),
{
    let mut k: usize = 0;
    while k < v.len()
        invariant
            k <= v@.len(),
            forall|j: int| 0 <= j < k ==> v@[j]@ != x@,
        decreases v.len() - k,
    {
        if str_equal(v[k].as_str(), x) {
            assert(string_views(v@)[k as int] == x@);
            return true;
        }
        k += 1;
    }
    assert forall|j: int| 0 <= j < string_views(v@).len() implies string_views(v@)[j] != x@ by {
        assert(string_views(v@)[j] == v@[j]@);
    }
    false
}

fn add_dependency(
    deps: &mut Vec<String>,
    conds: &mut Vec<(String, String)>,
    item: &JsonValue,
    Ghost(done): Ghost<Seq<JsonValue>>,
)
    requires
        string_views(old(deps)@) == dependency_names(done),
        pair_views(old(conds)@) == dependency_conditions(done),
    ensures
        string_views(final(deps)@) == dependency_names(done.push(*item)),
        pair_views(final(conds)@) == dependency_conditions(done.push(*item)),
{
    assert(done.push(*item).drop_last() =~= done);
    let name: Option<&String> = match as_str(item) {
        Some(n) => Some(n),
        None => match get(item, "step") {
            Some(s) => as_str(s),
            None => None,
        },
    };
    match name {
        Some(n) => {
            if !contains_name(deps, n.as_str()) {
                deps.push(n.clone());
                assert(string_views(deps@) =~= string_views(old(deps)@).push(n@));
            }
            if as_str(item).is_none() {
                match get(item, "condition") {
                    Some(c) => match as_str(c) {
                        Some(t) => {
                            conds.push((n.clone(), t.clone()));
                            assert(pair_views(conds@) =~= pair_views(old(conds)@).push((n@, t@)));
                        },
                        None => {},
                    },
                    None => {},
                }
            }
        },
        None => {},
    }
}

/// The steps a step depends on (`depends_on`, then `requires`; names kept
/// once, in order of first mention) and the conditions attached to them.
pub fn extract_dependency_names(step_value: &JsonValue) -> (r: (Vec<String>, Vec<(String, String)>))
    ensures
        string_views(r.0@) == dependency_names(dependency_items(*step_value)),
        pair_views(r.1@) == dependency_conditions(dependency_items(*step_value)),
{
    let mut deps: Vec<String> = Vec::new();
    let mut conds: Vec<(String, String)> = Vec::new();
    let ghost mut done: Seq<JsonValue> = Seq::empty();
    assert(string_views(deps@) =~= dependency_names(done));
    assert(pair_views(conds@) =~= dependency_conditions(done));
    let keys = ["depends_on", "requires"];
    let mut key_index: usize = 0;
    while key_index < 2
        invariant
            key_index <= 2,
            keys@ == seq!["depends_on", "requires"],
            done == (if key_index == 0 {
                Seq::empty()
            } else if key_index == 1 {
                listed(*step_value, "depends_on"@)
            } else {
                dependency_items(*step_value)
            }),
            string_views(deps@) == dependency_names(done),
            pair_views(conds@) == dependency_conditions(done),
        decreases 2 - key_index,
    {
        let key: &str = keys[key_index];
        proof {
            if key_index == 1 {
                assert(listed(*step_value, "depends_on"@) + listed(*step_value, "requires"@)
                    =~= dependency_items(*step_value));
            }
        }
        let ghost base = done;
        match get(step_value, key) {
            Some(value) => match as_array(value) {
                Some(items) => {
                    let mut i: usize = 0;
                    while i < items.len()
                        invariant
                            i <= items@.len(),
                            done == base + items@.subrange(0, i as int),
                            string_views(deps@) == dependency_names(done),
                            pair_views(conds@) == dependency_conditions(done),
                        decreases items.len() - i,
                    {
                        add_dependency(&mut deps, &mut conds, &items[i], Ghost(done));
                        proof {
                            done = done.push(items@[i as int]);
                            assert(done =~= base + items@.subrange(0, i + 1));
                        }
                        i += 1;
                    }
                    assert(items@.subrange(0, items@.len() as int) =~= items@);
                },
                None => {
                    assert(done =~= base + Seq::<JsonValue>::empty());
                },
            },
            None => {
                assert(done =~= base + Seq::<JsonValue>::empty());
            },
        }
        proof {
            if key_index == 0 {
                assert(done =~= listed(*step_value, "depends_on"@));
            } else {
                assert(done =~= dependency_items(*step_value));
            }
        }
        key_index += 1;
    }
    (deps, conds)
}

/// The keys that mark an object as a single hook action.
pub open spec fn action_keys() -> Seq<Seq<char>> {
    seq![
        "log"@,
        "gwt"@,
        "append_to"@,
        "save_to"@,
        "route_to"@,
        "bookmark"@,
        "notify"@,
        "fail"@,
        "shell"@,
        "skip_step"@,
        "skip_remaining"@,
        "iterate_values"@,
    ]
}

/// An object with at least one action key is a single hook action.
pub open spec fn is_hook_action(v: JsonValue) -> bool {
    match v {
        JsonValue::Object(members) => has_action_key(members@),
        _ => false,
    }
}

/// Some member's name is an action key.
pub open spec fn has_action_key(members: Seq<(String, JsonValue)>) -> bool {
    exists|i: int| 0 <= i < members.len() && action_keys().contains(#[trigger] members[i].0@)
}

fn is_action_key(k: &str) -> (b: bool)
    ensures
        b == action_keys().contains(k@),
{
    let keys = [
        "log",
        "gwt",
        "append_to",
        "save_to",
        "route_to",
        "bookmark",
        "notify",
        "fail",
        "shell",
        "skip_step",
        "skip_remaining",
        "iterate_values",
    ];
    let mut i: usize = 0;
    while i < 12
        invariant
            i <= 12,
            keys@.len() == 12,
            forall|j: int| 0 <= j < 12 ==> #[trigger] keys@[j]@ == action_keys()[j],
            forall|j: int| 0 <= j < i ==> action_keys()[j] != k@,
        decreases 12 - i,
    {
        if str_equal(keys[i], k) {
            assert(action_keys()[i as int] == k@);
            return true;
        }
        i += 1;
    }
    assert(action_keys().len() == 12);
    false
}

/// Whether a value is a single hook action.
pub fn looks_like_hook_action(value: &JsonValue) -> (b: bool)
    ensures
        b == is_hook_action(*value),
{
    match as_object(value) {
        Some(members) => {
            let mut i: usize = 0;
            while i < members.len()
                invariant
                    *value == JsonValue::Object(*members),
                    i <= members@.len(),
                    forall|j: int| 0 <= j < i ==> !action_keys().contains(#[trigger] members@[j].0@),
                decreases members.len() - i,
            {
                let key = members[i].0.as_str();
                if is_action_key(key) {
                    let ghost k = members@[i as int].0@;
                    assert(key@ == k);
                    assert(action_keys().contains(k));
                    assert(has_action_key(members@));
                    return true;
                }
                i += 1;
            }
            false
        },
        None => false,
    }
}

/// The actions a hook entry lists: the elements of an array, or the entry
/// itself.
pub open spec fn actions_of(v: JsonValue) -> Seq<Json> {
    match json_of(v) {
        Json::Array(items) => items,
        other => seq![other],
    }
}

/// The actions of a hook entry, as `actions_of` says.
pub fn hook_actions_as_vec(actions: &JsonValue) -> (r: Vec<JsonValue>)
    ensures
        r@.map_values(|a: JsonValue| json_of(a)) == actions_of(*actions),
{
    match as_array(actions) {
        Some(items) => {
            let mut out: Vec<JsonValue> = Vec::new();
            let mut i: usize = 0;
            while i < items.len()
                invariant
                    *actions == JsonValue::Array(*items),
                    i <= items@.len(),
                    out@.len() == i,
                    forall|k: int| 0 <= k < i ==> json_of(#[trigger] out@[k]) == json_of(items@[k]),
                decreases items.len() - i,
            {
                out.push(clone_json(&items[i]));
                i += 1;
            }
            assert(out@.map_values(|a: JsonValue| json_of(a)) =~= actions_of(*actions));
            out
        },
        None => {
            let mut out: Vec<JsonValue> = Vec::new();
            out.push(clone_json(actions));
            assert(out@.map_values(|a: JsonValue| json_of(a)) =~= actions_of(*actions));
            out
        },
    }
}

/// Merged hooks: trigger names with their actions, in order of first
/// appearance.
pub open spec fn table_view(t: Seq<(String, Vec<JsonValue>)>) -> Seq<(Seq<char>, Seq<Json>)> {
    t.map_values(|e: (String, Vec<JsonValue>)| (e.0@, e.1@.map_values(|a: JsonValue| json_of(a))))
}

/// No trigger name occurs twice.
pub open spec fn keys_distinct(t: Seq<(Seq<char>, Seq<Json>)>) -> bool {
    forall|i: int, j: int| 0 <= i < j < t.len() ==> #[trigger] t[i].0 != #[trigger] t[j].0
}

/// The table with `acts` appended to trigger `name` (a new entry at the
/// end where the trigger is not there yet).
pub open spec fn add_actions(t: Seq<(Seq<char>, Seq<Json>)>, name: Seq<char>, acts: Seq<Json>) -> Seq<(Seq<char>, Seq<Json>)> {
    if exists|k: int| 0 <= k < t.len() && #[trigger] t[k].0 == name {
        let k = choose|k: int| 0 <= k < t.len() && #[trigger] t[k].0 == name;
        t.update(k, (name, t[k].1 + acts))
    } else {
        t.push((name, acts))
    }
}

/// Each member of a hook map added in order.
pub open spec fn add_members(t: Seq<(Seq<char>, Seq<Json>)>, ms: Seq<(String, JsonValue)>) -> Seq<(Seq<char>, Seq<Json>)>
    decreases ms.len(),
{
    if ms.len() == 0 {
        t
    } else {
        add_members(add_actions(t, ms[0].0@, actions_of(ms[0].1)), ms.drop_first())
    }
}

/// A hook map's members added, where it is an object.
pub open spec fn add_hook_map(t: Seq<(Seq<char>, Seq<Json>)>, hooks: Option<JsonValue>) -> Seq<(Seq<char>, Seq<Json>)> {
    match hooks {
        Some(JsonValue::Object(ms)) => add_members(t, ms@),
        _ => t,
    }
}

/// Each group of `on_requires_failed` actions added in order.
pub open spec fn add_groups(t: Seq<(Seq<char>, Seq<Json>)>, gs: Seq<(String, JsonValue)>) -> Seq<(Seq<char>, Seq<Json>)>
    decreases gs.len(),
{
    if gs.len() == 0 {
        t
    } else {
        add_groups(add_actions(t, "on_requires_failed"@, actions_of(gs[0].1)), gs.drop_first())
    }
}

/// A step's `on_requires_failed` added: a list or a single action as is,
/// else each group of a map of groups.
pub open spec fn add_requires_failed(t: Seq<(Seq<char>, Seq<Json>)>, v: JsonValue) -> Seq<(Seq<char>, Seq<Json>)> {
    if v is Array || is_hook_action(v) {
        add_actions(t, "on_requires_failed"@, actions_of(v))
    } else {
        match v {
            JsonValue::Object(gs) => add_groups(t, gs@),
            _ => t,
        }
    }
}

/// The hook table of a step: the workflow's default hooks, then the
/// step's `when` hooks, then its `on_requires_failed` actions.
pub open spec fn merged_table(defaults: Option<JsonValue>, step: JsonValue) -> Seq<(Seq<char>, Seq<Json>)> {
    let a = add_hook_map(Seq::empty(), defaults);
    let b = add_hook_map(a, member(step, "when"@));
    match member(step, "on_requires_failed"@) {
        Some(v) => add_requires_failed(b, v),
        None => b,
    }
}

/// A hook table as a JSON object of action arrays.
pub open spec fn table_json(t: Seq<(Seq<char>, Seq<Json>)>) -> Json {
    Json::Object(t.map_values(|e: (Seq<char>, Seq<Json>)| (e.0, Json::Array(e.1))))
}

/// The hooks a step runs: `None` when there are none and no hook block was
/// written at all.
pub open spec fn merged_hooks(defaults: Option<JsonValue>, step: JsonValue) -> Option<Json> {
    let t = merged_table(defaults, step);
    let explicit = defaults is Some || member(step, "when"@) is Some || member(step, "on_requires_failed"@) is Some;
    if t.len() == 0 && !explicit {
        None
    } else {
        Some(table_json(t))
    }
}

fn append_hook_actions(table: &mut Vec<(String, Vec<JsonValue>)>, name: &str, actions: &JsonValue)
    requires
        keys_distinct(table_view(old(table)@)),
    ensures
        keys_distinct(table_view(final(table)@)),
        table_view(final(table)@) == add_actions(table_view(old(table)@), name@, actions_of(*actions)),
{
    let ghost t0 = table_view(table@);
    let mut acts = hook_actions_as_vec(actions);
    let mut k: usize = 0;
    while k < table.len() && !str_equal(table[k].0.as_str(), name)
        invariant
            k <= table@.len(),
            t0 == table_view(table@),
            forall|j: int| 0 <= j < k ==> #[trigger] t0[j].0 != name@,
        decreases table.len() - k,
    {
        k += 1;
    }
    if k < table.len() {
        assert(t0[k as int].0 == name@);
        let ghost chosen = choose|q: int| 0 <= q < t0.len() && #[trigger] t0[q].0 == name@;
        assert(chosen == k) by {
            if chosen != k {
                if chosen < k {
                    assert(t0[chosen].0 != name@);
                } else {
                    assert(t0[k as int].0 != t0[chosen].0);
                }
            }
        }
        let mut entry: (String, Vec<JsonValue>) = (String::new(), Vec::new());
        table.set_and_swap(k, &mut entry);
        let ghost before = entry.1@;
        entry.1.append(&mut acts);
        assert(entry.1@.map_values(|a: JsonValue| json_of(a)) =~= before.map_values(|a: JsonValue| json_of(a))
            + actions_of(*actions));
        table.set(k, entry);
        assert(table_view(table@) =~= t0.update(k as int, (name@, t0[k as int].1 + actions_of(*actions))));
    } else {
        let e = (name.to_string(), acts);
        table.push(e);
        assert(table_view(table@) =~= t0.push((name@, actions_of(*actions))));
    }
}

fn append_members(table: &mut Vec<(String, Vec<JsonValue>)>, ms: &Vec<(String, JsonValue)>)
    requires
        keys_distinct(table_view(old(table)@)),
    ensures
        keys_distinct(table_view(final(table)@)),
        table_view(final(table)@) == add_members(table_view(old(table)@), ms@),
{
    let mut i: usize = 0;
    assert(ms@.skip(0) =~= ms@);
    while i < ms.len()
        invariant
            i <= ms@.len(),
            keys_distinct(table_view(table@)),
            add_members(table_view(old(table)@), ms@) == add_members(table_view(table@), ms@.skip(i as int)),
        decreases ms.len() - i,
    {
        assert(ms@.skip(i as int).drop_first() =~= ms@.skip(i + 1));
        assert(ms@.skip(i as int)[0] == ms@[i as int]);
        append_hook_actions(table, ms[i].0.as_str(), &ms[i].1);
        i += 1;
    }
}

fn append_hook_map(table: &mut Vec<(String, Vec<JsonValue>)>, hooks: Option<&JsonValue>)
    requires
        keys_distinct(table_view(old(table)@)),
    ensures
        keys_distinct(table_view(final(table)@)),
        table_view(final(table)@) == add_hook_map(table_view(old(table)@), deref_opt(hooks)),
{
    match hooks {
        Some(h) => match as_object(h) {
            Some(ms) => append_members(table, ms),
            None => {},
        },
        None => {},
    }
}

fn append_groups(table: &mut Vec<(String, Vec<JsonValue>)>, gs: &Vec<(String, JsonValue)>)
    requires
        keys_distinct(table_view(old(table)@)),
    ensures
        keys_distinct(table_view(final(table)@)),
        table_view(final(table)@) == add_groups(table_view(old(table)@), gs@),
{
    let mut i: usize = 0;
    assert(gs@.skip(0) =~= gs@);
    while i < gs.len()
        invariant
            i <= gs@.len(),
            keys_distinct(table_view(table@)),
            add_groups(table_view(old(table)@), gs@) == add_groups(table_view(table@), gs@.skip(i as int)),
        decreases gs.len() - i,
    {
        assert(gs@.skip(i as int).drop_first() =~= gs@.skip(i + 1));
        assert(gs@.skip(i as int)[0] == gs@[i as int]);
        append_hook_actions(table, "on_requires_failed", &gs[i].1);
        i += 1;
    }
}

fn append_on_requires_failed(table: &mut Vec<(String, Vec<JsonValue>)>, actions: &JsonValue)
    requires
        keys_distinct(table_view(old(table)@)),
    ensures
        keys_distinct(table_view(final(table)@)),
        table_view(final(table)@) == add_requires_failed(table_view(old(table)@), *actions),
{
    if as_array(actions).is_some() || looks_like_hook_action(actions) {
        append_hook_actions(table, "on_requires_failed", actions);
        return;
    }
    match as_object(actions) {
        Some(gs) => append_groups(table, gs),
        None => {},
    }
}

fn table_to_json(table: Vec<(String, Vec<JsonValue>)>) -> (r: JsonValue)
    ensures
        json_of(r) == table_json(table_view(table@)),
{
    let ghost t0 = table@;
    let mut table = table;
    let mut members: Vec<(String, JsonValue)> = Vec::new();
    let mut i: usize = 0;
    while i < table.len()
        invariant
            table@.len() == t0.len(),
            i <= t0.len(),
            members@.len() == i,
            forall|k: int| i <= k < t0.len() ==> #[trigger] table@[k] == t0[k],
            forall|k: int| 0 <= k < i ==> (#[trigger] members@[k]).0@ == t0[k].0@ && json_of(members@[k].1)
                == Json::Array(t0[k].1@.map_values(|a: JsonValue| json_of(a))),
        decreases table.len() - i,
    {
        let mut entry: (String, Vec<JsonValue>) = (String::new(), Vec::new());
        table.set_and_swap(i, &mut entry);
        let (name, acts) = entry;
        let v = JsonValue::Array(acts);
        assert(json_of(v) == Json::Array(t0[i as int].1@.map_values(|a: JsonValue| json_of(a)))) by {
            let js = match json_of(v) {
                Json::Array(x) => x,
                _ => Seq::empty(),
            };
            assert(js =~= t0[i as int].1@.map_values(|a: JsonValue| json_of(a)));
        }
        members.push((name, v));
        i += 1;
    }
    let r = JsonValue::Object(members);
    assert(json_of(r) == table_json(table_view(t0))) by {
        let js = match json_of(r) {
            Json::Object(x) => x,
            _ => Seq::empty(),
        };
        assert(js =~= table_view(t0).map_values(|e: (Seq<char>, Seq<Json>)| (e.0, Json::Array(e.1))));
    }
    r
}

/// The hooks a step runs: the workflow's default hooks (`agentic_workflow.
/// when`), then the step's `when` hooks, then its `on_requires_failed`
/// actions, merged by trigger, as `merged_hooks` says.
pub fn merged_step_hooks(workflow_default_hooks: Option<&JsonValue>, step_value: &JsonValue) -> (r: Option<JsonValue>)
    ensures
        match merged_hooks(deref_opt(workflow_default_hooks), *step_value) {
            Some(j) => r matches Some(v) && json_of(v) == j,
            None => r is None,
        },
{
    let mut table: Vec<(String, Vec<JsonValue>)> = Vec::new();
    assert(table_view(table@) =~= Seq::empty());
    append_hook_map(&mut table, workflow_default_hooks);
    let when = get(step_value, "when");
    append_hook_map(&mut table, when);
    let on_requires_failed = get(step_value, "on_requires_failed");
    match on_requires_failed {
        Some(v) => append_on_requires_failed(&mut table, v),
        None => {},
    }
    let explicit = workflow_default_hooks.is_some() || when.is_some() || on_requires_failed.is_some();
    if table.len() == 0 && !explicit {
        None
    } else {
        Some(table_to_json(table))
    }
}

/// An optional value's content.
pub open spec fn opt_json(o: Option<JsonValue>) -> Option<Json> {
    match o {
        Some(v) => Some(json_of(v)),
        None => None,
    }
}

/// An optional string's characters.
pub open spec fn opt_text(o: Option<String>) -> Option<Seq<char>> {
    match o {
        Some(s) => Some(s@),
        None => None,
    }
}

/// The text of member `key`, where it is a string.
pub open spec fn member_str(v: JsonValue, key: Seq<char>) -> Option<Seq<char>> {
    match member(v, key) {
        Some(x) => str_of(x),
        None => None,
    }
}

/// `retry.max_attempts`, where it is an unsigned integer (cut to 32 bits).
pub open spec fn retry_of(v: JsonValue) -> Option<u32> {
    match member(v, "retry"@) {
        Some(r) => match member(r, "max_attempts"@) {
            Some(m) => match u64_of(m) {
                Some(n) => Some(n as u32),
                None => None,
            },
            None => None,
        },
        None => None,
    }
}

/// `s` is the step named `name` that the workflow entry `v` describes,
/// under the workflow's default hooks.
pub open spec fn step_from(s: WorkflowStep, name: Seq<char>, v: JsonValue, defaults: Option<JsonValue>) -> bool {
    &&& s.step_name@ == name
    &&& s.step_id@ == (match member_str(v, "id"@) {
        Some(id) => id,
        None => name,
    })
    &&& string_views(s.requires@) == dependency_names(dependency_items(v))
    &&& pair_views(s.require_conditions@) == dependency_conditions(dependency_items(v))
    &&& s.retry_max_attempts == retry_of(v)
    &&& opt_json(s.when) == merged_hooks(defaults, v)
    &&& opt_text(s.prompt) == member_str(v, "prompt"@)
    &&& opt_text(s.generative_entity) == member_str(v, "generative_entity"@)
    &&& opt_json(s.model_overrides) == opt_json(member(v, "model_overrides"@))
    &&& opt_json(s.loop_config) == opt_json(member(v, "loop"@))
}

fn member_string(v: &JsonValue, key: &str) -> (r: Option<String>)
    ensures
        opt_text(r) == member_str(*v, key@),
{
    match get(v, key) {
        Some(x) => match as_str(x) {
            Some(t) => Some(t.clone()),
            None => None,
        },
        None => None,
    }
}

fn member_copy(v: &JsonValue, key: &str) -> (r: Option<JsonValue>)
    ensures
        opt_json(r) == opt_json(member(*v, key@)),
{
    match get(v, key) {
        Some(x) => Some(clone_json(x)),
        None => None,
    }
}

fn retry_limit(v: &JsonValue) -> (r: Option<u32>)
    ensures
        r == retry_of(*v),
{
    match get(v, "retry") {
        Some(rt) => match get(rt, "max_attempts") {
            Some(m) => match as_u64(m) {
                Some(n) => Some(n as u32),
                None => None,
            },
            None => None,
        },
        None => None,
    }
}

fn build_step(step_name: String, v: &JsonValue, defaults: Option<&JsonValue>) -> (s: WorkflowStep)
    ensures
        step_from(s, step_name@, *v, deref_opt(defaults)),
{
    let step_id = match member_string(v, "id") {
        Some(id) => id,
        None => step_name.clone(),
    };
    let (deps, conds) = extract_dependency_names(v);
    let when = merged_step_hooks(defaults, v);
    WorkflowStep {
        step_name,
        step_id,
        requires: deps,
        require_conditions: conds,
        retry_max_attempts: retry_limit(v),
        when,
        prompt: member_string(v, "prompt"),
        generative_entity: member_string(v, "generative_entity"),
        model_overrides: member_copy(v, "model_overrides"),
        loop_config: member_copy(v, "loop"),
    }
}

/// Why a workflow document yields no steps.
#[derive(Debug, Clone, Copy, PartialEq, Eq, Structural)]
pub enum StepsError {
    /// There is no `agentic_workflow` section.
    NoAgenticWorkflow,
    /// An entry of a list of steps has no `step:` name.
    MissingStepName { index: usize },
    /// `agentic_workflow.steps` is neither a list nor a map.
    NotListOrMap,
    /// There are no steps.
    NoSteps,
}

/// `r` is what the steps of the document `doc` read as: no
/// `agentic_workflow` section, an unnamed list entry, no steps, or a
/// section that is neither a list nor a map are errors; otherwise the
/// steps of the list or the map, in order.
pub open spec fn steps_outcome(doc: JsonValue, r: Result<Vec<WorkflowStep>, StepsError>) -> bool {
    &&& member(doc, "agentic_workflow"@) is None ==> r == Err::<Vec<WorkflowStep>, StepsError>(StepsError::NoAgenticWorkflow)
    &&& member(doc, "agentic_workflow"@) matches Some(aw) ==> {
        let defaults = member(aw, "when"@);
        match steps_section(aw) {
            JsonValue::Array(items) => if first_unnamed(items@, 0) >= 0 {
                r matches Err(StepsError::MissingStepName { index }) && index == first_unnamed(items@, 0)
            } else if items@.len() == 0 {
                r matches Err(StepsError::NoSteps)
            } else {
                r matches Ok(out) && steps_from_list(out@, items@, defaults)
            },
            JsonValue::Object(ms) => if ms@.len() == 0 {
                r matches Err(StepsError::NoSteps)
            } else {
                r matches Ok(out) && steps_from_map(out@, ms@, defaults)
            },
            _ => r matches Err(StepsError::NotListOrMap),
        }
    }
}

/// What a steps error says about the workflow file at `path`.
pub open spec fn steps_error_text(e: StepsError, path: Seq<char>) -> Seq<char> {
    match e {
        StepsError::NoAgenticWorkflow => "[benchmark] no agentic_workflow section in "@ + path
            + " — refusing to fall back to discovery benchmark (Issue T)"@,
        StepsError::MissingStepName { index } => "[benchmark] array-format step "@ + decimal(
            index as nat + 1,
        ) + " (0-based index "@ + decimal(index as nat) + ") in "@ + path
            + " is missing the `step:` name key — refusing to silently drop it (previously filter_map discarded it) — refusing to fall back to discovery benchmark (Issue T)"@,
        StepsError::NotListOrMap => "[benchmark] agentic_workflow.steps in "@ + path
            + " is neither a list nor a map — refusing to fall back to discovery benchmark (Issue T)"@,
        StepsError::NoSteps => "[benchmark] agentic_workflow.steps in "@ + path
            + " is empty — refusing to fall back to discovery benchmark (Issue T)"@,
    }
}

impl StepsError {
    /// The error's text for the workflow file at `path`.
    pub fn message(&self, path: &str) -> (m: String)
        requires
            self matches StepsError::MissingStepName { index } ==> index < u64::MAX,
        ensures
            m@ == steps_error_text(*self, path@),
    {
        let mut out: Vec<char> = Vec::new();
        match self {
            StepsError::NoAgenticWorkflow => {
                push_str(&mut out, "[benchmark] no agentic_workflow section in ");
                push_str(&mut out, path);
                push_str(&mut out, " — refusing to fall back to discovery benchmark (Issue T)");
            },
            StepsError::MissingStepName { index } => {
                push_str(&mut out, "[benchmark] array-format step ");
                push_all(&mut out, &u64_to_chars(*index as u64 + 1));
                push_str(&mut out, " (0-based index ");
                push_all(&mut out, &u64_to_chars(*index as u64));
                push_str(&mut out, ") in ");
                push_str(&mut out, path);
                push_str(
                    &mut out,
                    " is missing the `step:` name key — refusing to silently drop it (previously filter_map discarded it) — refusing to fall back to discovery benchmark (Issue T)",
                );
            },
            StepsError::NotListOrMap => {
                push_str(&mut out, "[benchmark] agentic_workflow.steps in ");
                push_str(&mut out, path);
                push_str(
                    &mut out,
                    " is neither a list nor a map — refusing to fall back to discovery benchmark (Issue T)",
                );
            },
            StepsError::NoSteps => {
                push_str(&mut out, "[benchmark] agentic_workflow.steps in ");
                push_str(&mut out, path);
                push_str(&mut out, " is empty — refusing to fall back to discovery benchmark (Issue T)");
            },
        }
        chars_to_string(out.as_slice())
    }
}

/// The steps section of a workflow: `agentic_workflow.steps`, or
/// `agentic_workflow` itself in the older layout without `steps`.
pub open spec fn steps_section(aw: JsonValue) -> JsonValue {
    match member(aw, "steps"@) {
        Some(s) => s,
        None => aw,
    }
}

/// Steps `out` are the workflow entries `items` (a list), in order.
pub open spec fn steps_from_list(out: Seq<WorkflowStep>, items: Seq<JsonValue>, defaults: Option<JsonValue>) -> bool {
    &&& out.len() == items.len()
    &&& forall|i: int|
        0 <= i < items.len() ==> #[trigger] member_str(items[i], "step"@) is Some && step_from(
            out[i],
            member_str(items[i], "step"@)->Some_0,
            items[i],
            defaults,
        )
}

/// Steps `out` are the workflow entries `ms` (a map from names), in order.
pub open spec fn steps_from_map(out: Seq<WorkflowStep>, ms: Seq<(String, JsonValue)>, defaults: Option<JsonValue>) -> bool {
    &&& out.len() == ms.len()
    &&& forall|i: int| 0 <= i < ms.len() ==> #[trigger] step_from(out[i], ms[i].0@, ms[i].1, defaults)
}

/// The first list entry without a `step:` name, or -1.
pub open spec fn first_unnamed(items: Seq<JsonValue>, from: int) -> int
    decreases items.len() - from,
{
    if from < 0 || from >= items.len() {
        -1
    } else if member_str(items[from], "step"@) is None {
        from
    } else {
        first_unnamed(items, from + 1)
    }
}

/// The steps of a parsed workflow document: each entry of
/// `agentic_workflow.steps` (a list of entries named by `step:`, or a map
/// from step names) built into a step, with the workflow's default hooks
/// (`agentic_workflow.when`) merged into each.
pub fn steps_from_workflow(doc: &JsonValue) -> (r: Result<Vec<WorkflowStep>, StepsError>)
    ensures
        steps_outcome(*doc, r),
{
    let aw = match get(doc, "agentic_workflow") {
        Some(aw) => aw,
        None => {
            return Err(StepsError::NoAgenticWorkflow);
        },
    };
    let defaults = get(aw, "when");
    let section = match get(aw, "steps") {
        Some(s) => s,
        None => aw,
    };
    let mut out: Vec<WorkflowStep> = Vec::new();
    match section {
        JsonValue::Array(items) => {
            let mut i: usize = 0;
            while i < items.len()
                invariant
                    *section == JsonValue::Array(*items),
                    member(*doc, "agentic_workflow"@) == Some(*aw),
                    *section == steps_section(*aw),
                    i <= items@.len(),
                    deref_opt(defaults) == member(*aw, "when"@),
                    first_unnamed(items@, 0) == first_unnamed(items@, i as int),
                    out@.len() == i,
                    forall|k: int|
                        0 <= k < i ==> #[trigger] member_str(items@[k], "step"@) is Some && step_from(
                            out@[k],
                            member_str(items@[k], "step"@)->Some_0,
                            items@[k],
                            deref_opt(defaults),
                        ),
                decreases items.len() - i,
            {
                let name = match member_string(&items[i], "step") {
                    Some(n) => n,
                    None => {
                        return Err(StepsError::MissingStepName { index: i });
                    },
                };
                let step = build_step(name, &items[i], defaults);
                out.push(step);
                i += 1;
            }
            if out.len() == 0 {
                return Err(StepsError::NoSteps);
            }
            Ok(out)
        },
        JsonValue::Object(ms) => {
            let mut i: usize = 0;
            while i < ms.len()
                invariant
                    i <= ms@.len(),
                    deref_opt(defaults) == member(*aw, "when"@),
                    out@.len() == i,
                    forall|k: int| 0 <= k < i ==> #[trigger] step_from(out@[k], ms@[k].0@, ms@[k].1, deref_opt(defaults)),
                decreases ms.len() - i,
            {
                let step = build_step(ms[i].0.clone(), &ms[i].1, defaults);
                out.push(step);
                i += 1;
            }
            if out.len() == 0 {
                return Err(StepsError::NoSteps);
            }
            Ok(out)
        },
        _ => Err(StepsError::NotListOrMap),
    }
}

/// Iteration variables: names with values, no name twice.
pub open spec fn vars_view(v: Seq<(String, JsonValue)>) -> Seq<(Seq<char>, Json)> {
    v.map_values(|e: (String, JsonValue)| (e.0@, json_of(e.1)))
}

/// No variable name occurs twice.
pub open spec fn vars_distinct(v: Seq<(Seq<char>, Json)>) -> bool {
    forall|i: int, j: int| 0 <= i < j < v.len() ==> #[trigger] v[i].0 != #[trigger] v[j].0
}

/// `vars` with `k` set to `x` (in place where `k` is there, else at the
/// end).
pub open spec fn set_var(vars: Seq<(Seq<char>, Json)>, k: Seq<char>, x: Json) -> Seq<(Seq<char>, Json)> {
    if exists|j: int| 0 <= j < vars.len() && #[trigger] vars[j].0 == k {
        let j = choose|j: int| 0 <= j < vars.len() && #[trigger] vars[j].0 == k;
        vars.update(j, (k, x))
    } else {
        vars.push((k, x))
    }
}

/// `step.`
pub open spec fn step_prefix() -> Seq<char> {
    seq!['s', 't', 'e', 'p', '.']
}

/// A variable name without a leading `step.`.
pub open spec fn var_name(k: Seq<char>) -> Seq<char> {
    if has_prefix(k, step_prefix()) {
        k.skip(5)
    } else {
        k
    }
}

/// The variables of iteration `i`: for each listed variable in order whose
/// values run that far, its `i`-th value.
pub open spec fn vars_at(ms: Seq<(String, JsonValue)>, i: int) -> Seq<(Seq<char>, Json)>
    decreases ms.len(),
{
    if ms.len() == 0 {
        Seq::empty()
    } else {
        let acc = vars_at(ms.drop_last(), i);
        match ms.last().1 {
            JsonValue::Array(arr) => if 0 <= i < arr@.len() {
                set_var(acc, var_name(ms.last().0@), json_of(arr@[i]))
            } else {
                acc
            },
            _ => acc,
        }
    }
}

/// The length of the longest value list.
pub open spec fn longest_list(ms: Seq<(String, JsonValue)>) -> nat
    decreases ms.len(),
{
    if ms.len() == 0 {
        0
    } else {
        let m = longest_list(ms.drop_last());
        match ms.last().1 {
            JsonValue::Array(arr) => if arr@.len() > m {
                arr@.len()
            } else {
                m
            },
            _ => m,
        }
    }
}

/// The hooks a hook entry lists (an array's elements, or the entry).
pub open spec fn hook_values(b: JsonValue) -> Seq<JsonValue> {
    match b {
        JsonValue::Array(items) => items@,
        _ => seq![b],
    }
}

/// The first hook from `from` on with `iterate_values`, or -1.
pub open spec fn first_iterating(hooks: Seq<JsonValue>, from: int) -> int
    decreases hooks.len() - from,
{
    if from < 0 || from >= hooks.len() {
        -1
    } else if member(hooks[from], "iterate_values"@) is Some {
        from
    } else {
        first_iterating(hooks, from + 1)
    }
}

/// The iterations a step's `before_step_starts` hooks ask for: the first
/// hook with `iterate_values` decides; where that is a map of value lists,
/// one variable set per index up to the longest list.
pub open spec fn iterations_of(step: WorkflowStep) -> Option<Seq<Seq<(Seq<char>, Json)>>> {
    match step.when {
        None => None,
        Some(w) => match member(w, "before_step_starts"@) {
            None => None,
            Some(b) => {
                let hooks = hook_values(b);
                let k = first_iterating(hooks, 0);
                if k < 0 {
                    None
                } else {
                    match member(hooks[k], "iterate_values"@) {
                        Some(JsonValue::Object(ms)) => Some(
                            Seq::new(longest_list(ms@), |i: int| vars_at(ms@, i)),
                        ),
                        _ => None,
                    }
                }
            },
        },
    }
}

fn set_var_exec(vars: &mut Vec<(String, JsonValue)>, k: String, x: JsonValue)
    requires
        vars_distinct(vars_view(old(vars)@)),
    ensures
        vars_distinct(vars_view(final(vars)@)),
        vars_view(final(vars)@) == set_var(vars_view(old(vars)@), k@, json_of(x)),
{
    let ghost t0 = vars_view(vars@);
    let mut j: usize = 0;
    while j < vars.len() && !str_equal(vars[j].0.as_str(), k.as_str())
        invariant
            j <= vars@.len(),
            t0 == vars_view(vars@),
            forall|q: int| 0 <= q < j ==> #[trigger] t0[q].0 != k@,
        decreases vars.len() - j,
    {
        j += 1;
    }
    if j < vars.len() {
        assert(t0[j as int].0 == k@);
        let ghost chosen = choose|q: int| 0 <= q < t0.len() && #[trigger] t0[q].0 == k@;
        assert(chosen == j) by {
            if chosen != j {
                if chosen < j {
                    assert(t0[chosen].0 != k@);
                } else {
                    assert(t0[j as int].0 != t0[chosen].0);
                }
            }
        }
        let ghost kv = k@;
        let ghost xv = json_of(x);
        vars.set(j, (k, x));
        assert(vars_view(vars@) =~= t0.update(j as int, (kv, xv)));
    } else {
        let ghost kv = k@;
        let ghost xv = json_of(x);
        vars.push((k, x));
        assert(vars_view(vars@) =~= t0.push((kv, xv)));
    }
}

fn var_name_exec(k: &String) -> (r: String)
    ensures
        r@ == var_name(k@),
{
    let kv = str_to_chars(k.as_str());
    let prefix = vec!['s', 't', 'e', 'p', '.'];
    assert(prefix@ =~= step_prefix());
    if starts_with_chars(&kv, &prefix) {
        let rest = slice_chars(&kv, 5, kv.len());
        assert(rest@ =~= k@.skip(5));
        chars_to_string(rest.as_slice())
    } else {
        k.clone()
    }
}

fn vars_for(ms: &Vec<(String, JsonValue)>, i: usize) -> (r: Vec<(String, JsonValue)>)
    ensures
        vars_view(r@) == vars_at(ms@, i as int),
{
    let mut vars: Vec<(String, JsonValue)> = Vec::new();
    let mut m: usize = 0;
    assert(vars_view(vars@) =~= Seq::empty());
    while m < ms.len()
        invariant
            m <= ms@.len(),
            vars_distinct(vars_view(vars@)),
            vars_view(vars@) == vars_at(ms@.subrange(0, m as int), i as int),
        decreases ms.len() - m,
    {
        assert(ms@.subrange(0, m + 1).drop_last() =~= ms@.subrange(0, m as int));
        assert(ms@.subrange(0, m + 1).last() == ms@[m as int]);
        match as_array(&ms[m].1) {
            Some(arr) => if i < arr.len() {
                set_var_exec(&mut vars, var_name_exec(&ms[m].0), clone_json(&arr[i]));
            },
            None => {},
        }
        m += 1;
    }
    assert(ms@.subrange(0, ms@.len() as int) =~= ms@);
    vars
}

fn longest_list_exec(ms: &Vec<(String, JsonValue)>) -> (n: usize)
    ensures
        n == longest_list(ms@),
{
    let mut best: usize = 0;
    let mut m: usize = 0;
    while m < ms.len()
        invariant
            m <= ms@.len(),
            best == longest_list(ms@.subrange(0, m as int)),
        decreases ms.len() - m,
    {
        assert(ms@.subrange(0, m + 1).drop_last() =~= ms@.subrange(0, m as int));
        assert(ms@.subrange(0, m + 1).last() == ms@[m as int]);
        match as_array(&ms[m].1) {
            Some(arr) => if arr.len() > best {
                best = arr.len();
            },
            None => {},
        }
        m += 1;
    }
    assert(ms@.subrange(0, ms@.len() as int) =~= ms@);
    best
}

/// The iteration variable sets of a step's `iterate_values` hook, as
/// `iterations_of` says.
pub fn extract_iterate_values(step: &WorkflowStep) -> (r: Option<Vec<Vec<(String, JsonValue)>>>)
    ensures
        match iterations_of(*step) {
            Some(its) => r matches Some(v) && v@.len() == its.len() && forall|i: int|
                0 <= i < its.len() ==> vars_view(#[trigger] v@[i]@) == its[i],
            None => r is None,
        },
{
    let when = match &step.when {
        Some(w) => w,
        None => {
            return None;
        },
    };
    let before = match get(when, "before_step_starts") {
        Some(b) => b,
        None => {
            return None;
        },
    };
    let ghost hv = hook_values(*before);
    let mut k: usize = 0;
    let count = match as_array(before) {
        Some(items) => items.len(),
        None => 1,
    };
    while k < count
        invariant
            step.when == Some(*when),
            member(*when, "before_step_starts"@) == Some(*before),
            count == hv.len(),
            hv == hook_values(*before),
            k <= count,
            first_iterating(hv, 0) == first_iterating(hv, k as int),
        decreases count - k,
    {
        let hook: &JsonValue = match as_array(before) {
            Some(items) => &items[k],
            None => before,
        };
        assert(*hook == hv[k as int]);
        match get(hook, "iterate_values") {
            Some(iterate) => {
                let ms = match as_object(iterate) {
                    Some(ms) => ms,
                    None => {
                        return None;
                    },
                };
                let max_len = longest_list_exec(ms);
                let mut result: Vec<Vec<(String, JsonValue)>> = Vec::new();
                let mut i: usize = 0;
                while i < max_len
                    invariant
                        i <= max_len,
                        max_len == longest_list(ms@),
                        result@.len() == i,
                        forall|q: int| 0 <= q < i ==> vars_view(#[trigger] result@[q]@) == vars_at(ms@, q),
                    decreases max_len - i,
                {
                    result.push(vars_for(ms, i));
                    i += 1;
                }
                return Some(result);
            },
            None => {},
        }
        k += 1;
    }
    None
}

/// Whether a step's `when` block configures a `during_step_streaming`
/// hook.
pub fn has_during_streaming_hook(step_when: &Option<JsonValue>) -> (b: bool)
    ensures
        b == (*step_when matches Some(w) && member(w, "during_step_streaming"@) is Some),
{
    match step_when {
        Some(w) => get(w, "during_step_streaming").is_some(),
        None => false,
    }
}

} // verus!
