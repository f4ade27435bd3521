//! Matching a model named in a workflow against the model files a server
//! reports. Names drift from file names in case and separator spelling
//! ("Qwen3.5-9B" against "Qwen3-5-9B.gguf"), so matching falls back through
//! looser layers; the first layer with a hit wins.

use vstd::prelude::*;
use crate::text::{
    chars_equal, chars_to_string, ends_with_chars, find_chars, find_from, has_suffix, lemma_find_bounds,
    lowercase, push_all, push_str, seq_contains, slice_chars, str_to_chars, to_lowercase,
    contains_chars,
};

verus! {

/// The `.gguf` file extension.
pub open spec fn gguf() -> Seq<char> {
    seq!['.', 'g', 'g', 'u', 'f']
}

/// `s` without a trailing `.gguf`.
pub open spec fn strip_gguf(s: Seq<char>) -> Seq<char> {
    if has_suffix(s, gguf()) {
        s.subrange(0, s.len() - 5)
    } else {
        s
    }
}

/// `.`, `-` and `_` all written as `-`.
pub open spec fn unify_separators(s: Seq<char>) -> Seq<char> {
    s.map_values(|c: char| if c == '.' || c == '-' || c == '_' { '-' } else { c })
}

/// The form names are compared in at the second layer.
pub open spec fn normalized(s: Seq<char>) -> Seq<char> {
    unify_separators(lowercase(strip_gguf(s)))
}

/// The part of a name before its first `-`.
pub open spec fn base_name(s: Seq<char>) -> Seq<char> {
    let k = find_from(s, seq!['-'], 0);
    if k < 0 {
        s
    } else {
        s.subrange(0, k)
    }
}

/// Layer 1: the id is the name, with or without `.gguf`.
pub open spec fn exact_match(id: Seq<char>, name: Seq<char>) -> bool {
    id == name || id == name + gguf()
}

/// Whether an id matches a name at a layer: 0 exact, 1 normalized, 2 the
/// id contains the name, 3 the id contains the name's base.
pub open spec fn layer_match(layer: nat, id: Seq<char>, name: Seq<char>) -> bool {
    if layer == 0 {
        exact_match(id, name)
    } else if layer == 1 {
        normalized(id) == normalized(name)
    } else if layer == 2 {
        seq_contains(id, name)
    } else {
        seq_contains(id, base_name(name))
    }
}

/// Index of the first model from `from` on that matches at `layer`, or -1.
pub open spec fn first_hit(models: Seq<(String, String)>, name: Seq<char>, layer: nat, from: int) -> int
    decreases models.len() - from,
{
    if from < 0 || from >= models.len() {
        -1
    } else if layer_match(layer, models[from].0@, name) {
        from
    } else {
        first_hit(models, name, layer, from + 1)
    }
}

/// Index of the model a name resolves to, or -1: the first exact match,
/// else the first match after normalizing both, else the first id that
/// contains the name, else the first id that contains the name's base.
pub open spec fn resolution(name: Seq<char>, models: Seq<(String, String)>) -> int {
    let e = first_hit(models, name, 0, 0);
    let n = first_hit(models, name, 1, 0);
    let c = first_hit(models, name, 2, 0);
    let b = first_hit(models, name, 3, 0);
    if e >= 0 {
        e
    } else if n >= 0 {
        n
    } else if c >= 0 {
        c
    } else {
        b
    }
}

proof fn lemma_first_hit_bounds(models: Seq<(String, String)>, name: Seq<char>, layer: nat, from: int)
    ensures
        first_hit(models, name, layer, from) == -1 || (from <= first_hit(models, name, layer, from)
            < models.len()),
    decreases models.len() - from,
{
    if !(from < 0 || from >= models.len()) && !layer_match(layer, models[from].0@, name) {
        lemma_first_hit_bounds(models, name, layer, from + 1);
    }
}

/// `.`, `-` and `_`: the characters names are split at.
pub open spec fn is_name_separator(c: char) -> bool {
    c == '.' || c == '-' || c == '_'
}

/// Two names that differ only in which separator stands at a position.
pub open spec fn same_but_separators(a: Seq<char>, b: Seq<char>) -> bool {
    a.len() == b.len() && forall|i: int|
        0 <= i < a.len() ==> #[trigger] a[i] == b[i] || (is_name_separator(a[i]) && is_name_separator(b[i]))
}

/// Separators are all read alike: two names that differ only in which of
/// `.`, `-` and `_` they use read the same once unified, and a unified
/// name holds no `.` or `_`.
pub proof fn lemma_separators_read_alike(a: Seq<char>, b: Seq<char>)
    requires
        same_but_separators(a, b),
    ensures
        unify_separators(a) == unify_separators(b),
        forall|i: int| 0 <= i < a.len() ==> #[trigger] unify_separators(a)[i] != '_' && unify_separators(a)[i] != '.',
{
    assert(unify_separators(a) =~= unify_separators(b));
}

proof fn lemma_first_hit_at_most(models: Seq<(String, String)>, name: Seq<char>, layer: nat, from: int, k: int)
    requires
        0 <= from <= k < models.len(),
        layer_match(layer, models[k].0@, name),
    ensures
        from <= first_hit(models, name, layer, from) <= k,
    decreases k - from,
{
    if !layer_match(layer, models[from].0@, name) {
        lemma_first_hit_at_most(models, name, layer, from + 1, k);
    }
}

/// A name resolves whenever some discovered id reads like it after
/// lower-casing and dropping `.gguf`, up to which separators are used
/// (`phi_3-mini` finds `Phi-3-mini.gguf`): the model found is an exact
/// match or a normalized match no later than that id.
pub proof fn lemma_separator_spelling_resolves(name: Seq<char>, models: Seq<(String, String)>, k: int)
    requires
        0 <= k < models.len(),
        same_but_separators(lowercase(strip_gguf(models[k].0@)), lowercase(strip_gguf(name))),
    ensures
        0 <= resolution(name, models) < models.len(),
        first_hit(models, name, 0, 0) < 0 ==> resolution(name, models) <= k,
{
    lemma_separators_read_alike(lowercase(strip_gguf(models[k].0@)), lowercase(strip_gguf(name)));
    lemma_first_hit_at_most(models, name, 1, 0, k);
    lemma_first_hit_bounds(models, name, 0, 0);
}

fn strip_gguf_exec(s: &Vec<char>) -> (r: Vec<char>)
    ensures
        r@ == strip_gguf(s@),
{
    let ext = vec!['.', 'g', 'g', 'u', 'f'];
    assert(ext@ =~= gguf());
    if ends_with_chars(s, &ext) {
        slice_chars(s, 0, s.len() - 5)
    } else {
        slice_chars(s, 0, s.len())
    }
}

fn normalized_exec(s: &str) -> (r: Vec<char>)
    ensures
        r@ == normalized(s@),
{
    let stripped = strip_gguf_exec(&str_to_chars(s));
    let lower = str_to_chars(to_lowercase(chars_to_string(stripped.as_slice()).as_str()).as_str());
    let mut out: Vec<char> = Vec::new();
    let mut i: usize = 0;
    while i < lower.len()
        invariant
            i <= lower@.len(),
            lower@ == lowercase(strip_gguf(s@)),
            out@ == unify_separators(lower@.subrange(0, i as int)),
        decreases lower.len() - i,
    {
        let c = lower[i];
        out.push(if c == '.' || c == '-' || c == '_' { '-' } else { c });
        i += 1;
        assert(out@ =~= unify_separators(lower@.subrange(0, i as int)));
    }
    assert(lower@.subrange(0, lower@.len() as int) =~= lower@);
    out
}

fn base_name_exec(s: &Vec<char>) -> (r: Vec<char>)
    ensures
        r@ == base_name(s@),
{
    let dash = vec!['-'];
    assert(dash@ =~= seq!['-']);
    proof {
        lemma_find_bounds(s@, seq!['-'], 0);
    }
    match find_chars(s, &dash, 0) {
        Some(k) => slice_chars(s, 0, k),
        None => slice_chars(s, 0, s.len()),
    }
}

fn copy_model(m: &(String, String)) -> (r: (String, String))
    ensures
        r.0@ == m.0@,
        r.1@ == m.1@,
{
    (m.0.clone(), m.1.clone())
}

/// The discovered model (id, path) a workflow model name resolves to, as
/// `resolution` says.
pub fn resolve_model_file(model_name: &str, discovered_models: &Vec<(String, String)>) -> (r: Option<(String, String)>)
    ensures
        match r {
            Some(hit) => {
                let k = resolution(model_name@, discovered_models@);
                0 <= k < discovered_models@.len() && hit.0@ == discovered_models@[k].0@ && hit.1@
                    == discovered_models@[k].1@
            },
            None => resolution(model_name@, discovered_models@) == -1,
        },
{
    let ghost models = discovered_models@;
    let ghost name = model_name@;
    let name_v = str_to_chars(model_name);
    let mut with_ext = str_to_chars(model_name);
    push_all(&mut with_ext, &vec!['.', 'g', 'g', 'u', 'f']);
    assert(with_ext@ =~= name + gguf());
    let n = discovered_models.len();
    let mut i: usize = 0;
    while i < n
        invariant
            n == models.len(),
            models == discovered_models@,
            name == model_name@,
            name_v@ == name,
            with_ext@ == name + gguf(),
            i <= n,
            first_hit(models, name, 0, 0) == first_hit(models, name, 0, i as int),
        decreases n - i,
    {
        let id = str_to_chars(discovered_models[i].0.as_str());
        if chars_equal(&id, &name_v) || chars_equal(&id, &with_ext) {
            return Some(copy_model(&discovered_models[i]));
        }
        i += 1;
    }
    proof {
        lemma_first_hit_bounds(models, name, 0, 0);
    }
    let want = normalized_exec(model_name);
    let mut i: usize = 0;
    while i < n
        invariant
            n == models.len(),
            models == discovered_models@,
            name == model_name@,
            want@ == normalized(name),
            first_hit(models, name, 0, 0) == -1,
            i <= n,
            first_hit(models, name, 1, 0) == first_hit(models, name, 1, i as int),
        decreases n - i,
    {
        let got = normalized_exec(discovered_models[i].0.as_str());
        if chars_equal(&got, &want) {
            return Some(copy_model(&discovered_models[i]));
        }
        i += 1;
    }
    proof {
        lemma_first_hit_bounds(models, name, 1, 0);
    }
    let mut i: usize = 0;
    while i < n
        invariant
            n == models.len(),
            models == discovered_models@,
            name == model_name@,
            name_v@ == name,
            first_hit(models, name, 0, 0) == -1,
            first_hit(models, name, 1, 0) == -1,
            i <= n,
            first_hit(models, name, 2, 0) == first_hit(models, name, 2, i as int),
        decreases n - i,
    {
        let id = str_to_chars(discovered_models[i].0.as_str());
        if contains_chars(&id, &name_v) {
            return Some(copy_model(&discovered_models[i]));
        }
        i += 1;
    }
    proof {
        lemma_first_hit_bounds(models, name, 2, 0);
    }
    let base = base_name_exec(&name_v);
    let mut i: usize = 0;
    while i < n
        invariant
            n == models.len(),
            models == discovered_models@,
            name == model_name@,
            base@ == base_name(name),
            first_hit(models, name, 0, 0) == -1,
            first_hit(models, name, 1, 0) == -1,
            first_hit(models, name, 2, 0) == -1,
            i <= n,
            first_hit(models, name, 3, 0) == first_hit(models, name, 3, i as int),
        decreases n - i,
    {
        let id = str_to_chars(discovered_models[i].0.as_str());
        if contains_chars(&id, &base) {
            return Some(copy_model(&discovered_models[i]));
        }
        i += 1;
    }
    None
}

/// Rust's `{:?}` rendering of a string: quoted, with escapes.
pub uninterp spec fn debug_text(s: Seq<char>) -> Seq<char>;

/// A string as `{:?}` renders it.
///
/// Trusted: calls `format!("{:?}", s)`; the contract names the result
/// `debug_text` of the string's characters.
#[verifier::external_body]
pub(crate) fn debug_quoted(s: &str) -> (r: String)
    ensures
        r@ == debug_text(s@),
{
    format!("{:?}", s)
}

/// The workflow's name and the server's file name differ only by the
/// `.gguf` extension, if at all.
pub open spec fn names_agree(requested: Seq<char>, resolved: Seq<char>) -> bool {
    requested == resolved || requested == resolved + gguf() || resolved == requested + gguf()
}

/// The warning for a model that was resolved through a fuzzy layer.
pub open spec fn drift_message(requested: Seq<char>, resolved: Seq<char>) -> Seq<char> {
    "model name drift: workflow says "@ + debug_text(requested) + ", server filename is "@
        + debug_text(resolved)
        + " — engine resolved it, but raw API calls (e.g. shell-hook curl) need the exact filename"@
}

/// A warning when a name resolved to a different file name; `None` when
/// they agree up to `.gguf`.
pub fn model_name_drift_hint(requested: &str, resolved_id: &str) -> (r: Option<String>)
    ensures
        names_agree(requested@, resolved_id@) ==> r is None,
        !names_agree(requested@, resolved_id@) ==> (r matches Some(m) && m@ == drift_message(
            requested@,
            resolved_id@,
        )),
{
    let req = str_to_chars(requested);
    let res = str_to_chars(resolved_id);
    let mut req_ext = str_to_chars(requested);
    push_all(&mut req_ext, &vec!['.', 'g', 'g', 'u', 'f']);
    let mut res_ext = str_to_chars(resolved_id);
    push_all(&mut res_ext, &vec!['.', 'g', 'g', 'u', 'f']);
    assert(req_ext@ =~= requested@ + gguf());
    assert(res_ext@ =~= resolved_id@ + gguf());
    if chars_equal(&req, &res) || chars_equal(&req, &res_ext) || chars_equal(&res, &req_ext) {
        None
    } else {
        let mut out: Vec<char> = Vec::new();
        push_str(&mut out, "model name drift: workflow says ");
        push_str(&mut out, debug_quoted(requested).as_str());
        push_str(&mut out, ", server filename is ");
        push_str(&mut out, debug_quoted(resolved_id).as_str());
        push_str(
            &mut out,
            " — engine resolved it, but raw API calls (e.g. shell-hook curl) need the exact filename",
        );
        Some(chars_to_string(out.as_slice()))
    }
}

} // verus!
