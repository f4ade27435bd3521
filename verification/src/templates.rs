//! Template placeholders in prompts and hook arguments: `{{step.ID.output}}`
//! for earlier steps' outputs, `{{step.NAME}}` for iteration variables,
//! `{{iteration}}`, and the model placeholders of hook templates.

use vstd::prelude::*;
use crate::decimal::{decimal, u64_to_chars};
use crate::json::{as_str, str_of, JsonValue};
use crate::text::{
    lemma_replace_without_marker,
    chars_to_string, has_prefix, push_all, push_str, replace_all, replace_chars, seq_contains,
    str_contains, str_to_chars, to_lowercase, lowercase, starts_with_chars,
};

verus! {

/// `{{step.ID.output}}`.
pub open spec fn output_placeholder(id: Seq<char>) -> Seq<char> {
    "{{step."@ + id + ".output}}"@
}

/// Each step's placeholder replaced by its output, the steps taken in
/// order.
pub open spec fn resolve_outputs(t: Seq<char>, outputs: Seq<(String, String)>) -> Seq<char>
    decreases outputs.len(),
{
    if outputs.len() == 0 {
        t
    } else {
        resolve_outputs(
            replace_all(t, output_placeholder(outputs[0].0@), outputs[0].1@),
            outputs.drop_first(),
        )
    }
}

fn replace_in(cur: &Vec<char>, placeholder: &Vec<char>, value: &str) -> (r: Vec<char>)
    requires
        placeholder@.len() > 0,
    ensures
        r@ == replace_all(cur@, placeholder@, value@),
{
    replace_chars(cur, placeholder, &str_to_chars(value))
}

/// Replaces `{{step.ID.output}}` by the output of step `ID`, for each
/// recorded step in order; placeholders of unknown steps stay as written.
pub fn resolve_step_output_templates(template: &str, step_outputs: &Vec<(String, String)>) -> (r: String)
    ensures
        r@ == resolve_outputs(template@, step_outputs@),
{
    let mut cur = str_to_chars(template);
    let mut i: usize = 0;
    assert(step_outputs@.skip(0) =~= step_outputs@);
    while i < step_outputs.len()
        invariant
            i <= step_outputs@.len(),
            resolve_outputs(template@, step_outputs@) == resolve_outputs(cur@, step_outputs@.skip(i as int)),
        decreases step_outputs.len() - i,
    {
        let mut placeholder: Vec<char> = Vec::new();
        push_str(&mut placeholder, "{{step.");
        push_str(&mut placeholder, step_outputs[i].0.as_str());
        push_str(&mut placeholder, ".output}}");
        proof {
            reveal_strlit("{{step.");
            assert(step_outputs@.skip(i as int).drop_first() =~= step_outputs@.skip(i + 1));
        }
        cur = replace_in(&cur, &placeholder, step_outputs[i].1.as_str());
        i += 1;
    }
    chars_to_string(cur.as_slice())
}

/// `{{step.NAME}}`.
pub open spec fn variable_placeholder(name: Seq<char>) -> Seq<char> {
    "{{step."@ + name + "}}"@
}

/// `{{iteration}}`.
pub open spec fn iteration_placeholder() -> Seq<char> {
    "{{iteration}}"@
}

/// Each string variable's placeholder replaced by its value, in order;
/// variables that are not strings are skipped.
pub open spec fn resolve_variables(t: Seq<char>, variables: Seq<(String, JsonValue)>) -> Seq<char>
    decreases variables.len(),
{
    if variables.len() == 0 {
        t
    } else {
        let next = match str_of(variables[0].1) {
            Some(v) => replace_all(t, variable_placeholder(variables[0].0@), v),
            None => t,
        };
        resolve_variables(next, variables.drop_first())
    }
}

/// Replaces `{{step.NAME}}` by the string value of each iteration variable,
/// then `{{iteration}}` by the iteration number.
pub fn resolve_templates(template: &str, variables: &Vec<(String, JsonValue)>, iteration: usize) -> (r: String)
    ensures
        r@ == replace_all(
            resolve_variables(template@, variables@),
            iteration_placeholder(),
            decimal(iteration as nat),
        ),
{
    let mut cur = str_to_chars(template);
    let mut i: usize = 0;
    assert(variables@.skip(0) =~= variables@);
    while i < variables.len()
        invariant
            i <= variables@.len(),
            resolve_variables(template@, variables@) == resolve_variables(cur@, variables@.skip(i as int)),
        decreases variables.len() - i,
    {
        proof {
            assert(variables@.skip(i as int).drop_first() =~= variables@.skip(i + 1));
        }
        match as_str(&variables[i].1) {
            Some(v) => {
                let mut placeholder: Vec<char> = Vec::new();
                push_str(&mut placeholder, "{{step.");
                push_str(&mut placeholder, variables[i].0.as_str());
                push_str(&mut placeholder, "}}");
                proof {
                    reveal_strlit("{{step.");
                }
                cur = replace_in(&cur, &placeholder, v.as_str());
            },
            None => {},
        }
        i += 1;
    }
    let placeholder = str_to_chars("{{iteration}}");
    proof {
        reveal_strlit("{{iteration}}");
    }
    let digits = u64_to_chars(iteration as u64);
    let out = replace_chars(&cur, &placeholder, &digits);
    chars_to_string(out.as_slice())
}

/// What a hook template can refer to.
#[derive(Debug)]
pub struct HookContext {
    pub step_name: String,
    pub iteration: usize,
    pub output: Option<String>,
    pub error_message: Option<String>,
    pub loop_type: String,
    pub model_size: Option<String>,
    pub model_family: Option<String>,
    pub model_quantization: Option<String>,
}

/// `t` with `p` replaced by the value, where there is one.
pub open spec fn replace_opt(t: Seq<char>, p: Seq<char>, v: Option<String>) -> Seq<char> {
    match v {
        Some(s) => replace_all(t, p, s@),
        None => t,
    }
}

/// A hook template filled in from the context: the current model (also as
/// `loop.current_model`), the step output, the iteration (also as
/// `loop.iteration`), and the model's size, family and quantization, in
/// that order.
pub open spec fn interpolated(t: Seq<char>, c: HookContext) -> Seq<char> {
    let a = replace_all(t, "{{current_model}}"@, c.step_name@);
    let b = replace_all(a, "{{loop.current_model}}"@, c.step_name@);
    let d = replace_opt(b, "{{step.output}}"@, c.output);
    let e = replace_all(d, "{{iteration}}"@, decimal(c.iteration as nat));
    let f = replace_all(e, "{{loop.iteration}}"@, decimal(c.iteration as nat));
    let g = replace_opt(f, "{{model.size}}"@, c.model_size);
    let h = replace_opt(g, "{{model.family}}"@, c.model_family);
    replace_opt(h, "{{model.quantization}}"@, c.model_quantization)
}

fn replace_lit(cur: &Vec<char>, placeholder: &str, value: &Vec<char>) -> (r: Vec<char>)
    requires
        placeholder@.len() > 0,
    ensures
        r@ == replace_all(cur@, placeholder@, value@),
{
    replace_chars(cur, &str_to_chars(placeholder), value)
}

fn replace_lit_opt(cur: &Vec<char>, placeholder: &str, value: &Option<String>) -> (r: Vec<char>)
    requires
        placeholder@.len() > 0,
    ensures
        r@ == replace_opt(cur@, placeholder@, *value),
{
    match value {
        Some(v) => replace_lit(cur, placeholder, &str_to_chars(v.as_str())),
        None => {
            let mut copy: Vec<char> = Vec::new();
            push_all(&mut copy, cur);
            copy
        },
    }
}

/// Fills in a hook template, as `interpolated` says.
pub fn interpolate_template(template: &str, context: &HookContext) -> (r: String)
    ensures
        r@ == interpolated(template@, *context),
{
    proof {
        reveal_strlit("{{current_model}}");
        reveal_strlit("{{loop.current_model}}");
        reveal_strlit("{{step.output}}");
        reveal_strlit("{{iteration}}");
        reveal_strlit("{{loop.iteration}}");
        reveal_strlit("{{model.size}}");
        reveal_strlit("{{model.family}}");
        reveal_strlit("{{model.quantization}}");
    }
    let name = str_to_chars(context.step_name.as_str());
    let iteration = u64_to_chars(context.iteration as u64);
    let t = str_to_chars(template);
    let a = replace_lit(&t, "{{current_model}}", &name);
    let b = replace_lit(&a, "{{loop.current_model}}", &name);
    let d = replace_lit_opt(&b, "{{step.output}}", &context.output);
    let e = replace_lit(&d, "{{iteration}}", &iteration);
    let f = replace_lit(&e, "{{loop.iteration}}", &iteration);
    let g = replace_lit_opt(&f, "{{model.size}}", &context.model_size);
    let h = replace_lit_opt(&g, "{{model.family}}", &context.model_family);
    let k = replace_lit_opt(&h, "{{model.quantization}}", &context.model_quantization);
    chars_to_string(k.as_slice())
}

/// Parameter count named in a model name (lower-cased): 3b, 7b, 8b, 13b or
/// 70b, the first that occurs in that order.
pub open spec fn size_of_name(lower: Seq<char>) -> Option<Seq<char>> {
    if seq_contains(lower, "3b"@) {
        Some("3b"@)
    } else if seq_contains(lower, "7b"@) {
        Some("7b"@)
    } else if seq_contains(lower, "8b"@) {
        Some("8b"@)
    } else if seq_contains(lower, "13b"@) {
        Some("13b"@)
    } else if seq_contains(lower, "70b"@) {
        Some("70b"@)
    } else {
        None
    }
}

/// Model family a (lower-cased) name starts with.
pub open spec fn family_of_name(lower: Seq<char>) -> Option<Seq<char>> {
    if has_prefix(lower, "llama"@) {
        Some("llama"@)
    } else if has_prefix(lower, "qwen"@) {
        Some("qwen"@)
    } else if has_prefix(lower, "mistral"@) || has_prefix(lower, "ministral"@) {
        Some("mistral"@)
    } else if has_prefix(lower, "phi"@) {
        Some("phi"@)
    } else if has_prefix(lower, "gemma"@) {
        Some("gemma"@)
    } else {
        None
    }
}

/// The family is read off the start of the name: a name starting with
/// `llama`, `qwen`, `mistral` or `ministral`, `phi`, or `gemma` belongs to
/// that family (`ministral` to `mistral`), and a name starting with none
/// of them has no family.
pub proof fn lemma_family_by_prefix(lower: Seq<char>)
    ensures
        has_prefix(lower, "llama"@) ==> family_of_name(lower) == Some("llama"@),
        has_prefix(lower, "qwen"@) ==> family_of_name(lower) == Some("qwen"@),
        has_prefix(lower, "mistral"@) || has_prefix(lower, "ministral"@) ==> family_of_name(lower) == Some(
            "mistral"@,
        ),
        has_prefix(lower, "phi"@) ==> family_of_name(lower) == Some("phi"@),
        has_prefix(lower, "gemma"@) ==> family_of_name(lower) == Some("gemma"@),
        !has_prefix(lower, "llama"@) && !has_prefix(lower, "qwen"@) && !has_prefix(lower, "mistral"@)
            && !has_prefix(lower, "ministral"@) && !has_prefix(lower, "phi"@) && !has_prefix(lower, "gemma"@)
            ==> family_of_name(lower) is None,
{
    reveal_strlit("llama");
    reveal_strlit("qwen");
    reveal_strlit("mistral");
    reveal_strlit("ministral");
    reveal_strlit("phi");
    reveal_strlit("gemma");
    if lower.len() > 0 {
        let c = lower[0];
        if has_prefix(lower, "llama"@) {
            assert(lower.subrange(0, 5)[0] == "llama"@[0]);
            assert(c == 'l');
        }
        if has_prefix(lower, "qwen"@) {
            assert(lower.subrange(0, 4)[0] == "qwen"@[0]);
            assert(c == 'q');
        }
        if has_prefix(lower, "mistral"@) {
            assert(lower.subrange(0, 7)[0] == "mistral"@[0]);
            assert(c == 'm');
        }
        if has_prefix(lower, "ministral"@) {
            assert(lower.subrange(0, 9)[0] == "ministral"@[0]);
            assert(c == 'm');
        }
        if has_prefix(lower, "phi"@) {
            assert(lower.subrange(0, 3)[0] == "phi"@[0]);
            assert(c == 'p');
        }
        if has_prefix(lower, "gemma"@) {
            assert(lower.subrange(0, 5)[0] == "gemma"@[0]);
            assert(c == 'g');
        }
    }
}

/// Quantization named in a (lower-cased) model name.
pub open spec fn quantization_of_name(lower: Seq<char>) -> Option<Seq<char>> {
    if seq_contains(lower, "q4"@) {
        Some("q4"@)
    } else if seq_contains(lower, "q8"@) {
        Some("q8"@)
    } else if seq_contains(lower, "f16"@) {
        Some("f16"@)
    } else if seq_contains(lower, "f32"@) {
        Some("f32"@)
    } else {
        None
    }
}

/// `r` holds the text `o` describes.
pub open spec fn opt_text(r: Option<String>, o: Option<Seq<char>>) -> bool {
    match o {
        Some(t) => r matches Some(s) && s@ == t,
        None => r is None,
    }
}

fn starts_with_str(s: &Vec<char>, p: &str) -> (b: bool)
    ensures
        b == has_prefix(s@, p@),
{
    starts_with_chars(s, &str_to_chars(p))
}

/// Size, family and quantization read from a model name, compared in
/// lower case.
pub fn parse_model_metadata(model_name: &str) -> (r: (Option<String>, Option<String>, Option<String>))
    ensures
        opt_text(r.0, size_of_name(lowercase(model_name@))),
        opt_text(r.1, family_of_name(lowercase(model_name@))),
        opt_text(r.2, quantization_of_name(lowercase(model_name@))),
{
    let lower_s = to_lowercase(model_name);
    let lower = lower_s.as_str();
    let lv = str_to_chars(lower);
    let size = if str_contains(lower, "3b") {
        Some("3b".to_string())
    } else if str_contains(lower, "7b") {
        Some("7b".to_string())
    } else if str_contains(lower, "8b") {
        Some("8b".to_string())
    } else if str_contains(lower, "13b") {
        Some("13b".to_string())
    } else if str_contains(lower, "70b") {
        Some("70b".to_string())
    } else {
        None
    };
    let family = if starts_with_str(&lv, "llama") {
        Some("llama".to_string())
    } else if starts_with_str(&lv, "qwen") {
        Some("qwen".to_string())
    } else if starts_with_str(&lv, "mistral") || starts_with_str(&lv, "ministral") {
        Some("mistral".to_string())
    } else if starts_with_str(&lv, "phi") {
        Some("phi".to_string())
    } else if starts_with_str(&lv, "gemma") {
        Some("gemma".to_string())
    } else {
        None
    };
    let quantization = if str_contains(lower, "q4") {
        Some("q4".to_string())
    } else if str_contains(lower, "q8") {
        Some("q8".to_string())
    } else if str_contains(lower, "f16") {
        Some("f16".to_string())
    } else if str_contains(lower, "f32") {
        Some("f32".to_string())
    } else {
        None
    };
    (size, family, quantization)
}

/// A bookmark as hook templates see it: its whole value as text (a string
/// as is, anything else as JSON), and for an object each field's value as
/// text.
#[derive(Debug)]
pub struct Bookmark {
    pub key: String,
    pub text: String,
    pub fields: Vec<(String, String)>,
}

/// `{{bookmarks.KEY}}`.
pub open spec fn bookmark_placeholder(key: Seq<char>) -> Seq<char> {
    "{{bookmarks."@ + key + "}}"@
}

/// `{{bookmarks.KEY.FIELD }}` (with a space before the braces).
pub open spec fn field_placeholder_spaced(key: Seq<char>, field: Seq<char>) -> Seq<char> {
    "{{bookmarks."@ + key + "."@ + field + " }}"@
}

/// `{{bookmarks.KEY.FIELD}}`.
pub open spec fn field_placeholder(key: Seq<char>, field: Seq<char>) -> Seq<char> {
    "{{bookmarks."@ + key + "."@ + field + "}}"@
}

/// Each field's placeholders (spaced form first) replaced, in order.
pub open spec fn resolve_fields(t: Seq<char>, key: Seq<char>, fields: Seq<(String, String)>) -> Seq<char>
    decreases fields.len(),
{
    if fields.len() == 0 {
        t
    } else {
        let a = replace_all(t, field_placeholder_spaced(key, fields[0].0@), fields[0].1@);
        let b = replace_all(a, field_placeholder(key, fields[0].0@), fields[0].1@);
        resolve_fields(b, key, fields.drop_first())
    }
}

/// Each bookmark's placeholder replaced by its text, then its fields', in
/// order.
pub open spec fn resolve_bookmarks(t: Seq<char>, bookmarks: Seq<Bookmark>) -> Seq<char>
    decreases bookmarks.len(),
{
    if bookmarks.len() == 0 {
        t
    } else {
        let b = bookmarks[0];
        let a = replace_all(t, bookmark_placeholder(b.key@), b.text@);
        resolve_bookmarks(resolve_fields(a, b.key@, b.fields@), bookmarks.drop_first())
    }
}

fn bookmark_key_prefix(key: &str) -> (v: Vec<char>)
    ensures
        v@ == "{{bookmarks."@ + key@,
{
    let mut v: Vec<char> = Vec::new();
    push_str(&mut v, "{{bookmarks.");
    push_str(&mut v, key);
    v
}

fn resolve_fields_exec(cur: Vec<char>, key: &str, fields: &Vec<(String, String)>) -> (r: Vec<char>)
    ensures
        r@ == resolve_fields(cur@, key@, fields@),
{
    let mut cur = cur;
    let ghost start = cur@;
    let mut i: usize = 0;
    assert(fields@.skip(0) =~= fields@);
    while i < fields.len()
        invariant
            i <= fields@.len(),
            resolve_fields(start, key@, fields@) == resolve_fields(cur@, key@, fields@.skip(i as int)),
        decreases fields.len() - i,
    {
        proof {
            reveal_strlit("{{bookmarks.");
            assert(fields@.skip(i as int).drop_first() =~= fields@.skip(i + 1));
        }
        let mut spaced = bookmark_key_prefix(key);
        push_str(&mut spaced, ".");
        push_str(&mut spaced, fields[i].0.as_str());
        push_str(&mut spaced, " }}");
        let mut plain = bookmark_key_prefix(key);
        push_str(&mut plain, ".");
        push_str(&mut plain, fields[i].0.as_str());
        push_str(&mut plain, "}}");
        cur = replace_in(&cur, &spaced, fields[i].1.as_str());
        cur = replace_in(&cur, &plain, fields[i].1.as_str());
        i += 1;
    }
    cur
}

/// Replaces `{{bookmarks.KEY}}` by each bookmark's text and
/// `{{bookmarks.KEY.FIELD}}` (also written with a space before the closing
/// braces) by its fields' texts, as `resolve_bookmarks` says; unknown
/// bookmarks stay as written.
pub fn resolve_bookmark_templates(template: &str, bookmarks: &Vec<Bookmark>) -> (r: String)
    ensures
        r@ == resolve_bookmarks(template@, bookmarks@),
{
    let mut cur = str_to_chars(template);
    let mut i: usize = 0;
    assert(bookmarks@.skip(0) =~= bookmarks@);
    while i < bookmarks.len()
        invariant
            i <= bookmarks@.len(),
            resolve_bookmarks(template@, bookmarks@) == resolve_bookmarks(cur@, bookmarks@.skip(i as int)),
        decreases bookmarks.len() - i,
    {
        proof {
            reveal_strlit("{{bookmarks.");
            assert(bookmarks@.skip(i as int).drop_first() =~= bookmarks@.skip(i + 1));
        }
        let b = &bookmarks[i];
        let mut placeholder = bookmark_key_prefix(b.key.as_str());
        push_str(&mut placeholder, "}}");
        cur = replace_in(&cur, &placeholder, b.text.as_str());
        cur = resolve_fields_exec(cur, b.key.as_str(), &b.fields);
        i += 1;
    }
    chars_to_string(cur.as_slice())
}

/// A template without `{{` has no placeholder: resolving step outputs and
/// bookmarks leaves it as written.
pub proof fn lemma_plain_text_unchanged(t: Seq<char>, outputs: Seq<(String, String)>, bookmarks: Seq<Bookmark>)
    requires
        !seq_contains(t, "{{"@),
    ensures
        resolve_outputs(t, outputs) == t,
        resolve_bookmarks(t, bookmarks) == t,
{
    lemma_outputs_unchanged(t, outputs);
    lemma_bookmarks_unchanged(t, bookmarks);
}

proof fn lemma_outputs_unchanged(t: Seq<char>, outputs: Seq<(String, String)>)
    requires
        !seq_contains(t, "{{"@),
    ensures
        resolve_outputs(t, outputs) == t,
    decreases outputs.len(),
{
    if outputs.len() > 0 {
        reveal_strlit("{{");
        let p = output_placeholder(outputs[0].0@);
        reveal_strlit("{{step.");
        assert(p.subrange(0, 2) =~= "{{"@);
        lemma_replace_without_marker(t, "{{"@, p, outputs[0].1@);
        lemma_outputs_unchanged(t, outputs.drop_first());
    }
}

proof fn lemma_fields_unchanged(t: Seq<char>, key: Seq<char>, fields: Seq<(String, String)>)
    requires
        !seq_contains(t, "{{"@),
    ensures
        resolve_fields(t, key, fields) == t,
    decreases fields.len(),
{
    if fields.len() > 0 {
        reveal_strlit("{{");
        let f = fields[0].0@;
        let ps = field_placeholder_spaced(key, f);
        let pn = field_placeholder(key, f);
        reveal_strlit("{{bookmarks.");
        assert(ps.subrange(0, 2) =~= "{{"@);
        assert(pn.subrange(0, 2) =~= "{{"@);
        lemma_replace_without_marker(t, "{{"@, ps, fields[0].1@);
        lemma_replace_without_marker(t, "{{"@, pn, fields[0].1@);
        lemma_fields_unchanged(t, key, fields.drop_first());
    }
}

proof fn lemma_bookmarks_unchanged(t: Seq<char>, bookmarks: Seq<Bookmark>)
    requires
        !seq_contains(t, "{{"@),
    ensures
        resolve_bookmarks(t, bookmarks) == t,
    decreases bookmarks.len(),
{
    if bookmarks.len() > 0 {
        reveal_strlit("{{");
        let b = bookmarks[0];
        let p = bookmark_placeholder(b.key@);
        reveal_strlit("{{bookmarks.");
        assert(p.subrange(0, 2) =~= "{{"@);
        lemma_replace_without_marker(t, "{{"@, p, b.text@);
        lemma_fields_unchanged(t, b.key@, b.fields@);
        lemma_bookmarks_unchanged(t, bookmarks.drop_first());
    }
}

} // verus!
