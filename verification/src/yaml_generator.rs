//! Generation of benchmark workflow YAML for a set of models.

use vstd::prelude::*;
use crate::decimal::{decimal, u64_to_chars};
use crate::model_selector::ModelCandidate;
use crate::text::{chars_to_string, push_all, push_str, str_to_chars};

verus! {

/// Benchmark YAML generator.
pub struct BenchmarkYamlGenerator;

/// Error type of the generators; they never produce it.
#[derive(Debug)]
pub struct YamlFormatError;

/// One character as written inside a double-quoted YAML scalar: a
/// backslash, a double quote, a newline, a carriage return and a tab take
/// their YAML escape sequences; every other character stands for itself.
pub open spec fn escape_char(c: char) -> Seq<char> {
    if c == '\\' {
        seq!['\\', '\\']
    } else if c == '"' {
        seq!['\\', '"']
    } else if c == '\n' {
        seq!['\\', 'n']
    } else if c == '\r' {
        seq!['\\', 'r']
    } else if c == '\t' {
        seq!['\\', 't']
    } else {
        seq![c]
    }
}

/// A prompt as written inside a double-quoted YAML scalar by
/// `generate_benchmark_yaml`: each character escaped in turn.
pub open spec fn escape_prompt(p: Seq<char>) -> Seq<char>
    decreases p.len(),
{
    if p.len() == 0 {
        Seq::empty()
    } else {
        escape_prompt(p.drop_last()) + escape_char(p.last())
    }
}

/// The text that the body of a YAML double-quoted scalar stands for, as far
/// as the escapes `\\`, `\"`, `\n`, `\r` and `\t` go; any other character,
/// a lone backslash included, stands for itself.
pub open spec fn unescape_quoted(s: Seq<char>) -> Seq<char>
    decreases s.len(),
{
    if s.len() == 0 {
        Seq::empty()
    } else if s[0] == '\\' && s.len() >= 2 && (s[1] == '\\' || s[1] == '"' || s[1] == 'n'
        || s[1] == 'r' || s[1] == 't') {
        let c = if s[1] == 'n' {
            '\n'
        } else if s[1] == 'r' {
            '\r'
        } else if s[1] == 't' {
            '\t'
        } else {
            s[1]
        };
        seq![c] + unescape_quoted(s.skip(2))
    } else {
        seq![s[0]] + unescape_quoted(s.skip(1))
    }
}

/// Read as the body of a YAML double-quoted scalar from left to right
/// (a backslash takes the next character with it), `s` holds no double
/// quote of its own, so a scalar with this body ends at the quote after it.
pub open spec fn no_closing_quote(s: Seq<char>) -> bool
    decreases s.len(),
{
    if s.len() == 0 {
        true
    } else if s[0] == '\\' && s.len() >= 2 {
        no_closing_quote(s.skip(2))
    } else {
        s[0] != '"' && no_closing_quote(s.skip(1))
    }
}

proof fn lemma_escape_prepend(c: char, rest: Seq<char>)
    ensures
        escape_prompt(seq![c] + rest) == escape_char(c) + escape_prompt(rest),
    decreases rest.len(),
{
    if rest.len() == 0 {
        assert(seq![c] + rest =~= seq![c]);
        let one = seq![c];
        assert(one.len() == 1);
        assert(one.drop_last() =~= Seq::<char>::empty());
        assert(one.last() == c);
        assert(escape_prompt(Seq::<char>::empty()) == Seq::<char>::empty());
        assert(escape_prompt(one) =~= Seq::<char>::empty() + escape_char(c));
        assert(escape_char(c) + escape_prompt(rest) =~= escape_char(c));
    } else {
        let whole = seq![c] + rest;
        assert(whole.drop_last() =~= seq![c] + rest.drop_last());
        assert(whole.last() == rest.last());
        lemma_escape_prepend(c, rest.drop_last());
        assert(escape_prompt(whole) == escape_prompt(whole.drop_last()) + escape_char(whole.last()));
        assert(escape_prompt(whole) =~= escape_char(c) + escape_prompt(rest));
    }
}

/// What `generate_benchmark_yaml` writes between the quotes of a prompt
/// reads back, under YAML's double-quoted escapes, as exactly that prompt;
/// it holds no raw line break (the scalar stays on its one line) and no
/// double quote of its own (the scalar ends at its closing quote).
pub proof fn lemma_escaped_prompt_round_trip(p: Seq<char>)
    ensures
        unescape_quoted(escape_prompt(p)) == p,
        forall|i: int|
            0 <= i < escape_prompt(p).len() ==> #[trigger] escape_prompt(p)[i] != '\n'
                && escape_prompt(p)[i] != '\r',
        no_closing_quote(escape_prompt(p)),
    decreases p.len(),
{
    if p.len() == 0 {
        assert(unescape_quoted(escape_prompt(p)) =~= p);
    } else {
        let c = p[0];
        let rest = p.skip(1);
        assert(p =~= seq![c] + rest);
        lemma_escape_prepend(c, rest);
        lemma_escaped_prompt_round_trip(rest);
        let e = escape_char(c);
        let er = escape_prompt(rest);
        let whole = e + er;
        if e.len() == 2 {
            assert(whole.skip(2) =~= er);
        } else {
            assert(whole.skip(1) =~= er);
        }
        assert(unescape_quoted(whole) =~= seq![c] + unescape_quoted(er));
        assert forall|i: int| 0 <= i < whole.len() implies #[trigger] whole[i] != '\n'
            && whole[i] != '\r' by {
            if i >= e.len() {
                assert(whole[i] == er[i - e.len()]);
            }
        }
        assert(no_closing_quote(whole));
    }
}

/// Reads the body of a YAML double-quoted scalar up to its closing quote:
/// the text it stands for and how many characters it took, the closing
/// quote included; `None` when no closing quote comes.
pub open spec fn read_quoted(s: Seq<char>) -> Option<(Seq<char>, nat)>
    decreases s.len(),
{
    if s.len() == 0 {
        None
    } else if s[0] == '"' {
        Some((Seq::empty(), 1))
    } else if s[0] == '\\' && s.len() >= 2 && (s[1] == '\\' || s[1] == '"' || s[1] == 'n'
        || s[1] == 'r' || s[1] == 't') {
        let c = if s[1] == 'n' {
            '\n'
        } else if s[1] == 'r' {
            '\r'
        } else if s[1] == 't' {
            '\t'
        } else {
            s[1]
        };
        match read_quoted(s.skip(2)) {
            Some((v, k)) => Some((seq![c] + v, k + 2)),
            None => None,
        }
    } else {
        match read_quoted(s.skip(1)) {
            Some((v, k)) => Some((seq![s[0]] + v, k + 1)),
            None => None,
        }
    }
}

/// Reads up to `count` prompt items of a YAML block list, each written as
/// `    - "<escaped prompt>"` on a line of its own, and gives the prompts
/// they stand for.
pub open spec fn read_prompt_items(s: Seq<char>, count: nat) -> Seq<Seq<char>>
    decreases count,
{
    if count == 0 || !(s.len() >= 7 && s.subrange(0, 7) == "    - \""@) {
        Seq::empty()
    } else {
        match read_quoted(s.skip(7)) {
            Some((v, k)) => {
                let after = s.skip(7 + k as int);
                if after.len() >= 1 && after[0] == '\n' {
                    seq![v] + read_prompt_items(after.skip(1), (count - 1) as nat)
                } else {
                    seq![v]
                }
            },
            None => Seq::empty(),
        }
    }
}

/// The line `generate_benchmark_yaml` writes for one prompt.
pub open spec fn quoted_item(p: Seq<char>) -> Seq<char> {
    "    - \""@ + escape_prompt(p) + "\"\n"@
}

proof fn lemma_read_quoted_escaped(p: Seq<char>, rest: Seq<char>)
    ensures
        read_quoted(escape_prompt(p) + seq!['"'] + rest) == Some((p, escape_prompt(p).len() + 1)),
    decreases p.len(),
{
    if p.len() == 0 {
        assert(escape_prompt(p) + seq!['"'] + rest =~= seq!['"'] + rest);
        assert(Seq::<char>::empty() =~= p);
    } else {
        let c = p[0];
        let tail = p.skip(1);
        assert(p =~= seq![c] + tail);
        lemma_escape_prepend(c, tail);
        lemma_read_quoted_escaped(tail, rest);
        let e = escape_char(c);
        let x = escape_prompt(tail) + seq!['"'] + rest;
        let whole = escape_prompt(p) + seq!['"'] + rest;
        assert(whole =~= e + x);
        if e.len() == 2 {
            assert(whole.skip(2) =~= x);
        } else {
            assert(whole.skip(1) =~= x);
        }
        assert(seq![c] + tail =~= p);
    }
}

proof fn lemma_quoted_lines_front(ps: Seq<Seq<char>>)
    requires
        ps.len() > 0,
    ensures
        quoted_prompt_lines(ps) == quoted_item(ps[0]) + quoted_prompt_lines(ps.skip(1)),
    decreases ps.len(),
{
    if ps.len() == 1 {
        assert(ps.drop_last() =~= Seq::<Seq<char>>::empty());
        assert(ps.skip(1) =~= Seq::<Seq<char>>::empty());
        assert(ps.last() == ps[0]);
        assert(quoted_prompt_lines(Seq::<Seq<char>>::empty()) == Seq::<char>::empty());
        assert(quoted_prompt_lines(ps) =~= quoted_item(ps[0]));
        assert(quoted_item(ps[0]) + Seq::<char>::empty() =~= quoted_item(ps[0]));
    } else {
        lemma_quoted_lines_front(ps.drop_last());
        assert(ps.drop_last().skip(1) =~= ps.skip(1).drop_last());
        assert(ps.skip(1).last() == ps.last());
        assert(quoted_prompt_lines(ps) =~= quoted_item(ps[0]) + quoted_prompt_lines(ps.skip(1)));
    }
}

#[verifier::rlimit(50)]
proof fn lemma_prompt_lines_read_back(ps: Seq<Seq<char>>, tail: Seq<char>)
    ensures
        read_prompt_items(quoted_prompt_lines(ps) + tail, ps.len()) == ps,
    decreases ps.len(),
{
    reveal_strlit("    - \"");
    reveal_strlit("\"\n");
    if ps.len() == 0 {
        assert(ps =~= Seq::<Seq<char>>::empty());
    } else {
        lemma_quoted_lines_front(ps);
        let p = ps[0];
        let more = quoted_prompt_lines(ps.skip(1)) + tail;
        let s = quoted_prompt_lines(ps) + tail;
        assert(s =~= "    - \""@ + (escape_prompt(p) + seq!['"'] + (seq!['\n'] + more)));
        assert(s.subrange(0, 7) =~= "    - \""@);
        assert(s.skip(7) =~= escape_prompt(p) + seq!['"'] + (seq!['\n'] + more));
        lemma_read_quoted_escaped(p, seq!['\n'] + more);
        let k = escape_prompt(p).len() + 1;
        assert(s.skip(7 + k as int) =~= seq!['\n'] + more);
        assert(s.skip(7 + k as int).skip(1) =~= more);
        lemma_prompt_lines_read_back(ps.skip(1), tail);
        let m = (ps.len() - 1) as nat;
        assert(ps.skip(1).len() == m);
        assert(read_prompt_items(s, ps.len()) == seq![p] + read_prompt_items(more, m));
        assert(seq![p] + ps.skip(1) =~= ps);
    }
}

/// The text of `generate_benchmark_yaml`'s output before the prompt list.
pub open spec fn yaml_before_prompts(n: nat) -> Seq<char> {
    "workflow_id: benchmark_"@ + decimal(n) + "_models\nname: \""@ + decimal(n)
        + "-Model Benchmark Suite\"\ndescription: \"Sequential benchmark of "@ + decimal(n)
        + " diverse models from external drive\"\n"@ + YAML_FIXED_HEAD@
}

/// Reading the prompt list of the YAML that `generate_benchmark_yaml`
/// writes gives back exactly the prompts it was given, in order: each is
/// written as a double-quoted scalar on a line of its own whose escapes
/// decode to the prompt, whatever quotes, backslashes or line breaks it
/// holds.
pub proof fn lemma_benchmark_yaml_prompts_read_back(n: nat, prompts: Seq<Seq<char>>, max_tokens: nat)
    ensures
        benchmark_yaml(n, prompts, max_tokens).subrange(0, yaml_before_prompts(n).len() as int)
            == yaml_before_prompts(n),
        read_prompt_items(
            benchmark_yaml(n, prompts, max_tokens).skip(yaml_before_prompts(n).len() as int),
            prompts.len(),
        ) == prompts,
{
    let head = yaml_before_prompts(n);
    let tail = "  max_tokens: "@ + decimal(max_tokens) + YAML_DISCOVERY_PART@ + decimal(n) + YAML_TAIL@;
    let y = benchmark_yaml(n, prompts, max_tokens);
    assert(y =~= head + (quoted_prompt_lines(prompts) + tail));
    assert(y.subrange(0, head.len() as int) =~= head);
    assert(y.skip(head.len() as int) =~= quoted_prompt_lines(prompts) + tail);
    lemma_prompt_lines_read_back(prompts, tail);
}

/// Views of a slice of string slices.
pub open spec fn str_views(v: Seq<&str>) -> Seq<Seq<char>> {
    v.map_values(|s: &str| s@)
}

/// One quoted list item per prompt, in order.
pub open spec fn quoted_prompt_lines(prompts: Seq<Seq<char>>) -> Seq<char>
    decreases prompts.len(),
{
    if prompts.len() == 0 {
        Seq::empty()
    } else {
        quoted_prompt_lines(prompts.drop_last()) + "    - \""@ + escape_prompt(prompts.last())
            + "\"\n"@
    }
}

/// One bare list item per prompt, in order.
pub open spec fn plain_prompt_lines(prompts: Seq<Seq<char>>) -> Seq<char>
    decreases prompts.len(),
{
    if prompts.len() == 0 {
        Seq::empty()
    } else {
        plain_prompt_lines(prompts.drop_last()) + "    - "@ + prompts.last() + "\n"@
    }
}

/// The YAML produced by `generate_benchmark_yaml` for `n` models.
pub open spec fn benchmark_yaml(n: nat, prompts: Seq<Seq<char>>, max_tokens: nat) -> Seq<char> {
    "workflow_id: benchmark_"@ + decimal(n) + "_models\nname: \""@ + decimal(n)
        + "-Model Benchmark Suite\"\ndescription: \"Sequential benchmark of "@ + decimal(n)
        + " diverse models from external drive\"\n"@ + YAML_FIXED_HEAD@ + quoted_prompt_lines(
        prompts,
    ) + "  max_tokens: "@ + decimal(max_tokens) + YAML_DISCOVERY_PART@ + decimal(n)
        + YAML_TAIL@
}

/// Fixed text between the header and the prompt list.
pub const YAML_FIXED_HEAD: &'static str = "min_schema_version: \"2.0.0\"\n\nmodels:\n  primary:\n    provider: lmstudio\n    model: \"${benchmark.current_model}\"\n\nexecution:\n  mode: serial\n  memory:\n    max_allocated_memory_mb: 8192\n    model_memory_mb: 6144\n    unload_unused: true\n\nlogging:\n  global:\n    level: info\n    detail: medium\n    output_type: chat\n    format: json\n    console: true\n  performance_metrics:\n    level: debug\n    detail: very_high\n\nbenchmark:\n  prompts:\n";

/// Fixed text between `max_tokens` and the iteration count.
pub const YAML_DISCOVERY_PART: &'static str = "\n  temperature: 0.7\n  top_p: 0.9\n\nagentic_workflow:\n  - step: discover_models\n    id: discover\n    type: model_discovery\n    input:\n      models_dir: \"/run/media/jon/data/models\"\n      filter:\n        max_size_bytes: 6442450944\n        file_extension: \".gguf\"\n    output:\n      save_to: discovered_models\n\n  - step: benchmark_loop\n    id: bench_loop\n    loop:\n      count:\n        max_iterations: ";

/// Fixed text after the iteration count.
pub const YAML_TAIL: &'static str = "\n        iteration_variable: current_model\n    input:\n      model_path: \"{{loop.current_model}}\"\n      prompts: \"${benchmark.prompts}\"\n      max_tokens: \"${benchmark.max_tokens}\"\n    when:\n      before_step_starts:\n        log:\n          to_file_path: \"./workspace/logs/benchmark.log\"\n          event_fields: [step_name, loop_iteration, current_model]\n      after_step_succeeds:\n        append_to:\n          - \"./workspace/output/benchmark_results.yaml\"\n          - benchmark_collection\n      after_loop_iteration_fails:\n        log:\n          to_file_path: \"./workspace/logs/benchmark-errors.log\"\n          event_fields: [iteration, current_model, error_message]\n    output:\n      save_to: benchmark_results\n\n  - step: generate_report\n    id: report\n    input:\n      results: \"${step.bench_loop.output}\"\n    output:\n      save_to:\n        - final_report\n        - \"./workspace/output/benchmark_report.json\"\n";

fn push_decimal(out: &mut Vec<char>, n: u64)
    ensures
        final(out)@ == old(out)@ + decimal(n as nat),
{
    let d = u64_to_chars(n);
    push_all(out, &d);
}

fn push_escaped_char(out: &mut Vec<char>, c: char)
    ensures
        final(out)@ == old(out)@ + escape_char(c),
{
    if c == '\\' {
        out.push('\\');
        out.push('\\');
    } else if c == '"' {
        out.push('\\');
        out.push('"');
    } else if c == '\n' {
        out.push('\\');
        out.push('n');
    } else if c == '\r' {
        out.push('\\');
        out.push('r');
    } else if c == '\t' {
        out.push('\\');
        out.push('t');
    } else {
        out.push(c);
    }
    assert(out@ =~= old(out)@ + escape_char(c));
}

fn push_escaped(out: &mut Vec<char>, s: &str)
    ensures
        final(out)@ == old(out)@ + escape_prompt(s@),
{
    let v = str_to_chars(s);
    let mut i: usize = 0;
    assert(v@.subrange(0, 0) =~= Seq::<char>::empty());
    assert(old(out)@ + Seq::<char>::empty() =~= old(out)@);
    while i < v.len()
        invariant
            i <= v.len(),
            v@ == s@,
            out@ == old(out)@ + escape_prompt(v@.subrange(0, i as int)),
        decreases v.len() - i,
    {
        push_escaped_char(out, v[i]);
        proof {
            let sub = v@.subrange(0, i + 1);
            assert(sub.drop_last() =~= v@.subrange(0, i as int));
            assert(sub.last() == v@[i as int]);
            assert(out@ =~= old(out)@ + escape_prompt(sub));
        }
        i += 1;
    }
    assert(v@.subrange(0, v.len() as int) =~= v@);
}

fn push_quoted_prompts(out: &mut Vec<char>, prompts: &[&str])
    ensures
        final(out)@ == old(out)@ + quoted_prompt_lines(str_views(prompts@)),
{
    let mut i: usize = 0;
    assert(str_views(prompts@).subrange(0, 0) =~= Seq::<Seq<char>>::empty());
    assert(old(out)@ + Seq::<char>::empty() =~= old(out)@);
    while i < prompts.len()
        invariant
            i <= prompts.len(),
            out@ == old(out)@ + quoted_prompt_lines(str_views(prompts@).subrange(0, i as int)),
        decreases prompts.len() - i,
    {
        push_str(out, "    - \"");
        push_escaped(out, prompts[i]);
        push_str(out, "\"\n");
        proof {
            let sub = str_views(prompts@).subrange(0, i + 1);
            assert(sub.drop_last() =~= str_views(prompts@).subrange(0, i as int));
            assert(sub.last() == prompts@[i as int]@);
            assert(out@ =~= old(out)@ + quoted_prompt_lines(sub));
        }
        i += 1;
    }
    assert(str_views(prompts@).subrange(0, prompts.len() as int) =~= str_views(prompts@));
}

impl BenchmarkYamlGenerator {
    /// Benchmark workflow YAML for `models.len()` models: header, model and
    /// execution settings, the escaped prompts, and a discovery step
    /// followed by a loop over the models and a report step.
    pub fn generate_benchmark_yaml(
        _name: &str,
        models: &[ModelCandidate],
        prompts: &[&str],
        max_tokens: usize,
    ) -> (r: Result<String, YamlFormatError>)
        ensures
            r is Ok,
            r matches Ok(y) ==> y@ == benchmark_yaml(
                models@.len(),
                str_views(prompts@),
                max_tokens as nat,
            ),
    {
        let n = models.len() as u64;
        let mut out: Vec<char> = Vec::new();
        push_str(&mut out, "workflow_id: benchmark_");
        push_decimal(&mut out, n);
        push_str(&mut out, "_models\nname: \"");
        push_decimal(&mut out, n);
        push_str(&mut out, "-Model Benchmark Suite\"\ndescription: \"Sequential benchmark of ");
        push_decimal(&mut out, n);
        push_str(&mut out, " diverse models from external drive\"\n");
        push_str(&mut out, YAML_FIXED_HEAD);
        push_quoted_prompts(&mut out, prompts);
        push_str(&mut out, "  max_tokens: ");
        push_decimal(&mut out, max_tokens as u64);
        push_str(&mut out, YAML_DISCOVERY_PART);
        push_decimal(&mut out, n);
        push_str(&mut out, YAML_TAIL);
        assert(out@ =~= benchmark_yaml(models@.len(), str_views(prompts@), max_tokens as nat));
        Ok(chars_to_string(out.as_slice()))
    }
}

/// Text after the model list's header line, before the models.
pub const MODELS_YAML_MID: &'static str = "\"\nmin_schema_version: \"2.0.0\"\n\nbenchmark:\n  models:\n";

/// Fixed text between `max_tokens` and the iteration count, for embedded models.
pub const MODELS_YAML_SETTINGS: &'static str = "\n  temperature: 0.7\n  top_p: 0.9\n\nexecution:\n  mode: serial\n  memory:\n    max_allocated_memory_mb: 8192\n    model_memory_mb: 6144\n    unload_unused: true\n\nagentic_workflow:\n  - step: benchmark_loop\n    id: bench_loop\n    loop:\n      count:\n        max_iterations: ";

/// Fixed text after the iteration count, for embedded models.
pub const MODELS_YAML_TAIL: &'static str = "\n        iteration_variable: current_model\n    input:\n      model: \"${benchmark.models}\"\n      prompts: \"${benchmark.prompts}\"\n      max_tokens: \"${benchmark.max_tokens}\"\n    output:\n      save_to: benchmark_results\n\n";

/// Three lines per model: path, id and file size.
pub open spec fn model_entries(models: Seq<ModelCandidate>) -> Seq<char>
    decreases models.len(),
{
    if models.len() == 0 {
        Seq::empty()
    } else {
        let m = models.last();
        model_entries(models.drop_last()) + "    - path: \""@ + m.path@ + "\"\n      model_id: \""@
            + m.model_id@ + "\"\n      file_size_bytes: "@ + decimal(m.file_size_bytes as nat)
            + "\n"@
    }
}

/// The YAML produced by `generate_benchmark_yaml_with_models`.
pub open spec fn benchmark_yaml_with_models(
    models: Seq<ModelCandidate>,
    prompts: Seq<Seq<char>>,
    max_tokens: nat,
) -> Seq<char> {
    "workflow_id: benchmark_"@ + decimal(models.len()) + "_models\nname: \""@ + decimal(
        models.len(),
    ) + "-Model Benchmark Suite\"\ndescription: \"Sequential benchmark of "@ + decimal(models.len())
        + " diverse models"@ + MODELS_YAML_MID@ + model_entries(models) + "\n  prompts:\n"@
        + plain_prompt_lines(prompts) + "  max_tokens: "@ + decimal(max_tokens)
        + MODELS_YAML_SETTINGS@ + decimal(models.len()) + MODELS_YAML_TAIL@
}

fn push_model_entries(out: &mut Vec<char>, models: &[ModelCandidate])
    ensures
        final(out)@ == old(out)@ + model_entries(models@),
{
    let mut i: usize = 0;
    assert(models@.subrange(0, 0) =~= Seq::<ModelCandidate>::empty());
    assert(old(out)@ + Seq::<char>::empty() =~= old(out)@);
    while i < models.len()
        invariant
            i <= models.len(),
            out@ == old(out)@ + model_entries(models@.subrange(0, i as int)),
        decreases models.len() - i,
    {
        push_str(out, "    - path: \"");
        push_str(out, models[i].path.as_str());
        push_str(out, "\"\n      model_id: \"");
        push_str(out, models[i].model_id.as_str());
        push_str(out, "\"\n      file_size_bytes: ");
        push_decimal(out, models[i].file_size_bytes);
        push_str(out, "\n");
        proof {
            let sub = models@.subrange(0, i + 1);
            assert(sub.drop_last() =~= models@.subrange(0, i as int));
            assert(sub.last() == models@[i as int]);
            assert(out@ =~= old(out)@ + model_entries(sub));
        }
        i += 1;
    }
    assert(models@.subrange(0, models.len() as int) =~= models@);
}

fn push_plain_prompts(out: &mut Vec<char>, prompts: &[&str])
    ensures
        final(out)@ == old(out)@ + plain_prompt_lines(str_views(prompts@)),
{
    let mut i: usize = 0;
    assert(str_views(prompts@).subrange(0, 0) =~= Seq::<Seq<char>>::empty());
    assert(old(out)@ + Seq::<char>::empty() =~= old(out)@);
    while i < prompts.len()
        invariant
            i <= prompts.len(),
            out@ == old(out)@ + plain_prompt_lines(str_views(prompts@).subrange(0, i as int)),
        decreases prompts.len() - i,
    {
        push_str(out, "    - ");
        push_str(out, prompts[i]);
        push_str(out, "\n");
        proof {
            let sub = str_views(prompts@).subrange(0, i + 1);
            assert(sub.drop_last() =~= str_views(prompts@).subrange(0, i as int));
            assert(sub.last() == prompts@[i as int]@);
            assert(out@ =~= old(out)@ + plain_prompt_lines(sub));
        }
        i += 1;
    }
    assert(str_views(prompts@).subrange(0, prompts.len() as int) =~= str_views(prompts@));
}

impl BenchmarkYamlGenerator {
    /// Benchmark workflow YAML that embeds the given models (path, id and
    /// size of each) instead of a discovery step.
    pub fn generate_benchmark_yaml_with_models(
        _name: &str,
        models: &[ModelCandidate],
        prompts: &[&str],
        max_tokens: usize,
    ) -> (r: Result<String, YamlFormatError>)
        ensures
            r is Ok,
            r matches Ok(y) ==> y@ == benchmark_yaml_with_models(
                models@,
                str_views(prompts@),
                max_tokens as nat,
            ),
    {
        let n = models.len() as u64;
        let mut out: Vec<char> = Vec::new();
        push_str(&mut out, "workflow_id: benchmark_");
        push_decimal(&mut out, n);
        push_str(&mut out, "_models\nname: \"");
        push_decimal(&mut out, n);
        push_str(&mut out, "-Model Benchmark Suite\"\ndescription: \"Sequential benchmark of ");
        push_decimal(&mut out, n);
        push_str(&mut out, " diverse models");
        push_str(&mut out, MODELS_YAML_MID);
        push_model_entries(&mut out, models);
        push_str(&mut out, "\n  prompts:\n");
        push_plain_prompts(&mut out, prompts);
        push_str(&mut out, "  max_tokens: ");
        push_decimal(&mut out, max_tokens as u64);
        push_str(&mut out, MODELS_YAML_SETTINGS);
        push_decimal(&mut out, n);
        push_str(&mut out, MODELS_YAML_TAIL);
        assert(out@ =~= benchmark_yaml_with_models(models@, str_views(prompts@), max_tokens as nat));
        Ok(chars_to_string(out.as_slice()))
    }
}

/// `n` when a set of `available` candidates can fill a suite of `n`.
pub open spec fn size_if_fits(n: usize, available: nat) -> Seq<usize> {
    if n as nat <= available {
        seq![n]
    } else {
        Seq::empty()
    }
}

/// The suite sizes that a set of `available` candidates can fill, in
/// order: 3, 5, 15 and 50 models, each kept when there are that many.
pub open spec fn suite_sizes_spec(available: nat) -> Seq<usize> {
    size_if_fits(3, available) + size_if_fits(5, available) + size_if_fits(15, available) + size_if_fits(
        50,
        available,
    )
}

/// The suite sizes that `available` candidates can fill, as
/// `suite_sizes_spec` says.
pub fn suite_sizes(available: usize) -> (v: Vec<usize>)
    ensures
        v@ == suite_sizes_spec(available as nat),
{
    let mut v: Vec<usize> = Vec::new();
    if 3 <= available {
        v.push(3);
    }
    if 5 <= available {
        v.push(5);
    }
    if 15 <= available {
        v.push(15);
    }
    if 50 <= available {
        v.push(50);
    }
    assert(v@ =~= suite_sizes_spec(available as nat));
    v
}

/// The name of the benchmark suite for `n` models.
pub open spec fn suite_name(n: nat) -> Seq<char> {
    "benchmark-"@ + decimal(n) + "-models"@
}

/// The suite's name, as `suite_name` says, and its file name: the name
/// with `.yml`.
pub fn suite_names(n: usize) -> (r: (String, String))
    ensures
        r.0@ == suite_name(n as nat),
        r.1@ == suite_name(n as nat) + ".yml"@,
{
    let mut name: Vec<char> = Vec::new();
    push_str(&mut name, "benchmark-");
    push_decimal(&mut name, n as u64);
    push_str(&mut name, "-models");
    let base = chars_to_string(name.as_slice());
    push_str(&mut name, ".yml");
    (base, chars_to_string(name.as_slice()))
}

/// The `i`-th (from 1) placeholder model of a comparison suite.
pub open spec fn placeholder_model(c: ModelCandidate, i: nat) -> bool {
    &&& c.path@ == "/path/to/model_"@ + decimal(i) + ".gguf"@
    &&& c.model_id@ == "model_"@ + decimal(i)
    &&& c.file_size_bytes == 0
    &&& c.estimated_vram_bytes == 0
    &&& c.fits_in_vram
    &&& c.author@ == "placeholder"@
}

/// `count` placeholder models, numbered from 1.
pub fn placeholder_models(count: usize) -> (v: Vec<ModelCandidate>)
    requires
        count < u64::MAX,
    ensures
        v@.len() == count,
        forall|i: int| 0 <= i < count ==> placeholder_model(#[trigger] v@[i], (i + 1) as nat),
{
    let mut v: Vec<ModelCandidate> = Vec::new();
    let mut i: usize = 0;
    while i < count
        invariant
            i <= count < u64::MAX,
            v@.len() == i,
            forall|k: int| 0 <= k < i ==> placeholder_model(#[trigger] v@[k], (k + 1) as nat),
        decreases count - i,
    {
        let k = (i + 1) as u64;
        let mut path: Vec<char> = Vec::new();
        push_str(&mut path, "/path/to/model_");
        push_decimal(&mut path, k);
        push_str(&mut path, ".gguf");
        let mut id: Vec<char> = Vec::new();
        push_str(&mut id, "model_");
        push_decimal(&mut id, k);
        v.push(ModelCandidate {
            path: chars_to_string(path.as_slice()),
            model_id: chars_to_string(id.as_slice()),
            file_size_bytes: 0,
            estimated_vram_bytes: 0,
            fits_in_vram: true,
            author: "placeholder".to_string(),
        });
        i += 1;
    }
    v
}

} // verus!
