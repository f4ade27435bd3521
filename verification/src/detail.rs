//! Per-model markdown detail pages for benchmark results, rendered from a
//! template: scalar placeholders such as `{{model_id}}`, and an optional
//! `{{#each inference}}...{{/each}}` block repeated for every inference.
//! Figures with decimals arrive already written out.

use vstd::prelude::*;
use crate::decimal::{decimal, u64_to_chars};
use crate::text::{
    chars_to_string, find_chars, find_from, lemma_find_bounds, occurs_at, push_all, push_str,
    replace_all, replace_chars, slice_chars, str_to_chars,
};

verus! {

/// The template used when a workflow sets none.
pub const DEFAULT_DETAIL_TEMPLATE: &'static str = "# Model Detail: {{model_id}}\n\n## Summary\n\n| Metric | Value |\n|--------|-------|\n| Model ID | {{model_id}} |\n| Model Path | {{model_path}} |\n| File Size | {{file_size_mb}} MB |\n| Total Prompts | {{inference_count}} |\n| Successful | {{inference_count}} |\n| Failed | 0 |\n| Load Duration | {{load_duration_secs}}s |\n| Unload Duration | {{unload_duration_secs}}s |\n| Total Duration | {{total_duration_secs}}s |\n| Tokens/Second | {{tokens_per_second}} |\n| Avg Latency | {{avg_latency_ms}}ms |\n| P50 Latency | {{p50_latency_ms}}ms |\n| P95 Latency | {{p95_latency_ms}}ms |\n| P99 Latency | {{p99_latency_ms}}ms |\n| GPU Mode | {{gpu_mode}} |\n{{speedup_row}}{{error_row}}\n## Prompt Results\n\n{{#each inference}}### Prompt {{index}}\n\n- **Input**: {{prompt_preview}}\n- **Duration**: {{duration_secs}}s\n- **Tokens**: {{prompt_tokens}} prompt + {{completion_tokens}} completion = {{total_tokens}} total\n- **Speed**: {{tokens_per_second}} tokens/sec\n- **Output Preview**: {{response_preview}}\n\n#### Full Response\n\n```\n{{response_full}}\n```\n\n{{/each}}";

/// One inference of a model's benchmark, figures written out.
#[derive(Debug)]
pub struct InferenceFigures {
    pub prompt: String,
    pub response_text: String,
    pub prompt_tokens: u64,
    pub completion_tokens: u64,
    pub total_tokens: u64,
    /// Seconds, to two decimals.
    pub duration_secs: String,
    /// Tokens per second, to two decimals.
    pub tokens_per_second: String,
}

/// A model's benchmark result, figures written out.
#[derive(Debug)]
pub struct DetailFigures {
    pub model_id: String,
    pub model_path: String,
    pub file_size_bytes: u64,
    /// File size in MiB, to two decimals.
    pub file_size_mb: String,
    pub load_duration_secs: String,
    pub unload_duration_secs: String,
    pub total_duration_secs: String,
    pub tokens_per_second: String,
    pub avg_latency_ms: String,
    pub p50_latency_ms: String,
    pub p95_latency_ms: String,
    pub p99_latency_ms: String,
    pub gpu_mode: String,
    /// The GPU over CPU speedup, to two decimals, where measured.
    pub speedup_factor: Option<String>,
    pub error: Option<String>,
    pub inferences: Vec<InferenceFigures>,
}

/// Bytes a character takes in UTF-8.
pub open spec fn utf8_len(c: char) -> nat {
    if (c as int) < 0x80 {
        1
    } else if (c as int) < 0x800 {
        2
    } else if (c as int) < 0x10000 {
        3
    } else {
        4
    }
}

/// Bytes a string takes in UTF-8.
pub open spec fn byte_len(s: Seq<char>) -> nat
    decreases s.len(),
{
    if s.len() == 0 {
        0
    } else {
        byte_len(s.drop_last()) + utf8_len(s.last())
    }
}

/// A string can be cut after `max` bytes: it is no longer, or a character
/// ends exactly there.
pub open spec fn cut_ok(s: Seq<char>, max: nat) -> bool {
    byte_len(s) <= max || exists|k: int| 0 <= k <= s.len() && #[trigger] byte_len(s.subrange(0, k)) == max
}

/// The first `max` bytes of a string, followed by `...` where it was
/// longer.
pub open spec fn preview(s: Seq<char>, max: nat) -> Seq<char> {
    if byte_len(s) <= max {
        s
    } else {
        let k = choose|k: int| 0 <= k <= s.len() && #[trigger] byte_len(s.subrange(0, k)) == max;
        s.subrange(0, k) + "..."@
    }
}

fn char_utf8_len(c: char) -> (n: usize)
    ensures
        n == utf8_len(c),
{
    let v = c as u32;
    if v < 0x80 {
        1
    } else if v < 0x800 {
        2
    } else if v < 0x10000 {
        3
    } else {
        4
    }
}

proof fn lemma_byte_len_grows(s: Seq<char>, a: int, b: int)
    requires
        0 <= a < b <= s.len(),
    ensures
        byte_len(s.subrange(0, a)) < byte_len(s.subrange(0, b)),
    decreases b - a,
{
    assert(s.subrange(0, b).drop_last() =~= s.subrange(0, b - 1));
    if a < b - 1 {
        lemma_byte_len_grows(s, a, b - 1);
    }
}

fn byte_count(chars: &Vec<char>) -> (n: u128)
    ensures
        n == byte_len(chars@),
{
    let mut n: u128 = 0;
    let mut k: usize = 0;
    while k < chars.len()
        invariant
            k <= chars@.len(),
            n == byte_len(chars@.subrange(0, k as int)),
            n <= 4 * k,
        decreases chars.len() - k,
    {
        assert(chars@.subrange(0, k + 1).drop_last() =~= chars@.subrange(0, k as int));
        n = n + char_utf8_len(chars[k]) as u128;
        k += 1;
    }
    assert(chars@.subrange(0, k as int) =~= chars@);
    n
}

/// The first `max` bytes of `s` and `...` where `s` is longer.
pub fn truncate_preview(s: &str, max: usize) -> (r: String)
    requires
        cut_ok(s@, max as nat),
    ensures
        r@ == preview(s@, max as nat),
{
    let chars = str_to_chars(s);
    let total = byte_count(&chars);
    if total <= max as u128 {
        return s.to_string();
    }
    let ghost j = choose|k: int| 0 <= k <= s@.len() && #[trigger] byte_len(s@.subrange(0, k)) == max;
    let mut k: usize = 0;
    let mut acc: u128 = 0;
    assert(chars@.subrange(0, 0) =~= Seq::<char>::empty());
    while acc < max as u128
        invariant
            chars@ == s@,
            0 <= j <= s@.len(),
            byte_len(s@.subrange(0, j)) == max,
            k <= j,
            acc == byte_len(chars@.subrange(0, k as int)),
            acc <= max,
        decreases j - k,
    {
        assert(k < j);
        assert(chars@.subrange(0, k + 1).drop_last() =~= chars@.subrange(0, k as int));
        proof {
            if k + 1 < j {
                lemma_byte_len_grows(s@, k + 1, j);
            }
        }
        acc = acc + char_utf8_len(chars[k]) as u128;
        k += 1;
    }
    proof {
        if k < j {
            lemma_byte_len_grows(s@, k as int, j);
        }
    }
    assert(k == j);
    let mut out = slice_chars(&chars, 0, k);
    push_str(&mut out, "...");
    chars_to_string(out.as_slice())
}

/// `{{speedup_factor}}`: the factor and `x`, or nothing.
pub open spec fn speedup_text(o: Option<String>) -> Seq<char> {
    match o {
        Some(v) => v@ + "x"@,
        None => Seq::empty(),
    }
}

/// The text, or nothing.
pub open spec fn text_or_empty(o: Option<String>) -> Seq<char> {
    match o {
        Some(v) => v@,
        None => Seq::empty(),
    }
}

/// The summary table's speedup row, where there is a speedup.
pub open spec fn speedup_row(o: Option<String>) -> Seq<char> {
    match o {
        Some(v) => "| Speedup Factor | "@ + v@ + "x |\n"@,
        None => Seq::empty(),
    }
}

/// The summary table's error row, where there is an error.
pub open spec fn error_row(o: Option<String>) -> Seq<char> {
    match o {
        Some(e) => "| Error | "@ + e@ + " |\n"@,
        None => Seq::empty(),
    }
}

/// A template with the model's scalar placeholders filled in, in the
/// order: identity, sizes, durations, rates, latencies, GPU mode,
/// inference count, speedup, error, then the optional table rows.
pub open spec fn scalars(t: Seq<char>, f: DetailFigures) -> Seq<char> {
    let a = replace_all(t, "{{model_id}}"@, f.model_id@);
    let a = replace_all(a, "{{model_path}}"@, f.model_path@);
    let a = replace_all(a, "{{file_size_bytes}}"@, decimal(f.file_size_bytes as nat));
    let a = replace_all(a, "{{file_size_mb}}"@, f.file_size_mb@);
    let a = replace_all(a, "{{load_duration_secs}}"@, f.load_duration_secs@);
    let a = replace_all(a, "{{unload_duration_secs}}"@, f.unload_duration_secs@);
    let a = replace_all(a, "{{total_duration_secs}}"@, f.total_duration_secs@);
    let a = replace_all(a, "{{tokens_per_second}}"@, f.tokens_per_second@);
    let a = replace_all(a, "{{avg_latency_ms}}"@, f.avg_latency_ms@);
    let a = replace_all(a, "{{p50_latency_ms}}"@, f.p50_latency_ms@);
    let a = replace_all(a, "{{p95_latency_ms}}"@, f.p95_latency_ms@);
    let a = replace_all(a, "{{p99_latency_ms}}"@, f.p99_latency_ms@);
    let a = replace_all(a, "{{gpu_mode}}"@, f.gpu_mode@);
    let a = replace_all(a, "{{inference_count}}"@, decimal(f.inferences@.len()));
    let a = replace_all(a, "{{speedup_factor}}"@, speedup_text(f.speedup_factor));
    let a = replace_all(a, "{{error}}"@, text_or_empty(f.error));
    let a = replace_all(a, "{{speedup_row}}"@, speedup_row(f.speedup_factor));
    replace_all(a, "{{error_row}}"@, error_row(f.error))
}

/// One inference's block, numbered from 1.
pub open spec fn inference_block(body: Seq<char>, inf: InferenceFigures, index: nat) -> Seq<char> {
    let a = replace_all(body, "{{index}}"@, decimal(index + 1));
    let a = replace_all(a, "{{prompt_preview}}"@, preview(inf.prompt@, 100));
    let a = replace_all(a, "{{response_preview}}"@, preview(inf.response_text@, 200));
    let a = replace_all(a, "{{response_full}}"@, inf.response_text@);
    let a = replace_all(a, "{{duration_secs}}"@, inf.duration_secs@);
    let a = replace_all(a, "{{prompt_tokens}}"@, decimal(inf.prompt_tokens as nat));
    let a = replace_all(a, "{{completion_tokens}}"@, decimal(inf.completion_tokens as nat));
    let a = replace_all(a, "{{total_tokens}}"@, decimal(inf.total_tokens as nat));
    replace_all(a, "{{tokens_per_second}}"@, inf.tokens_per_second@)
}

/// The blocks of the given inferences, one after another.
pub open spec fn blocks(body: Seq<char>, infs: Seq<InferenceFigures>) -> Seq<char>
    decreases infs.len(),
{
    if infs.len() == 0 {
        Seq::empty()
    } else {
        blocks(body, infs.drop_last()) + inference_block(body, infs.last(), (infs.len() - 1) as nat)
    }
}

/// The repeated part: every inference's block, or a note that there were
/// none.
pub open spec fn repeated(body: Seq<char>, infs: Seq<InferenceFigures>) -> Seq<char> {
    if infs.len() == 0 {
        "No inference results available.\n"@
    } else {
        blocks(body, infs)
    }
}

/// Where the loop block opens, or -1.
pub open spec fn each_open(t: Seq<char>) -> int {
    find_from(t, "{{#each inference}}"@, 0)
}

/// Where the loop block closes, or -1.
pub open spec fn each_close(t: Seq<char>) -> int {
    find_from(t, "{{/each}}"@, 0)
}

/// The loop markers can be cut at: not both present with the closing one
/// before the end of the opening one.
pub open spec fn markers_ok(t: Seq<char>) -> bool {
    !(each_open(t) >= 0 && each_close(t) >= 0 && each_close(t) < each_open(t) + 19)
}

/// Every preview can be cut at a character boundary.
pub open spec fn previews_ok(f: DetailFigures) -> bool {
    forall|i: int|
        0 <= i < f.inferences@.len() ==> cut_ok(#[trigger] f.inferences@[i].prompt@, 100) && cut_ok(
            f.inferences@[i].response_text@,
            200,
        )
}

/// A detail page: where the template has a loop block, the scalars around
/// it filled in and the block repeated per inference; otherwise the
/// template's scalars filled in.
pub open spec fn rendered(t: Seq<char>, f: DetailFigures) -> Seq<char> {
    let st = each_open(t);
    let en = each_close(t);
    if st >= 0 && en >= 0 {
        scalars(t.subrange(0, st), f) + repeated(t.subrange(st + 19, en), f.inferences@) + scalars(
            t.subrange(en + 9, t.len() as int),
            f,
        )
    } else {
        scalars(t, f)
    }
}

fn put(cur: &Vec<char>, placeholder: &str, value: &Vec<char>) -> (r: Vec<char>)
    requires
        placeholder@.len() > 0,
    ensures
        r@ == replace_all(cur@, placeholder@, value@),
{
    replace_chars(cur, &str_to_chars(placeholder), value)
}

fn put_str(cur: &Vec<char>, placeholder: &str, value: &str) -> (r: Vec<char>)
    requires
        placeholder@.len() > 0,
    ensures
        r@ == replace_all(cur@, placeholder@, value@),
{
    replace_chars(cur, &str_to_chars(placeholder), &str_to_chars(value))
}

fn optional_text(prefix: &str, value: &Option<String>, suffix: &str) -> (r: Vec<char>)
    ensures
        r@ == match *value {
            Some(v) => prefix@ + v@ + suffix@,
            None => Seq::empty(),
        },
{
    let mut out: Vec<char> = Vec::new();
    match value {
        Some(v) => {
            push_str(&mut out, prefix);
            push_str(&mut out, v.as_str());
            push_str(&mut out, suffix);
        },
        None => {},
    }
    out
}

fn substitute_scalars(t: &Vec<char>, f: &DetailFigures) -> (r: Vec<char>)
    ensures
        r@ == scalars(t@, *f),
{
    proof {
        reveal_strlit("{{model_id}}");
        reveal_strlit("{{model_path}}");
        reveal_strlit("{{file_size_bytes}}");
        reveal_strlit("{{file_size_mb}}");
        reveal_strlit("{{load_duration_secs}}");
        reveal_strlit("{{unload_duration_secs}}");
        reveal_strlit("{{total_duration_secs}}");
        reveal_strlit("{{tokens_per_second}}");
        reveal_strlit("{{avg_latency_ms}}");
        reveal_strlit("{{p50_latency_ms}}");
        reveal_strlit("{{p95_latency_ms}}");
        reveal_strlit("{{p99_latency_ms}}");
        reveal_strlit("{{gpu_mode}}");
        reveal_strlit("{{inference_count}}");
        reveal_strlit("{{speedup_factor}}");
        reveal_strlit("{{error}}");
        reveal_strlit("{{speedup_row}}");
        reveal_strlit("{{error_row}}");
        reveal_strlit("");
    }
    let a = put_str(t, "{{model_id}}", f.model_id.as_str());
    let a = put_str(&a, "{{model_path}}", f.model_path.as_str());
    let a = put(&a, "{{file_size_bytes}}", &u64_to_chars(f.file_size_bytes));
    let a = put_str(&a, "{{file_size_mb}}", f.file_size_mb.as_str());
    let a = put_str(&a, "{{load_duration_secs}}", f.load_duration_secs.as_str());
    let a = put_str(&a, "{{unload_duration_secs}}", f.unload_duration_secs.as_str());
    let a = put_str(&a, "{{total_duration_secs}}", f.total_duration_secs.as_str());
    let a = put_str(&a, "{{tokens_per_second}}", f.tokens_per_second.as_str());
    let a = put_str(&a, "{{avg_latency_ms}}", f.avg_latency_ms.as_str());
    let a = put_str(&a, "{{p50_latency_ms}}", f.p50_latency_ms.as_str());
    let a = put_str(&a, "{{p95_latency_ms}}", f.p95_latency_ms.as_str());
    let a = put_str(&a, "{{p99_latency_ms}}", f.p99_latency_ms.as_str());
    let a = put_str(&a, "{{gpu_mode}}", f.gpu_mode.as_str());
    let a = put(&a, "{{inference_count}}", &u64_to_chars(f.inferences.len() as u64));
    let a = put(&a, "{{speedup_factor}}", &optional_text("", &f.speedup_factor, "x"));
    assert(optional_text_spec("", f.speedup_factor, "x") =~= speedup_text(f.speedup_factor));
    let a = put(&a, "{{error}}", &optional_text("", &f.error, ""));
    assert(optional_text_spec("", f.error, "") =~= text_or_empty(f.error));
    let a = put(&a, "{{speedup_row}}", &optional_text("| Speedup Factor | ", &f.speedup_factor, "x |\n"));
    put(&a, "{{error_row}}", &optional_text("| Error | ", &f.error, " |\n"))
}

spec fn optional_text_spec(prefix: &str, value: Option<String>, suffix: &str) -> Seq<char> {
    match value {
        Some(v) => prefix@ + v@ + suffix@,
        None => Seq::empty(),
    }
}

fn render_inference_block(body: &Vec<char>, inf: &InferenceFigures, index: usize) -> (r: Vec<char>)
    requires
        cut_ok(inf.prompt@, 100),
        cut_ok(inf.response_text@, 200),
        index < u64::MAX,
    ensures
        r@ == inference_block(body@, *inf, index as nat),
{
    proof {
        reveal_strlit("{{index}}");
        reveal_strlit("{{prompt_preview}}");
        reveal_strlit("{{response_preview}}");
        reveal_strlit("{{response_full}}");
        reveal_strlit("{{duration_secs}}");
        reveal_strlit("{{prompt_tokens}}");
        reveal_strlit("{{completion_tokens}}");
        reveal_strlit("{{total_tokens}}");
        reveal_strlit("{{tokens_per_second}}");
    }
    let prompt_preview = truncate_preview(inf.prompt.as_str(), 100);
    let response_preview = truncate_preview(inf.response_text.as_str(), 200);
    let a = put(body, "{{index}}", &u64_to_chars(index as u64 + 1));
    let a = put_str(&a, "{{prompt_preview}}", prompt_preview.as_str());
    let a = put_str(&a, "{{response_preview}}", response_preview.as_str());
    let a = put_str(&a, "{{response_full}}", inf.response_text.as_str());
    let a = put_str(&a, "{{duration_secs}}", inf.duration_secs.as_str());
    let a = put(&a, "{{prompt_tokens}}", &u64_to_chars(inf.prompt_tokens));
    let a = put(&a, "{{completion_tokens}}", &u64_to_chars(inf.completion_tokens));
    let a = put(&a, "{{total_tokens}}", &u64_to_chars(inf.total_tokens));
    put_str(&a, "{{tokens_per_second}}", inf.tokens_per_second.as_str())
}

fn render_repeated(body: &Vec<char>, f: &DetailFigures) -> (r: Vec<char>)
    requires
        previews_ok(*f),
    ensures
        r@ == repeated(body@, f.inferences@),
{
    let mut out: Vec<char> = Vec::new();
    if f.inferences.len() == 0 {
        push_str(&mut out, "No inference results available.\n");
        return out;
    }
    let mut i: usize = 0;
    assert(f.inferences@.subrange(0, 0) =~= Seq::<InferenceFigures>::empty());
    while i < f.inferences.len()
        invariant
            i <= f.inferences@.len(),
            previews_ok(*f),
            out@ == blocks(body@, f.inferences@.subrange(0, i as int)),
        decreases f.inferences.len() - i,
    {
        assert(f.inferences@.subrange(0, i + 1).drop_last() =~= f.inferences@.subrange(0, i as int));
        assert(f.inferences@.subrange(0, i + 1).last() == f.inferences@[i as int]);
        assert(cut_ok(f.inferences@[i as int].prompt@, 100));
        let block = render_inference_block(body, &f.inferences[i], i);
        push_all(&mut out, &block);
        i += 1;
    }
    assert(f.inferences@.subrange(0, i as int) =~= f.inferences@);
    out
}

fn find_marker(t: &Vec<char>, marker: &str) -> (r: Option<usize>)
    ensures
        match r {
            Some(i) => i as int == find_from(t@, marker@, 0) && occurs_at(t@, marker@, i as int),
            None => find_from(t@, marker@, 0) == -1,
        },
{
    proof {
        lemma_find_bounds(t@, marker@, 0);
    }
    find_chars(t, &str_to_chars(marker), 0)
}

/// Renders a detail page, as `rendered` says.
pub fn render_detail(template: &str, figures: &DetailFigures) -> (r: String)
    requires
        markers_ok(template@),
        previews_ok(*figures),
    ensures
        r@ == rendered(template@, *figures),
{
    proof {
        reveal_strlit("{{#each inference}}");
        reveal_strlit("{{/each}}");
    }
    let t = str_to_chars(template);
    match (find_marker(&t, "{{#each inference}}"), find_marker(&t, "{{/each}}")) {
        (Some(start), Some(end)) => {
            assert(end + 9 <= t.len());
            assert(start + 19 <= t.len());
            let prefix = slice_chars(&t, 0, start);
            let body = slice_chars(&t, start + 19, end);
            let suffix = slice_chars(&t, end + 9, t.len());
            let mut out = substitute_scalars(&prefix, figures);
            push_all(&mut out, &render_repeated(&body, figures));
            push_all(&mut out, &substitute_scalars(&suffix, figures));
            chars_to_string(out.as_slice())
        },
        _ => chars_to_string(substitute_scalars(&t, figures).as_slice()),
    }
}

/// Writes per-model detail pages with a template of the workflow's
/// choosing.
#[derive(Debug)]
pub struct DetailGenerator {
    output_dir: String,
    template: Option<String>,
}

/// A model id made safe as a file name: `/` and `\` made `_`, `.gguf`
/// dropped, and `.` made `_`.
pub open spec fn safe_name_of(model_id: Seq<char>) -> Seq<char> {
    let a = model_id.map_values(|c: char| if c == '/' || c == '\\' { '_' } else { c });
    let b = replace_all(a, ".gguf"@, Seq::empty());
    b.map_values(|c: char| if c == '.' { '_' } else { c })
}

/// The file name a model's detail page is written to: `detail-<safe id>.md`.
pub open spec fn detail_file_name_of(model_id: Seq<char>) -> Seq<char> {
    "detail-"@ + safe_name_of(model_id) + ".md"@
}

impl DetailGenerator {
    /// The directory pages are written to.
    pub closed spec fn dir(&self) -> Seq<char> {
        self.output_dir@
    }

    /// The template set for the workflow, if any.
    pub closed spec fn custom_template(&self) -> Option<String> {
        self.template
    }

    /// A generator writing to `output_dir` with the given template (the
    /// default one where none is given).
    pub fn new(output_dir: &str, template: Option<String>) -> (g: DetailGenerator)
        ensures
            g.dir() == output_dir@,
            g.custom_template() == template,
    {
        DetailGenerator { output_dir: output_dir.to_string(), template }
    }

    /// The directory pages are written to.
    pub fn output_dir(&self) -> (s: &String)
        ensures
            s@ == self.dir(),
    {
        &self.output_dir
    }

    /// The template in use: the workflow's, else the default.
    pub fn template_text(&self) -> (t: &str)
        ensures
            t@ == match self.custom_template() {
                Some(c) => c@,
                None => DEFAULT_DETAIL_TEMPLATE@,
            },
    {
        match &self.template {
            Some(t) => t.as_str(),
            None => DEFAULT_DETAIL_TEMPLATE,
        }
    }

    /// A model's detail page: the template in use rendered with the
    /// model's figures (where its loop markers are out of order, which the
    /// default template's are not, only its scalars are filled in).
    pub fn generate_model_detail(&self, figures: &DetailFigures) -> (r: String)
        requires
            self.custom_template() matches Some(c) ==> markers_ok(c@),
            previews_ok(*figures),
        ensures
            ({
                let t = match self.custom_template() {
                    Some(c) => c@,
                    None => DEFAULT_DETAIL_TEMPLATE@,
                };
                if markers_ok(t) {
                    r@ == rendered(t, *figures)
                } else {
                    r@ == scalars(t, *figures)
                }
            }),
    {
        let t = self.template_text();
        if markers_in_order(t) {
            render_detail(t, figures)
        } else {
            chars_to_string(substitute_scalars(&str_to_chars(t), figures).as_slice())
        }
    }
}

fn markers_in_order(t: &str) -> (b: bool)
    ensures
        b == markers_ok(t@),
{
    let v = str_to_chars(t);
    match (find_marker(&v, "{{#each inference}}"), find_marker(&v, "{{/each}}")) {
        (Some(start), Some(end)) => {
            proof {
                reveal_strlit("{{#each inference}}");
            }
            assert(start + 19 <= v.len());
            end >= start + 19
        },
        _ => true,
    }
}

/// A model id made safe as a file name, as `safe_name_of` says.
pub fn safe_model_name(model_id: &str) -> (name: String)
    ensures
        name@ == safe_name_of(model_id@),
{
    proof {
        reveal_strlit(".gguf");
    }
    let id = str_to_chars(model_id);
    let mut a: Vec<char> = Vec::new();
    let mut i: usize = 0;
    while i < id.len()
        invariant
            i <= id@.len(),
            a@ == id@.subrange(0, i as int).map_values(|c: char| if c == '/' || c == '\\' { '_' } else { c }),
        decreases id.len() - i,
    {
        let c = id[i];
        a.push(if c == '/' || c == '\\' { '_' } else { c });
        i += 1;
        assert(a@ =~= id@.subrange(0, i as int).map_values(|c: char| if c == '/' || c == '\\' { '_' } else { c }));
    }
    assert(id@.subrange(0, id@.len() as int) =~= id@);
    let nothing: Vec<char> = Vec::new();
    assert(nothing@ =~= Seq::<char>::empty());
    let b = put(&a, ".gguf", &nothing);
    let mut c: Vec<char> = Vec::new();
    let mut j: usize = 0;
    while j < b.len()
        invariant
            j <= b@.len(),
            c@ == b@.subrange(0, j as int).map_values(|ch: char| if ch == '.' { '_' } else { ch }),
        decreases b.len() - j,
    {
        let ch = b[j];
        c.push(if ch == '.' { '_' } else { ch });
        j += 1;
        assert(c@ =~= b@.subrange(0, j as int).map_values(|ch: char| if ch == '.' { '_' } else { ch }));
    }
    assert(b@.subrange(0, b@.len() as int) =~= b@);
    chars_to_string(c.as_slice())
}

/// The file name a model's detail page is written to, as
/// `detail_file_name_of` says.
pub fn detail_file_name(model_id: &str) -> (name: String)
    ensures
        name@ == detail_file_name_of(model_id@),
{
    let safe = safe_model_name(model_id);
    let mut out: Vec<char> = Vec::new();
    push_str(&mut out, "detail-");
    push_str(&mut out, safe.as_str());
    push_str(&mut out, ".md");
    chars_to_string(out.as_slice())
}

} // verus!
