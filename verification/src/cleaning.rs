//! Cleaning model output: chat-template markers and markdown fences are
//! removed, and output that looks like JSON is cut down to the longest
//! form that parses.

use vstd::prelude::*;
use crate::text::{
    chars_to_string, find_chars, find_from, lemma_find_bounds, lowercase, occurs_at, push_all,
    replace_all, replace_chars, rfind, rfind_chars, seq_contains, slice_chars, str_to_chars,
    to_lowercase, trim, trim_chars, contains_chars,
};

verus! {

/// `s` is a JSON document (as `serde_json` reads one into a value).
pub uninterp spec fn is_json(s: Seq<char>) -> bool;

/// Whether a string parses as JSON.
///
/// Trusted: calls `serde_json::from_str::<serde_json::Value>`; the contract
/// names the outcome `is_json`, a function of the text alone.
#[verifier::external_body]
fn parses_as_json(s: &str) -> (b: bool)
    ensures
        b == is_json(s@),
{
    serde_json::from_str::<serde_json::Value>(s).is_ok()
}

fn chars_are_json(v: &Vec<char>) -> (b: bool)
    ensures
        b == is_json(v@),
{
    let s = chars_to_string(v.as_slice());
    parses_as_json(s.as_str())
}

/// A markdown code fence.
pub open spec fn fence() -> Seq<char> {
    seq!['`', '`', '`']
}

/// Chat-template start marker.
pub open spec fn im_start() -> Seq<char> {
    seq!['<', '|', 'i', 'm', '_', 's', 't', 'a', 'r', 't', '|', '>']
}

/// Chat-template end marker.
pub open spec fn im_end() -> Seq<char> {
    seq!['<', '|', 'i', 'm', '_', 'e', 'n', 'd', '|', '>']
}

/// Where the body of the first fenced block starts: the line break after
/// the opening fence, or just past the fence when no line break follows.
pub open spec fn opening_end(c: Seq<char>) -> int {
    let f = find_from(c, fence(), 0);
    let nl = find_from(c, seq!['\n'], f);
    if nl < 0 {
        f + 3
    } else {
        nl
    }
}

/// The trimmed body between the first fence (from the line after it) and
/// the last fence, where there is such a non-empty stretch.
pub open spec fn fenced_body(c: Seq<char>) -> Option<Seq<char>> {
    let f = find_from(c, fence(), 0);
    let oe = opening_end(c);
    if f < 0 || oe >= c.len() {
        None
    } else {
        let lf = rfind(c.subrange(oe, c.len() as int), fence());
        if lf >= 0 && oe + 1 < oe + lf {
            Some(trim(c.subrange(oe + 1, oe + lf)))
        } else {
            None
        }
    }
}

/// The fence body can be cut out of `c` at character boundaries: where no
/// line break follows the opening fence, the character just past it is
/// ASCII (the body starts one byte further on).
pub open spec fn fence_cut_ok(c: Seq<char>) -> bool {
    let f = find_from(c, fence(), 0);
    let oe = opening_end(c);
    f < 0 || oe >= c.len() || find_from(c, seq!['\n'], f) >= 0 || (c[oe] as int) < 128 || !(rfind(
        c.subrange(oe, c.len() as int),
        fence(),
    ) > 1)
}

fn fenced_body_exec(c: &Vec<char>) -> (r: Option<Vec<char>>)
    ensures
        match r {
            Some(b) => fenced_body(c@) == Some(b@),
            None => fenced_body(c@) is None,
        },
{
    let fence_v = vec!['`', '`', '`'];
    let newline = vec!['\n'];
    assert(fence_v@ =~= fence());
    assert(newline@ =~= seq!['\n']);
    proof {
        lemma_find_bounds(c@, fence(), 0);
    }
    let f = match find_chars(c, &fence_v, 0) {
        Some(f) => f,
        None => {
            return None;
        },
    };
    assert(fence().len() == 3);
    assert(occurs_at(c@, fence(), f as int));
    assert(f + 3 <= c.len());
    let past_fence: usize = f + 3;
    let oe = match find_chars(c, &newline, f) {
        Some(n) => n,
        None => past_fence,
    };
    if oe >= c.len() {
        return None;
    }
    let tail = slice_chars(c, oe, c.len());
    match rfind_chars(&tail, &fence_v) {
        Some(lf) => {
            proof {
                lemma_find_bounds(tail@, fence(), 0);
            }
            if oe + 1 < oe + lf {
                let body = slice_chars(c, oe + 1, oe + lf);
                Some(trim_chars(&body))
            } else {
                None
            }
        },
        None => None,
    }
}

fn strip_markers(c: &Vec<char>) -> (r: Vec<char>)
    ensures
        r@ == replace_all(replace_all(c@, im_start(), Seq::empty()), im_end(), Seq::empty()),
{
    let start = vec!['<', '|', 'i', 'm', '_', 's', 't', 'a', 'r', 't', '|', '>'];
    let end = vec!['<', '|', 'i', 'm', '_', 'e', 'n', 'd', '|', '>'];
    let none: Vec<char> = Vec::new();
    assert(start@ =~= im_start());
    assert(end@ =~= im_end());
    assert(none@ =~= Seq::<char>::empty());
    let a = replace_chars(c, &start, &none);
    replace_chars(&a, &end, &none)
}

/// JSON-looking model output reduced to its content: the fenced
/// body when there is one, otherwise the text without chat markers.
pub open spec fn clean_json(text: Seq<char>) -> Seq<char> {
    let c = trim(text);
    match fenced_body(c) {
        Some(b) => b,
        None => trim(replace_all(replace_all(c, im_start(), Seq::empty()), im_end(), Seq::empty())),
    }
}

/// Strips a model's output down to the fenced body, or failing that the
/// text without chat-template markers, trimmed.
pub fn clean_json_output(text: &str) -> (r: String)
    requires
        fence_cut_ok(trim(text@)),
    ensures
        r@ == clean_json(text@),
{
    let c = trim_chars(&str_to_chars(text));
    match fenced_body_exec(&c) {
        Some(b) => chars_to_string(b.as_slice()),
        None => {
            let stripped = strip_markers(&c);
            chars_to_string(trim_chars(&stripped).as_slice())
        },
    }
}

/// `t` starts with commas and then a closing bracket.
pub open spec fn commas_then_closer(t: Seq<char>) -> bool
    decreases t.len(),
{
    t.len() > 0 && (t[0] == '}' || t[0] == ']' || (t[0] == ',' && commas_then_closer(t.drop_first())))
}

/// `s` without the commas that stand (through more commas only) before a
/// closing bracket.
pub open spec fn strip_trailing_commas(s: Seq<char>) -> Seq<char>
    decreases s.len(),
{
    if s.len() == 0 {
        s
    } else if s[0] == ',' && commas_then_closer(s.drop_first()) {
        strip_trailing_commas(s.drop_first())
    } else {
        seq![s[0]] + strip_trailing_commas(s.drop_first())
    }
}

fn commas_then_closer_at(s: &Vec<char>, from: usize) -> (b: bool)
    requires
        from <= s@.len(),
    ensures
        b == commas_then_closer(s@.skip(from as int)),
{
    let mut i = from;
    while i < s.len() && s[i] == ','
        invariant
            from <= i <= s@.len(),
            commas_then_closer(s@.skip(from as int)) == commas_then_closer(s@.skip(i as int)),
        decreases s.len() - i,
    {
        assert(s@.skip(i as int).drop_first() =~= s@.skip(i + 1));
        i += 1;
    }
    i < s.len() && (s[i] == '}' || s[i] == ']')
}

fn strip_trailing_commas_exec(s: &Vec<char>) -> (out: Vec<char>)
    ensures
        out@ == strip_trailing_commas(s@),
{
    let mut out: Vec<char> = Vec::new();
    let mut k: usize = 0;
    assert(s@.skip(0) =~= s@);
    while k < s.len()
        invariant
            k <= s@.len(),
            strip_trailing_commas(s@) == out@ + strip_trailing_commas(s@.skip(k as int)),
        decreases s.len() - k,
    {
        assert(s@.skip(k as int).drop_first() =~= s@.skip(k + 1));
        let drop = s[k] == ',' && commas_then_closer_at(s, k + 1);
        if !drop {
            out.push(s[k]);
            assert(out@ + strip_trailing_commas(s@.skip(k + 1)) =~= old_out_plus(out@, s@, k));
        }
        k += 1;
    }
    assert(s@.skip(k as int) =~= Seq::<char>::empty());
    assert(out@ + Seq::<char>::empty() =~= out@);
    out
}

spec fn old_out_plus(out: Seq<char>, s: Seq<char>, k: usize) -> Seq<char> {
    out + strip_trailing_commas(s.skip(k + 1))
}

/// Model output after removing chat markers and unwrapping a fenced block.
pub open spec fn unwrapped_response(text: Seq<char>) -> Seq<char> {
    let c0 = trim(replace_all(replace_all(trim(text), im_start(), Seq::empty()), im_end(), Seq::empty()));
    match fenced_body(c0) {
        Some(b) => b,
        None => c0,
    }
}

/// Model output cleaned for use: unwrapped; then, if it starts like JSON
/// but does not parse, cut after its last `}` or else its last `]` where
/// that parses, or else stripped of trailing commas where that parses.
pub open spec fn clean_response(text: Seq<char>) -> Seq<char> {
    let c = unwrapped_response(text);
    if c.len() > 0 && (c[0] == '{' || c[0] == '[') && !is_json(c) {
        let lb = rfind(c, seq!['}']);
        let lk = rfind(c, seq![']']);
        if lb >= 0 && is_json(c.subrange(0, lb + 1)) {
            c.subrange(0, lb + 1)
        } else if lk >= 0 && is_json(c.subrange(0, lk + 1)) {
            c.subrange(0, lk + 1)
        } else if is_json(strip_trailing_commas(c)) {
            strip_trailing_commas(c)
        } else {
            c
        }
    } else {
        c
    }
}

/// Cleans a model response, as `clean_response` says.
pub fn clean_response_text(text: &str) -> (r: String)
    requires
        fence_cut_ok(
            trim(replace_all(replace_all(trim(text@), im_start(), Seq::empty()), im_end(), Seq::empty())),
        ),
    ensures
        r@ == clean_response(text@),
{
    let t = trim_chars(&str_to_chars(text));
    let c0 = trim_chars(&strip_markers(&t));
    let c = match fenced_body_exec(&c0) {
        Some(b) => b,
        None => c0,
    };
    if c.len() > 0 && (c[0] == '{' || c[0] == '[') {
        if chars_are_json(&c) {
            return chars_to_string(c.as_slice());
        }
        let brace = vec!['}'];
        let bracket = vec![']'];
        assert(brace@ =~= seq!['}']);
        assert(bracket@ =~= seq![']']);
        proof {
            lemma_find_bounds(c@, seq!['}'], 0);
            lemma_find_bounds(c@, seq![']'], 0);
        }
        if let Some(lb) = rfind_chars(&c, &brace) {
            let cut = slice_chars(&c, 0, lb + 1);
            if chars_are_json(&cut) {
                return chars_to_string(cut.as_slice());
            }
        }
        if let Some(lk) = rfind_chars(&c, &bracket) {
            let cut = slice_chars(&c, 0, lk + 1);
            if chars_are_json(&cut) {
                return chars_to_string(cut.as_slice());
            }
        }
        let stripped = strip_trailing_commas_exec(&c);
        if chars_are_json(&stripped) {
            return chars_to_string(stripped.as_slice());
        }
    }
    chars_to_string(c.as_slice())
}

fn fence_cut_check(c: &Vec<char>) -> (b: bool)
    ensures
        b == fence_cut_ok(c@),
{
    let fence_v = vec!['`', '`', '`'];
    let newline = vec!['\n'];
    assert(fence_v@ =~= fence());
    assert(newline@ =~= seq!['\n']);
    proof {
        lemma_find_bounds(c@, fence(), 0);
    }
    let f = match find_chars(c, &fence_v, 0) {
        Some(f) => f,
        None => {
            return true;
        },
    };
    assert(fence().len() == 3);
    assert(occurs_at(c@, fence(), f as int));
    assert(f + 3 <= c.len());
    if find_chars(c, &newline, f).is_some() {
        return true;
    }
    let oe: usize = f + 3;
    if oe >= c.len() {
        return true;
    }
    if c[oe] <= '\u{7f}' {
        return true;
    }
    let tail = slice_chars(c, oe, c.len());
    match rfind_chars(&tail, &fence_v) {
        Some(lf) => !(lf > 1),
        None => true,
    }
}

/// The text whose fenced block `clean_response_text` cuts out.
pub open spec fn response_fence_text(text: Seq<char>) -> Seq<char> {
    trim(replace_all(replace_all(trim(text), im_start(), Seq::empty()), im_end(), Seq::empty()))
}

/// Cleans a model response, as `clean_response` says, where its fenced
/// block can be cut out at character boundaries; `None` where it cannot.
pub fn clean_response_checked(text: &str) -> (r: Option<String>)
    ensures
        r is Some <==> fence_cut_ok(response_fence_text(text@)),
        r matches Some(c) ==> c@ == clean_response(text@),
{
    let t = trim_chars(&str_to_chars(text));
    let c0 = trim_chars(&strip_markers(&t));
    if fence_cut_check(&c0) {
        Some(clean_response_text(text))
    } else {
        None
    }
}

/// Some refusal pattern occurs in the output, compared in lower case.
pub open spec fn refusal_found(output: Seq<char>, patterns: Seq<String>) -> bool {
    exists|i: int|
        0 <= i < patterns.len() && seq_contains(lowercase(output), #[trigger] lowercase(patterns[i]@))
}

/// Whether the output matches a refusal pattern (case-insensitively): such
/// output scores zero.
pub fn refusal_detected(output: &str, patterns: &Vec<String>) -> (b: bool)
    ensures
        b == refusal_found(output@, patterns@),
{
    let lower = str_to_chars(to_lowercase(output).as_str());
    let mut i: usize = 0;
    while i < patterns.len()
        invariant
            i <= patterns@.len(),
            lower@ == lowercase(output@),
            forall|k: int| 0 <= k < i ==> !seq_contains(lowercase(output@), #[trigger] lowercase(patterns@[k]@)),
        decreases patterns.len() - i,
    {
        let p = str_to_chars(to_lowercase(patterns[i].as_str()).as_str());
        if contains_chars(&lower, &p) {
            return true;
        }
        i += 1;
    }
    false
}

} // verus!
