//! Diverse model selection: candidates are bucketed into size tiers, each
//! tier receives a share of the requested count proportional to its size,
//! and within a tier models are picked for architecture and author
//! diversity.

use vstd::prelude::*;
use crate::text::{
    char_is_white_space, chars_to_string, is_white_space, lowercase, seq_contains, slice_chars,
    str_contains, str_to_chars, to_lowercase, trim_start,
};

verus! {

/// Size tiers by GGUF file size (a proxy for parameter count).
#[derive(Debug, Clone, Copy, PartialEq, Eq, Hash, Structural)]
pub enum SizeTier {
    Tiny,
    Small,
    Medium,
    Large,
}

/// Tier of a file of `size` bytes: up to 1.5 GB tiny, 3 GB small, 4 GB
/// medium; everything larger is large.
pub open spec fn tier_for_size(size: u64) -> SizeTier {
    if size <= 1_500_000_000 {
        SizeTier::Tiny
    } else if size <= 3_000_000_000 {
        SizeTier::Small
    } else if size <= 4_000_000_000 {
        SizeTier::Medium
    } else {
        SizeTier::Large
    }
}

/// Position of a tier in the order tiny, small, medium, large.
pub open spec fn tier_rank(t: SizeTier) -> nat {
    match t {
        SizeTier::Tiny => 0,
        SizeTier::Small => 1,
        SizeTier::Medium => 2,
        SizeTier::Large => 3,
    }
}

/// The tier at a given position of that order.
pub open spec fn tier_at(r: nat) -> SizeTier {
    if r == 0 {
        SizeTier::Tiny
    } else if r == 1 {
        SizeTier::Small
    } else if r == 2 {
        SizeTier::Medium
    } else {
        SizeTier::Large
    }
}

/// Upper size bound of a tier, in bytes.
pub open spec fn tier_max_bytes(t: SizeTier) -> u64 {
    match t {
        SizeTier::Tiny => 1_500_000_000,
        SizeTier::Small => 3_000_000_000,
        SizeTier::Medium => 4_000_000_000,
        SizeTier::Large => 6_000_000_000,
    }
}

impl SizeTier {
    /// Tier for a file size in bytes.
    pub fn from_file_size(file_size_bytes: u64) -> (t: SizeTier)
        ensures
            t == tier_for_size(file_size_bytes),
    {
        if file_size_bytes <= 1_500_000_000 {
            SizeTier::Tiny
        } else if file_size_bytes <= 3_000_000_000 {
            SizeTier::Small
        } else if file_size_bytes <= 4_000_000_000 {
            SizeTier::Medium
        } else {
            SizeTier::Large
        }
    }

    /// Largest file size (bytes) that belongs to this tier.
    pub fn max_size_bytes(&self) -> (b: u64)
        ensures
            b == tier_max_bytes(*self),
    {
        match self {
            SizeTier::Tiny => 1_500_000_000,
            SizeTier::Small => 3_000_000_000,
            SizeTier::Medium => 4_000_000_000,
            SizeTier::Large => 6_000_000_000,
        }
    }
}

/// A model file that may be benchmarked.
#[derive(Debug, PartialEq, Eq)]
pub struct ModelCandidate {
    pub path: String,
    pub model_id: String,
    pub file_size_bytes: u64,
    pub estimated_vram_bytes: u64,
    pub fits_in_vram: bool,
    pub author: String,
}

/// A field-by-field copy of a candidate.
pub fn copy_candidate(c: &ModelCandidate) -> (r: ModelCandidate)
    ensures
        r == *c,
{
    ModelCandidate {
        path: c.path.clone(),
        model_id: c.model_id.clone(),
        file_size_bytes: c.file_size_bytes,
        estimated_vram_bytes: c.estimated_vram_bytes,
        fits_in_vram: c.fits_in_vram,
        author: c.author.clone(),
    }
}

/// The characters of `s` up to (not including) its first white space.
pub open spec fn leading_word(s: Seq<char>) -> Seq<char>
    decreases s.len(),
{
    if s.len() == 0 || is_white_space(s[0]) {
        Seq::empty()
    } else {
        seq![s[0]] + leading_word(s.skip(1))
    }
}

/// First white-space separated word of `s`, or "Unknown" when there is none.
pub open spec fn first_word_or_unknown(s: Seq<char>) -> Seq<char> {
    if trim_start(s).len() == 0 {
        "Unknown"@
    } else {
        leading_word(trim_start(s))
    }
}

/// Architecture family named by a model id: known families are detected
/// case-insensitively, in a fixed priority order; otherwise the first word.
pub open spec fn arch_name(model_id: Seq<char>) -> Seq<char> {
    let lower = lowercase(model_id);
    if seq_contains(lower, "qwen"@) {
        "Qwen"@
    } else if seq_contains(lower, "llama"@) || seq_contains(lower, "llama2"@) || seq_contains(
        lower,
        "llama3"@,
    ) {
        "Llama"@
    } else if seq_contains(lower, "mistral"@) {
        "Mistral"@
    } else if seq_contains(lower, "gemma"@) {
        "Gemma"@
    } else if seq_contains(lower, "phi"@) {
        "Phi"@
    } else if seq_contains(lower, "falcon"@) {
        "Falcon"@
    } else if seq_contains(lower, "granite"@) {
        "Granite"@
    } else if seq_contains(lower, "yi"@) {
        "Yi"@
    } else if seq_contains(lower, "deepseek"@) {
        "DeepSeek"@
    } else if seq_contains(lower, "internlm"@) {
        "InternLM"@
    } else {
        first_word_or_unknown(model_id)
    }
}

fn first_word_or_unknown_exec(s: &str) -> (r: String)
    ensures
        r@ == first_word_or_unknown(s@),
{
    let v = str_to_chars(s);
    let mut a: usize = 0;
    assert(v@.skip(0) =~= v@);
    while a < v.len() && char_is_white_space(v[a])
        invariant
            a <= v.len(),
            trim_start(v@) == trim_start(v@.skip(a as int)),
        decreases v.len() - a,
    {
        assert(v@.skip(a as int).skip(1) =~= v@.skip(a + 1));
        a += 1;
    }
    assert(trim_start(v@) == v@.skip(a as int)) by {
        if a == v.len() {
            assert(v@.skip(a as int).len() == 0);
        }
    }
    if a == v.len() {
        return String::from_str("Unknown");
    }
    let mut b = a;
    while b < v.len() && !char_is_white_space(v[b])
        invariant
            a <= b <= v.len(),
            leading_word(v@.skip(a as int)) == v@.subrange(a as int, b as int) + leading_word(
                v@.skip(b as int),
            ),
        decreases v.len() - b,
    {
        assert(v@.skip(b as int).skip(1) =~= v@.skip(b + 1));
        assert(v@.subrange(a as int, b + 1) =~= v@.subrange(a as int, b as int) + seq![v@[b as int]]);
        b += 1;
    }
    proof {
        if b < v.len() {
            assert(v@.skip(b as int)[0] == v@[b as int]);
        }
        assert(leading_word(v@.skip(b as int)) =~= Seq::<char>::empty());
        assert(v@.subrange(a as int, b as int) + Seq::<char>::empty() =~= v@.subrange(
            a as int,
            b as int,
        ));
    }
    let w = slice_chars(&v, a, b);
    chars_to_string(w.as_slice())
}

impl ModelSelector {
    /// Architecture family of a model id (see `arch_name`).
    pub fn extract_architecture(model_id: &str) -> (r: String)
        ensures
            r@ == arch_name(model_id@),
    {
        let lower = to_lowercase(model_id);
        let l = lower.as_str();
        if str_contains(l, "qwen") {
            return String::from_str("Qwen");
        }
        if str_contains(l, "llama") || str_contains(l, "llama2") || str_contains(l, "llama3") {
            return String::from_str("Llama");
        }
        if str_contains(l, "mistral") {
            return String::from_str("Mistral");
        }
        if str_contains(l, "gemma") {
            return String::from_str("Gemma");
        }
        if str_contains(l, "phi") {
            return String::from_str("Phi");
        }
        if str_contains(l, "falcon") {
            return String::from_str("Falcon");
        }
        if str_contains(l, "granite") {
            return String::from_str("Granite");
        }
        if str_contains(l, "yi") {
            return String::from_str("Yi");
        }
        if str_contains(l, "deepseek") {
            return String::from_str("DeepSeek");
        }
        if str_contains(l, "internlm") {
            return String::from_str("InternLM");
        }
        first_word_or_unknown_exec(model_id)
    }
}

/// Tier-diverse, architecture-diverse, author-diverse model selection.
pub struct ModelSelector;

/// Architecture family of a candidate.
pub open spec fn arch_of(c: ModelCandidate) -> Seq<char> {
    arch_name(c.model_id@)
}

/// Number of candidates in `cs` whose architecture is `a`.
pub open spec fn count_arch(cs: Seq<ModelCandidate>, a: Seq<char>) -> nat
    decreases cs.len(),
{
    if cs.len() == 0 {
        0
    } else {
        count_arch(cs.drop_last(), a) + if arch_of(cs.last()) == a {
            1nat
        } else {
            0nat
        }
    }
}

/// Number of candidates in `cs` by author `a`.
pub open spec fn count_author(cs: Seq<ModelCandidate>, a: Seq<char>) -> nat
    decreases cs.len(),
{
    if cs.len() == 0 {
        0
    } else {
        count_author(cs.drop_last(), a) + if cs.last().author@ == a {
            1nat
        } else {
            0nat
        }
    }
}

/// The model id names a Q4_K_M quantization.
pub open spec fn is_q4_variant(c: ModelCandidate) -> bool {
    seq_contains(c.model_id@, "Q4_K_M"@) || seq_contains(c.model_id@, "q4km"@)
}

/// The model id names an instruct or chat variant.
pub open spec fn is_instruct_variant(c: ModelCandidate) -> bool {
    seq_contains(c.model_id@, "instruct"@) || seq_contains(c.model_id@, "chat"@)
}

/// Ranking key within a tier: rarer architecture first, then rarer author,
/// then Q4_K_M before other quantizations, then instruct/chat before base.
pub open spec fn diversity_key(all: Seq<ModelCandidate>, c: ModelCandidate) -> (nat, nat, bool, bool) {
    (
        count_arch(all, arch_of(c)),
        count_author(all, c.author@),
        !is_q4_variant(c),
        !is_instruct_variant(c),
    )
}

/// Lexicographic order on ranking keys (`false` before `true`).
pub open spec fn key_le(a: (nat, nat, bool, bool), b: (nat, nat, bool, bool)) -> bool {
    ||| a.0 < b.0
    ||| a.0 == b.0 && a.1 < b.1
    ||| a.0 == b.0 && a.1 == b.1 && !a.2 && b.2
    ||| a.0 == b.0 && a.1 == b.1 && a.2 == b.2 && (!a.3 || b.3)
}

/// Inserts `x` into `s` after every element whose key is at most `x`'s.
pub open spec fn insert_by_key(s: Seq<ModelCandidate>, x: ModelCandidate, all: Seq<ModelCandidate>) -> Seq<ModelCandidate>
    decreases s.len(),
{
    if s.len() == 0 {
        seq![x]
    } else if key_le(diversity_key(all, s.last()), diversity_key(all, x)) {
        s.push(x)
    } else {
        insert_by_key(s.drop_last(), x, all).push(s.last())
    }
}

/// Stable sort of `s` by ranking key (insertion sort).
pub open spec fn sort_by_key(s: Seq<ModelCandidate>, all: Seq<ModelCandidate>) -> Seq<ModelCandidate>
    decreases s.len(),
{
    if s.len() == 0 {
        Seq::empty()
    } else {
        insert_by_key(sort_by_key(s.drop_last(), all), s.last(), all)
    }
}

/// Greedy pass over the ranked candidates: once at least `n/2` models are
/// chosen, an architecture already chosen is skipped unless four distinct
/// architectures are already represented.
pub open spec fn greedy_pick(
    scored: Seq<ModelCandidate>,
    n: nat,
    i: nat,
    sel: Seq<ModelCandidate>,
    used: Seq<Seq<char>>,
) -> Seq<ModelCandidate>
    decreases scored.len() - i,
{
    if i >= scored.len() || sel.len() >= n {
        sel
    } else {
        let c = scored[i as int];
        let a = arch_of(c);
        let allow_repeat = used.len() >= 4 || sel.len() < n / 2;
        if !allow_repeat && used.contains(a) {
            greedy_pick(scored, n, i + 1, sel, used)
        } else {
            greedy_pick(
                scored,
                n,
                i + 1,
                sel.push(c),
                if used.contains(a) {
                    used
                } else {
                    used.push(a)
                },
            )
        }
    }
}

/// File paths of a sequence of candidates.
pub open spec fn paths_of(s: Seq<ModelCandidate>) -> Seq<Seq<char>> {
    s.map_values(|c: ModelCandidate| c.path@)
}

/// Tops `sel` up to `n` with candidates (in input order) whose path was not
/// among the `taken` paths.
pub open spec fn fill_up(
    cands: Seq<ModelCandidate>,
    n: nat,
    i: nat,
    sel: Seq<ModelCandidate>,
    taken: Seq<Seq<char>>,
) -> Seq<ModelCandidate>
    decreases cands.len() - i,
{
    if i >= cands.len() || sel.len() >= n {
        sel
    } else if taken.contains(cands[i as int].path@) {
        fill_up(cands, n, i + 1, sel, taken)
    } else {
        fill_up(cands, n, i + 1, sel.push(cands[i as int]), taken)
    }
}

/// Selection of `n` candidates from one tier.
pub open spec fn select_in_tier(cands: Seq<ModelCandidate>, n: nat) -> Seq<ModelCandidate> {
    if cands.len() == 0 || n == 0 {
        Seq::empty()
    } else if n >= cands.len() {
        cands
    } else {
        let g = greedy_pick(sort_by_key(cands, cands), n, 0, Seq::empty(), Seq::empty());
        if g.len() < n {
            fill_up(cands, n, 0, g, paths_of(g))
        } else {
            g
        }
    }
}

/// Views of a vector of strings.
pub open spec fn string_views(v: Seq<String>) -> Seq<Seq<char>> {
    v.map_values(|s: String| s@)
}

fn contains_string(v: &Vec<String>, x: &String) -> (b: bool)
    ensures
        b == string_views(v@).contains(x@),
{
    let mut k: usize = 0;
    while k < v.len()
        invariant
            k <= v.len(),
            forall|j: int| 0 <= j < k ==> v@[j]@ != x@,
        decreases v.len() - k,
    {
        if v[k] == *x {
            assert(string_views(v@)[k as int] == x@);
            return true;
        }
        k += 1;
    }
    assert forall|j: int| 0 <= j < string_views(v@).len() implies string_views(v@)[j] != x@ by {
        assert(string_views(v@)[j] == v@[j]@);
    }
    false
}

proof fn lemma_count_arch_step(cs: Seq<ModelCandidate>, a: Seq<char>, k: int)
    requires
        0 <= k < cs.len(),
    ensures
        count_arch(cs.subrange(0, k + 1), a) == count_arch(cs.subrange(0, k), a) + if arch_of(
            cs[k],
        ) == a {
            1nat
        } else {
            0nat
        },
{
    assert(cs.subrange(0, k + 1).drop_last() =~= cs.subrange(0, k));
}

proof fn lemma_count_author_step(cs: Seq<ModelCandidate>, a: Seq<char>, k: int)
    requires
        0 <= k < cs.len(),
    ensures
        count_author(cs.subrange(0, k + 1), a) == count_author(cs.subrange(0, k), a) + if cs[k].author@
            == a {
            1nat
        } else {
            0nat
        },
{
    assert(cs.subrange(0, k + 1).drop_last() =~= cs.subrange(0, k));
}

type ExecKey = (usize, usize, bool, bool);

/// Exec keys as spec keys.
pub open spec fn key_view(k: (usize, usize, bool, bool)) -> (nat, nat, bool, bool) {
    (k.0 as nat, k.1 as nat, k.2, k.3)
}

fn exec_key_le(a: &ExecKey, b: &ExecKey) -> (r: bool)
    ensures
        r == key_le(key_view(*a), key_view(*b)),
{
    a.0 < b.0 || (a.0 == b.0 && a.1 < b.1) || (a.0 == b.0 && a.1 == b.1 && !a.2 && b.2) || (a.0
        == b.0 && a.1 == b.1 && a.2 == b.2 && (!a.3 || b.3))
}

/// Keys and architectures of every candidate.
fn candidate_keys(cands: &Vec<ModelCandidate>) -> (res: (Vec<ExecKey>, Vec<String>))
    ensures
        res.0.len() == cands.len(),
        res.1.len() == cands.len(),
        forall|j: int|
            0 <= j < cands.len() ==> key_view(#[trigger] res.0@[j]) == diversity_key(
                cands@,
                cands@[j],
            ),
        forall|j: int| 0 <= j < cands.len() ==> (#[trigger] res.1@[j])@ == arch_of(cands@[j]),
{
    let mut archs: Vec<String> = Vec::new();
    let mut i: usize = 0;
    while i < cands.len()
        invariant
            i <= cands.len(),
            archs.len() == i,
            forall|j: int| 0 <= j < i ==> (#[trigger] archs@[j])@ == arch_of(cands@[j]),
        decreases cands.len() - i,
    {
        let a = ModelSelector::extract_architecture(cands[i].model_id.as_str());
        archs.push(a);
        i += 1;
    }
    let mut keys: Vec<ExecKey> = Vec::new();
    let mut j: usize = 0;
    while j < cands.len()
        invariant
            j <= cands.len(),
            archs.len() == cands.len(),
            keys.len() == j,
            forall|t: int| 0 <= t < cands.len() ==> (#[trigger] archs@[t])@ == arch_of(cands@[t]),
            forall|t: int|
                0 <= t < j ==> key_view(#[trigger] keys@[t]) == diversity_key(cands@, cands@[t]),
        decreases cands.len() - j,
    {
        let mut arch_count: usize = 0;
        let mut author_count: usize = 0;
        let mut k: usize = 0;
        while k < cands.len()
            invariant
                j < cands.len(),
                k <= cands.len(),
                archs.len() == cands.len(),
                forall|t: int| 0 <= t < cands.len() ==> (#[trigger] archs@[t])@ == arch_of(cands@[t]),
                arch_count <= k,
                author_count <= k,
                arch_count == count_arch(cands@.subrange(0, k as int), arch_of(cands@[j as int])),
                author_count == count_author(cands@.subrange(0, k as int), cands@[j as int].author@),
            decreases cands.len() - k,
        {
            proof {
                lemma_count_arch_step(cands@, arch_of(cands@[j as int]), k as int);
                lemma_count_author_step(cands@, cands@[j as int].author@, k as int);
            }
            if archs[k] == archs[j] {
                arch_count += 1;
            }
            if cands[k].author == cands[j].author {
                author_count += 1;
            }
            k += 1;
        }
        assert(cands@.subrange(0, cands.len() as int) =~= cands@);
        let q4 = str_contains(cands[j].model_id.as_str(), "Q4_K_M") || str_contains(
            cands[j].model_id.as_str(),
            "q4km",
        );
        let instruct = str_contains(cands[j].model_id.as_str(), "instruct") || str_contains(
            cands[j].model_id.as_str(),
            "chat",
        );
        keys.push((arch_count, author_count, !q4, !instruct));
        j += 1;
    }
    (keys, archs)
}

proof fn lemma_insert_at(
    s: Seq<ModelCandidate>,
    x: ModelCandidate,
    all: Seq<ModelCandidate>,
    p: int,
)
    requires
        0 <= p <= s.len(),
        forall|j: int|
            p <= j < s.len() ==> !key_le(diversity_key(all, #[trigger] s[j]), diversity_key(all, x)),
        p == 0 || key_le(diversity_key(all, s[p - 1]), diversity_key(all, x)),
    ensures
        insert_by_key(s, x, all) == s.subrange(0, p) + seq![x] + s.subrange(p, s.len() as int),
    decreases s.len() - p,
{
    if s.len() == 0 {
        assert(s.subrange(0, p) + seq![x] + s.subrange(p, s.len() as int) =~= seq![x]);
    } else if p == s.len() {
        assert(s.subrange(0, p) + seq![x] + s.subrange(p, s.len() as int) =~= s.push(x));
    } else {
        let d = s.drop_last();
        assert forall|j: int| p <= j < d.len() implies !key_le(
            diversity_key(all, #[trigger] d[j]),
            diversity_key(all, x),
        ) by {
            assert(d[j] == s[j]);
        }
        if p > 0 {
            assert(d[p - 1] == s[p - 1]);
        }
        lemma_insert_at(d, x, all, p);
        assert(d.subrange(0, p) + seq![x] + d.subrange(p, d.len() as int) + seq![s.last()]
            =~= s.subrange(0, p) + seq![x] + s.subrange(p, s.len() as int));
    }
}

/// Candidates stably sorted by ranking key, with their keys and architectures.
fn sort_candidates(cands: &Vec<ModelCandidate>, keys: &Vec<ExecKey>, archs: &Vec<String>) -> (res: (
    Vec<ModelCandidate>,
    Vec<String>,
))
    requires
        keys.len() == cands.len(),
        archs.len() == cands.len(),
        forall|j: int|
            0 <= j < cands.len() ==> key_view(#[trigger] keys@[j]) == diversity_key(
                cands@,
                cands@[j],
            ),
        forall|j: int| 0 <= j < cands.len() ==> (#[trigger] archs@[j])@ == arch_of(cands@[j]),
    ensures
        res.0@ == sort_by_key(cands@, cands@),
        res.1.len() == res.0.len(),
        forall|j: int| 0 <= j < res.0.len() ==> (#[trigger] res.1@[j])@ == arch_of(res.0@[j]),
{
    let mut sorted: Vec<ModelCandidate> = Vec::new();
    let mut skeys: Vec<ExecKey> = Vec::new();
    let mut sarchs: Vec<String> = Vec::new();
    let mut i: usize = 0;
    while i < cands.len()
        invariant
            i <= cands.len(),
            keys.len() == cands.len(),
            archs.len() == cands.len(),
            forall|j: int|
                0 <= j < cands.len() ==> key_view(#[trigger] keys@[j]) == diversity_key(
                    cands@,
                    cands@[j],
                ),
            forall|j: int| 0 <= j < cands.len() ==> (#[trigger] archs@[j])@ == arch_of(cands@[j]),
            sorted@ == sort_by_key(cands@.subrange(0, i as int), cands@),
            skeys.len() == sorted.len(),
            sarchs.len() == sorted.len(),
            forall|j: int|
                0 <= j < sorted.len() ==> key_view(#[trigger] skeys@[j]) == diversity_key(
                    cands@,
                    sorted@[j],
                ),
            forall|j: int| 0 <= j < sorted.len() ==> (#[trigger] sarchs@[j])@ == arch_of(sorted@[j]),
        decreases cands.len() - i,
    {
        let ghost old_sorted = sorted@;
        let mut p = sorted.len();
        while p > 0 && !exec_key_le(&skeys[p - 1], &keys[i])
            invariant
                i < cands.len(),
                keys.len() == cands.len(),
                p <= sorted.len(),
                skeys.len() == sorted.len(),
                sorted@ == old_sorted,
                forall|j: int|
                    0 <= j < sorted.len() ==> key_view(#[trigger] skeys@[j]) == diversity_key(
                        cands@,
                        sorted@[j],
                    ),
                key_view(keys@[i as int]) == diversity_key(cands@, cands@[i as int]),
                forall|j: int|
                    p <= j < sorted.len() ==> !key_le(
                        diversity_key(cands@, #[trigger] sorted@[j]),
                        diversity_key(cands@, cands@[i as int]),
                    ),
            decreases p,
        {
            p -= 1;
        }
        proof {
            lemma_insert_at(old_sorted, cands@[i as int], cands@, p as int);
            assert(cands@.subrange(0, i + 1).drop_last() =~= cands@.subrange(0, i as int));
            assert(cands@.subrange(0, i + 1).last() == cands@[i as int]);
        }
        let c = copy_candidate(&cands[i]);
        let k = keys[i];
        let a = archs[i].clone();
        sorted.insert(p, c);
        skeys.insert(p, k);
        sarchs.insert(p, a);
        proof {
            assert(sorted@ =~= old_sorted.subrange(0, p as int) + seq![cands@[i as int]]
                + old_sorted.subrange(p as int, old_sorted.len() as int));
            assert forall|j: int| 0 <= j < sorted.len() implies key_view(#[trigger] skeys@[j])
                == diversity_key(cands@, sorted@[j]) by {
                if j < p {
                } else if j == p {
                } else {
                    assert(sorted@[j] == old_sorted[j - 1]);
                }
            }
            assert forall|j: int| 0 <= j < sorted.len() implies (#[trigger] sarchs@[j])@ == arch_of(
                sorted@[j],
            ) by {
                if j < p {
                } else if j == p {
                } else {
                    assert(sorted@[j] == old_sorted[j - 1]);
                }
            }
        }
        i += 1;
    }
    assert(cands@.subrange(0, cands.len() as int) =~= cands@);
    (sorted, sarchs)
}

fn greedy_exec(scored: &Vec<ModelCandidate>, sarchs: &Vec<String>, n: usize) -> (sel: Vec<ModelCandidate>)
    requires
        sarchs.len() == scored.len(),
        forall|j: int| 0 <= j < scored.len() ==> (#[trigger] sarchs@[j])@ == arch_of(scored@[j]),
    ensures
        sel@ == greedy_pick(scored@, n as nat, 0, Seq::empty(), Seq::empty()),
        sel.len() <= n,
{
    let mut sel: Vec<ModelCandidate> = Vec::new();
    let mut used: Vec<String> = Vec::new();
    let mut i: usize = 0;
    assert(string_views(used@) =~= Seq::<Seq<char>>::empty());
    assert(sel@ =~= Seq::<ModelCandidate>::empty());
    while i < scored.len() && sel.len() < n
        invariant
            i <= scored.len(),
            sarchs.len() == scored.len(),
            forall|j: int| 0 <= j < scored.len() ==> (#[trigger] sarchs@[j])@ == arch_of(scored@[j]),
            sel.len() <= n,
            greedy_pick(scored@, n as nat, i as nat, sel@, string_views(used@)) == greedy_pick(
                scored@,
                n as nat,
                0,
                Seq::empty(),
                Seq::empty(),
            ),
        decreases scored.len() - i,
    {
        let arch = &sarchs[i];
        let already = contains_string(&used, arch);
        let allow_repeat = used.len() >= 4 || sel.len() < n / 2;
        if !allow_repeat && already {
            i += 1;
            continue;
        }
        sel.push(copy_candidate(&scored[i]));
        if !already {
            let ghost prev = used@;
            used.push(arch.clone());
            assert(string_views(used@) =~= string_views(prev).push(arch@));
        }
        i += 1;
    }
    sel
}

fn paths_vec(sel: &Vec<ModelCandidate>) -> (v: Vec<String>)
    ensures
        string_views(v@) == paths_of(sel@),
{
    let mut v: Vec<String> = Vec::new();
    let mut i: usize = 0;
    while i < sel.len()
        invariant
            i <= sel.len(),
            v.len() == i,
            forall|j: int| 0 <= j < i ==> (#[trigger] v@[j])@ == sel@[j].path@,
        decreases sel.len() - i,
    {
        v.push(sel[i].path.clone());
        i += 1;
    }
    assert(string_views(v@) =~= paths_of(sel@));
    v
}

fn fill_exec(cands: &Vec<ModelCandidate>, n: usize, sel: Vec<ModelCandidate>) -> (out: Vec<ModelCandidate>)
    ensures
        out@ == fill_up(cands@, n as nat, 0, sel@, paths_of(sel@)),
{
    let taken = paths_vec(&sel);
    let ghost taken_view = paths_of(sel@);
    let mut out = sel;
    let mut i: usize = 0;
    while i < cands.len() && out.len() < n
        invariant
            i <= cands.len(),
            string_views(taken@) == taken_view,
            fill_up(cands@, n as nat, i as nat, out@, taken_view) == fill_up(
                cands@,
                n as nat,
                0,
                sel@,
                taken_view,
            ),
        decreases cands.len() - i,
    {
        if !contains_string(&taken, &cands[i].path) {
            out.push(copy_candidate(&cands[i]));
        }
        i += 1;
    }
    out
}

fn copy_all(cands: &Vec<ModelCandidate>) -> (out: Vec<ModelCandidate>)
    ensures
        out@ == cands@,
{
    let mut out: Vec<ModelCandidate> = Vec::new();
    let mut i: usize = 0;
    while i < cands.len()
        invariant
            i <= cands.len(),
            out@ == cands@.subrange(0, i as int),
        decreases cands.len() - i,
    {
        out.push(copy_candidate(&cands[i]));
        i += 1;
        assert(out@ =~= cands@.subrange(0, i as int));
    }
    assert(cands@.subrange(0, cands.len() as int) =~= cands@);
    out
}

impl ModelSelector {
    /// Selects `n` models from one tier, preferring diverse architectures
    /// and authors (see `select_in_tier`).
    pub fn select_from_tier(candidates: &Vec<ModelCandidate>, n: usize) -> (out: Vec<ModelCandidate>)
        ensures
            out@ == select_in_tier(candidates@, n as nat),
    {
        if candidates.len() == 0 || n == 0 {
            return Vec::new();
        }
        if n >= candidates.len() {
            return copy_all(candidates);
        }
        let (keys, archs) = candidate_keys(candidates);
        let (scored, sarchs) = sort_candidates(candidates, &keys, &archs);
        let g = greedy_exec(&scored, &sarchs, n);
        if g.len() < n {
            fill_exec(candidates, n, g)
        } else {
            g
        }
    }
}

/// Candidates of `cs` in tier `t`, in input order.
pub open spec fn bucket(cs: Seq<ModelCandidate>, t: SizeTier) -> Seq<ModelCandidate>
    decreases cs.len(),
{
    if cs.len() == 0 {
        Seq::empty()
    } else {
        bucket(cs.drop_last(), t) + if tier_for_size(cs.last().file_size_bytes) == t {
            seq![cs.last()]
        } else {
            Seq::empty()
        }
    }
}

/// `x / y` rounded to the nearest integer, halves rounded up.
pub open spec fn round_div(x: nat, y: nat) -> nat {
    x / y + if 2 * (x % y) >= y {
        1nat
    } else {
        0nat
    }
}

/// Share of `n` for a tier holding `count` of `total` candidates:
/// proportional, rounded, at most `count`, and at least one for a
/// non-empty tier.
pub open spec fn base_share(count: nat, n: nat, total: nat) -> nat {
    if count == 0 {
        0
    } else {
        let r = round_div(count * n, total);
        let m = if r < count {
            r
        } else {
            count
        };
        if m < 1 {
            1
        } else {
            m
        }
    }
}

/// Number of candidates in the tier at position `r`.
pub open spec fn tier_count(cs: Seq<ModelCandidate>, r: nat) -> nat {
    bucket(cs, tier_at(r)).len()
}

/// Proportional share of the tier at position `r`.
pub open spec fn tier_base(cs: Seq<ModelCandidate>, n: nat, r: nat) -> nat {
    base_share(tier_count(cs, r), n, cs.len())
}

/// Sum of the proportional shares of all four tiers.
pub open spec fn base_total(cs: Seq<ModelCandidate>, n: nat) -> nat {
    tier_base(cs, n, 0) + tier_base(cs, n, 1) + tier_base(cs, n, 2) + tier_base(cs, n, 3)
}

/// Distance between the requested count and the sum of shares.
pub open spec fn share_gap(cs: Seq<ModelCandidate>, n: nat) -> nat {
    if n >= base_total(cs, n) {
        (n - base_total(cs, n)) as nat
    } else {
        (base_total(cs, n) - n) as nat
    }
}

/// The tier at `r` could take one more model.
pub open spec fn has_room(cs: Seq<ModelCandidate>, n: nat, r: nat) -> bool {
    tier_count(cs, r) > 0 && tier_base(cs, n, r) < tier_count(cs, r)
}

/// Tier `q` comes before tier `r` when extra shares are handed out: it has
/// room and more candidates, ties going to the smaller tier.
pub open spec fn ahead_of(cs: Seq<ModelCandidate>, n: nat, q: nat, r: nat) -> bool {
    has_room(cs, n, q) && (tier_count(cs, q) > tier_count(cs, r) || (tier_count(cs, q)
        == tier_count(cs, r) && q < r))
}

/// Number of tiers ahead of `r` when extra shares are handed out.
pub open spec fn room_position(cs: Seq<ModelCandidate>, n: nat, r: nat) -> nat {
    (if ahead_of(cs, n, 0, r) {
        1nat
    } else {
        0nat
    }) + (if ahead_of(cs, n, 1, r) {
        1nat
    } else {
        0nat
    }) + (if ahead_of(cs, n, 2, r) {
        1nat
    } else {
        0nat
    }) + (if ahead_of(cs, n, 3, r) {
        1nat
    } else {
        0nat
    })
}

/// Shares as natural numbers.
pub open spec fn nats(v: Seq<usize>) -> Seq<nat> {
    v.map_values(|x: usize| x as nat)
}

/// The position of the largest share above one among the first `i`
/// (the first of equal ones), or `-1` when none is above one.
pub open spec fn largest_above_one(s: Seq<nat>, i: nat) -> int
    decreases i,
{
    if i == 0 {
        -1
    } else {
        let k = largest_above_one(s, (i - 1) as nat);
        if s[i - 1] > 1 && (k < 0 || s[i - 1] > s[k]) {
            i - 1
        } else {
            k
        }
    }
}

/// `e` shares taken off, one at a time, each from the largest share that
/// is above one: a tier that has a share keeps at least one.
pub open spec fn trim_shares(s: Seq<nat>, e: nat) -> Seq<nat>
    decreases e,
{
    if e == 0 {
        s
    } else {
        let k = largest_above_one(s, s.len());
        if k < 0 {
            s
        } else {
            trim_shares(s.update(k, (s[k] - 1) as nat), (e - 1) as nat)
        }
    }
}

/// The proportional shares of the four tiers, tiny to large.
pub open spec fn base_shares(cs: Seq<ModelCandidate>, n: nat) -> Seq<nat> {
    seq![tier_base(cs, n, 0), tier_base(cs, n, 1), tier_base(cs, n, 2), tier_base(cs, n, 3)]
}

/// Final share of the tier at `r`. When the proportional shares exceed
/// `n`, the surplus is taken off the largest shares, never below one;
/// when they fall short, the first `share_gap` tiers with room (most
/// candidates first) get one more each.
pub open spec fn tier_share(cs: Seq<ModelCandidate>, n: nat, r: nat) -> nat {
    if base_total(cs, n) > n {
        trim_shares(base_shares(cs, n), share_gap(cs, n))[r as int]
    } else {
        tier_base(cs, n, r) + if has_room(cs, n, r) && room_position(cs, n, r) < share_gap(cs, n) {
            1nat
        } else {
            0nat
        }
    }
}

/// Per-tier selections, tiny to large, concatenated.
pub open spec fn tiered_selection(cs: Seq<ModelCandidate>, n: nat) -> Seq<ModelCandidate> {
    select_in_tier(bucket(cs, SizeTier::Tiny), tier_share(cs, n, 0)) + select_in_tier(
        bucket(cs, SizeTier::Small),
        tier_share(cs, n, 1),
    ) + select_in_tier(bucket(cs, SizeTier::Medium), tier_share(cs, n, 2)) + select_in_tier(
        bucket(cs, SizeTier::Large),
        tier_share(cs, n, 3),
    )
}

/// The models chosen by `select_n_models`.
pub open spec fn select_n(cs: Seq<ModelCandidate>, n: nat) -> Seq<ModelCandidate> {
    if cs.len() == 0 || n == 0 {
        Seq::empty()
    } else if n >= cs.len() {
        cs
    } else {
        let all = tiered_selection(cs, n);
        if all.len() <= n {
            all
        } else {
            all.subrange(0, n as int)
        }
    }
}

/// The four tier buckets, indexed by tier position.
fn split_into_buckets(cs: &Vec<ModelCandidate>) -> (b: Vec<Vec<ModelCandidate>>)
    ensures
        b.len() == 4,
        forall|r: int| 0 <= r < 4 ==> (#[trigger] b@[r])@ == bucket(cs@, tier_at(r as nat)),
{
    let mut b0: Vec<ModelCandidate> = Vec::new();
    let mut b1: Vec<ModelCandidate> = Vec::new();
    let mut b2: Vec<ModelCandidate> = Vec::new();
    let mut b3: Vec<ModelCandidate> = Vec::new();
    let mut i: usize = 0;
    assert(cs@.subrange(0, 0).len() == 0);
    while i < cs.len()
        invariant
            i <= cs.len(),
            b0@ == bucket(cs@.subrange(0, i as int), SizeTier::Tiny),
            b1@ == bucket(cs@.subrange(0, i as int), SizeTier::Small),
            b2@ == bucket(cs@.subrange(0, i as int), SizeTier::Medium),
            b3@ == bucket(cs@.subrange(0, i as int), SizeTier::Large),
        decreases cs.len() - i,
    {
        let t = SizeTier::from_file_size(cs[i].file_size_bytes);
        let c = copy_candidate(&cs[i]);
        proof {
            assert(cs@.subrange(0, i + 1).drop_last() =~= cs@.subrange(0, i as int));
        }
        match t {
            SizeTier::Tiny => b0.push(c),
            SizeTier::Small => b1.push(c),
            SizeTier::Medium => b2.push(c),
            SizeTier::Large => b3.push(c),
        }
        i += 1;
    }
    assert(cs@.subrange(0, cs.len() as int) =~= cs@);
    let mut b: Vec<Vec<ModelCandidate>> = Vec::new();
    b.push(b0);
    b.push(b1);
    b.push(b2);
    b.push(b3);
    b
}

fn exec_base_share(count: usize, n: usize, total: usize) -> (r: usize)
    requires
        total > 0,
    ensures
        r == base_share(count as nat, n as nat, total as nat),
        r <= count,
        count > 0 ==> r >= 1,
{
    if count == 0 {
        return 0;
    }
    let c128 = count as u128;
    let n128 = n as u128;
    assert(c128 * n128 <= 0xffff_ffff_ffff_ffffu128 * 0xffff_ffff_ffff_ffffu128) by (nonlinear_arith)
        requires
            c128 <= 0xffff_ffff_ffff_ffffu128,
            n128 <= 0xffff_ffff_ffff_ffffu128,
    ;
    let x: u128 = c128 * n128;
    let q = x / (total as u128);
    let rem = x % (total as u128);
    assert(rem < total);
    assert(q <= x) by (nonlinear_arith)
        requires
            q == x / (total as u128),
            total >= 1,
    ;
    let rounded: u128 = if 2 * rem >= total as u128 {
        q + 1
    } else {
        q
    };
    assert(q <= x);
    let m: u128 = if rounded < count as u128 {
        rounded
    } else {
        count as u128
    };
    if m < 1 {
        1
    } else {
        m as usize
    }
}

proof fn lemma_largest_above_one(s: Seq<nat>, i: nat)
    requires
        i <= s.len(),
    ensures
        largest_above_one(s, i) >= 0 ==> largest_above_one(s, i) < i && s[largest_above_one(s, i)] > 1,
        largest_above_one(s, i) < 0 ==> forall|j: int| 0 <= j < i ==> #[trigger] s[j] <= 1,
        largest_above_one(s, i) >= 0 ==> forall|j: int| 0 <= j < i ==> #[trigger] s[j] <= s[largest_above_one(s, i)],
    decreases i,
{
    if i > 0 {
        lemma_largest_above_one(s, (i - 1) as nat);
    }
}

/// The four tiers together hold every candidate.
proof fn lemma_bucket_lengths(cs: Seq<ModelCandidate>)
    ensures
        bucket(cs, SizeTier::Tiny).len() + bucket(cs, SizeTier::Small).len() + bucket(cs, SizeTier::Medium).len()
            + bucket(cs, SizeTier::Large).len() == cs.len(),
    decreases cs.len(),
{
    if cs.len() > 0 {
        lemma_bucket_lengths(cs.drop_last());
    }
}

fn largest_above_one_exec(s: &Vec<usize>) -> (k: Option<usize>)
    ensures
        match k {
            Some(j) => largest_above_one(nats(s@), s.len() as nat) == j as int && j < s.len(),
            None => largest_above_one(nats(s@), s.len() as nat) < 0,
        },
{
    let mut best: Option<usize> = None;
    let mut i: usize = 0;
    while i < s.len()
        invariant
            i <= s.len(),
            match best {
                Some(j) => largest_above_one(nats(s@), i as nat) == j as int && j < i,
                None => largest_above_one(nats(s@), i as nat) < 0,
            },
        decreases s.len() - i,
    {
        let better = match best {
            Some(j) => s[i] > s[j],
            None => true,
        };
        if s[i] > 1 && better {
            best = Some(i);
        }
        i += 1;
    }
    best
}

fn trimmed(bases: &Vec<usize>, e: usize) -> (out: Vec<usize>)
    ensures
        out.len() == bases.len(),
        nats(out@) == trim_shares(nats(bases@), e as nat),
{
    let mut s: Vec<usize> = Vec::new();
    let mut i: usize = 0;
    while i < bases.len()
        invariant
            i <= bases.len(),
            s@ == bases@.subrange(0, i as int),
        decreases bases.len() - i,
    {
        s.push(bases[i]);
        assert(s@ =~= bases@.subrange(0, i + 1));
        i += 1;
    }
    assert(s@ =~= bases@);
    let mut k: usize = e;
    while k > 0
        invariant
            s.len() == bases.len(),
            trim_shares(nats(s@), k as nat) == trim_shares(nats(bases@), e as nat),
        decreases k,
    {
        match largest_above_one_exec(&s) {
            None => {
                return s;
            },
            Some(j) => {
                let ghost before = s@;
                proof {
                    lemma_largest_above_one(nats(s@), s.len() as nat);
                    assert(nats(s@)[j as int] == s@[j as int] as nat);
                }
                let v = s[j] - 1;
                s.set(j, v);
                assert(nats(s@) =~= nats(before).update(j as int, (nats(before)[j as int] - 1) as nat));
                k -= 1;
            },
        }
    }
    s
}

fn deficit_shares(
    candidates: &Vec<ModelCandidate>,
    n: usize,
    counts: &Vec<usize>,
    bases: &Vec<usize>,
    gap: u128,
) -> (out: Vec<usize>)
    requires
        counts.len() == 4,
        bases.len() == 4,
        forall|k: int| 0 <= k < 4 ==> #[trigger] counts@[k] == tier_count(candidates@, k as nat),
        forall|k: int| 0 <= k < 4 ==> #[trigger] bases@[k] == tier_base(candidates@, n as nat, k as nat),
        forall|k: int| 0 <= k < 4 ==> #[trigger] bases@[k] <= counts@[k],
        gap == share_gap(candidates@, n as nat),
        base_total(candidates@, n as nat) <= n,
    ensures
        out.len() == 4,
        forall|r: int| 0 <= r < 4 ==> #[trigger] out@[r] == tier_share(candidates@, n as nat, r as nat),
{
    let mut out: Vec<usize> = Vec::new();
    let mut t: usize = 0;
    while t < 4
        invariant
            t <= 4,
            out.len() == t,
            counts.len() == 4,
            bases.len() == 4,
            forall|k: int| 0 <= k < 4 ==> #[trigger] counts@[k] == tier_count(candidates@, k as nat),
            forall|k: int| 0 <= k < 4 ==> #[trigger] bases@[k] == tier_base(candidates@, n as nat, k as nat),
            forall|k: int| 0 <= k < 4 ==> #[trigger] bases@[k] <= counts@[k],
            gap == share_gap(candidates@, n as nat),
            base_total(candidates@, n as nat) <= n,
            forall|r: int| 0 <= r < t ==> #[trigger] out@[r] == tier_share(candidates@, n as nat, r as nat),
        decreases 4 - t,
    {
        let room = counts[t] > 0 && bases[t] < counts[t];
        let mut pos: u128 = 0;
        let mut q: usize = 0;
        while q < 4
            invariant
                q <= 4,
                t < 4,
                counts.len() == 4,
                bases.len() == 4,
                forall|k: int| 0 <= k < 4 ==> #[trigger] counts@[k] == tier_count(candidates@, k as nat),
                forall|k: int| 0 <= k < 4 ==> #[trigger] bases@[k] == tier_base(candidates@, n as nat, k as nat),
                pos <= q,
                pos == (if q > 0 && ahead_of(candidates@, n as nat, 0, t as nat) { 1nat } else { 0nat })
                    + (if q > 1 && ahead_of(candidates@, n as nat, 1, t as nat) { 1nat } else { 0nat })
                    + (if q > 2 && ahead_of(candidates@, n as nat, 2, t as nat) { 1nat } else { 0nat })
                    + (if q > 3 && ahead_of(candidates@, n as nat, 3, t as nat) { 1nat } else { 0nat }),
            decreases 4 - q,
        {
            let q_room = counts[q] > 0 && bases[q] < counts[q];
            if q_room && (counts[q] > counts[t] || (counts[q] == counts[t] && q < t)) {
                pos += 1;
            }
            q += 1;
        }
        let share = if room && pos < gap {
            bases[t] + 1
        } else {
            bases[t]
        };
        assert(share == tier_share(candidates@, n as nat, t as nat));
        out.push(share);
        t += 1;
    }
    out
}

impl ModelSelector {
    /// Selects `n` models from `candidates`: every candidate when `n` covers
    /// them all, none when either is empty, otherwise tier-proportional and
    /// diversity-ranked picks (see `select_n`).
    pub fn select_n_models(candidates: &Vec<ModelCandidate>, n: usize) -> (out: Vec<ModelCandidate>)
        ensures
            out@ == select_n(candidates@, n as nat),
    {
        if candidates.len() == 0 || n == 0 {
            return Vec::new();
        }
        if n >= candidates.len() {
            return copy_all(candidates);
        }
        let total = candidates.len();
        let buckets = split_into_buckets(candidates);
        let mut counts: Vec<usize> = Vec::new();
        let mut bases: Vec<usize> = Vec::new();
        let mut r: usize = 0;
        while r < 4
            invariant
                r <= 4,
                total == candidates.len(),
                total > 0,
                buckets.len() == 4,
                forall|q: int| 0 <= q < 4 ==> (#[trigger] buckets@[q])@ == bucket(candidates@, tier_at(q as nat)),
                counts.len() == r,
                bases.len() == r,
                forall|q: int| 0 <= q < r ==> #[trigger] counts@[q] == tier_count(candidates@, q as nat),
                forall|q: int| 0 <= q < r ==> #[trigger] bases@[q] == tier_base(candidates@, n as nat, q as nat),
                forall|q: int| 0 <= q < r ==> #[trigger] bases@[q] <= counts@[q],
            decreases 4 - r,
        {
            let c = buckets[r].len();
            counts.push(c);
            bases.push(exec_base_share(c, n, total));
            r += 1;
        }
        let sum: u128 = bases[0] as u128 + bases[1] as u128 + bases[2] as u128 + bases[3] as u128;
        let gap: u128 = if n as u128 >= sum {
            n as u128 - sum
        } else {
            sum - n as u128
        };
        proof {
            lemma_bucket_lengths(candidates@);
            assert(tier_at(0) == SizeTier::Tiny && tier_at(1) == SizeTier::Small);
            assert(tier_at(2) == SizeTier::Medium && tier_at(3) == SizeTier::Large);
            assert(sum == base_total(candidates@, n as nat));
            assert(sum <= total);
        }
        let shares: Vec<usize> = if sum > n as u128 {
            assert(nats(bases@) =~= base_shares(candidates@, n as nat));
            let sh = trimmed(&bases, gap as usize);
            proof {
                assert forall|q: int| 0 <= q < 4 implies #[trigger] sh@[q] == tier_share(candidates@, n as nat, q as nat) by {
                    assert(nats(sh@)[q] == sh@[q] as nat);
                }
            }
            sh
        } else {
            deficit_shares(candidates, n, &counts, &bases, gap)
        };
        let mut out: Vec<ModelCandidate> = Vec::new();
        let mut t: usize = 0;
        while t < 4
            invariant
                t <= 4,
                buckets.len() == 4,
                forall|q: int| 0 <= q < 4 ==> (#[trigger] buckets@[q])@ == bucket(candidates@, tier_at(q as nat)),
                shares.len() == 4,
                forall|q: int| 0 <= q < 4 ==> #[trigger] shares@[q] == tier_share(candidates@, n as nat, q as nat),
                out@ == (if t == 0 {
                    Seq::empty()
                } else if t == 1 {
                    select_in_tier(bucket(candidates@, SizeTier::Tiny), tier_share(candidates@, n as nat, 0))
                } else if t == 2 {
                    select_in_tier(bucket(candidates@, SizeTier::Tiny), tier_share(candidates@, n as nat, 0))
                        + select_in_tier(bucket(candidates@, SizeTier::Small), tier_share(candidates@, n as nat, 1))
                } else if t == 3 {
                    select_in_tier(bucket(candidates@, SizeTier::Tiny), tier_share(candidates@, n as nat, 0))
                        + select_in_tier(bucket(candidates@, SizeTier::Small), tier_share(candidates@, n as nat, 1))
                        + select_in_tier(bucket(candidates@, SizeTier::Medium), tier_share(candidates@, n as nat, 2))
                } else {
                    tiered_selection(candidates@, n as nat)
                }),
            decreases 4 - t,
        {
            let mut part = Self::select_from_tier(&buckets[t], shares[t]);
            out.append(&mut part);
            t += 1;
        }
        out.truncate(n);
        out
    }
}

proof fn lemma_insert_members(s: Seq<ModelCandidate>, x: ModelCandidate, all: Seq<ModelCandidate>, y: ModelCandidate)
    requires
        insert_by_key(s, x, all).contains(y),
    ensures
        s.contains(y) || y == x,
    decreases s.len(),
{
    if s.len() == 0 {
        assert(insert_by_key(s, x, all) == seq![x]);
    } else if key_le(diversity_key(all, s.last()), diversity_key(all, x)) {
        let k = choose|k: int| 0 <= k < s.push(x).len() && s.push(x)[k] == y;
        if k < s.len() {
            assert(s[k] == y);
        }
    } else {
        let d = s.drop_last();
        let r = insert_by_key(d, x, all);
        let k = choose|k: int| 0 <= k < r.push(s.last()).len() && r.push(s.last())[k] == y;
        if k < r.len() {
            assert(r[k] == y);
            lemma_insert_members(d, x, all, y);
            if d.contains(y) {
                let j = choose|j: int| 0 <= j < d.len() && d[j] == y;
                assert(s[j] == y);
            }
        } else {
            assert(s[s.len() - 1] == y);
        }
    }
}

/// Every pair of entries of `s` is in ranking order.
pub open spec fn ranked(s: Seq<ModelCandidate>, all: Seq<ModelCandidate>) -> bool {
    forall|i: int, j: int|
        0 <= i < j < s.len() ==> key_le(diversity_key(all, #[trigger] s[i]), diversity_key(all, #[trigger] s[j]))
}

proof fn lemma_key_le_total_transitive(a: (nat, nat, bool, bool), b: (nat, nat, bool, bool), c: (nat, nat, bool, bool))
    ensures
        key_le(a, b) || key_le(b, a),
        key_le(a, b) && key_le(b, c) ==> key_le(a, c),
{
}

proof fn lemma_insert_ranked(s: Seq<ModelCandidate>, x: ModelCandidate, all: Seq<ModelCandidate>)
    requires
        ranked(s, all),
    ensures
        ranked(insert_by_key(s, x, all), all),
    decreases s.len(),
{
    let kx = diversity_key(all, x);
    if s.len() == 0 {
        assert(insert_by_key(s, x, all) == seq![x]);
    } else if key_le(diversity_key(all, s.last()), kx) {
        let r = s.push(x);
        assert forall|i: int, j: int| 0 <= i < j < r.len() implies key_le(
            diversity_key(all, #[trigger] r[i]),
            diversity_key(all, #[trigger] r[j]),
        ) by {
            if j == s.len() {
                if i < s.len() - 1 {
                    assert(key_le(diversity_key(all, s[i]), diversity_key(all, s[s.len() - 1])));
                    lemma_key_le_total_transitive(diversity_key(all, s[i]), diversity_key(all, s.last()), kx);
                }
            } else {
                assert(r[i] == s[i] && r[j] == s[j]);
            }
        }
    } else {
        let d = s.drop_last();
        let l = s.last();
        assert(ranked(d, all)) by {
            assert forall|i: int, j: int| 0 <= i < j < d.len() implies key_le(
                diversity_key(all, #[trigger] d[i]),
                diversity_key(all, #[trigger] d[j]),
            ) by {
                assert(d[i] == s[i] && d[j] == s[j]);
            }
        }
        lemma_insert_ranked(d, x, all);
        let q = insert_by_key(d, x, all);
        let r = q.push(l);
        lemma_key_le_total_transitive(diversity_key(all, l), kx, kx);
        assert forall|i: int, j: int| 0 <= i < j < r.len() implies key_le(
            diversity_key(all, #[trigger] r[i]),
            diversity_key(all, #[trigger] r[j]),
        ) by {
            if j == q.len() {
                let y = q[i];
                assert(q.contains(y));
                lemma_insert_members(d, x, all, y);
                if y != x {
                    let k = choose|k: int| 0 <= k < d.len() && d[k] == y;
                    assert(s[k] == y);
                    assert(key_le(diversity_key(all, s[k]), diversity_key(all, s[s.len() - 1])));
                }
                assert(r[j] == l);
            } else {
                assert(r[i] == q[i] && r[j] == q[j]);
            }
        }
    }
}

proof fn lemma_sort_ranked(s: Seq<ModelCandidate>, all: Seq<ModelCandidate>)
    ensures
        ranked(sort_by_key(s, all), all),
    decreases s.len(),
{
    if s.len() > 0 {
        lemma_sort_ranked(s.drop_last(), all);
        lemma_insert_ranked(sort_by_key(s.drop_last(), all), s.last(), all);
    }
}

/// A tier's ranking puts rarer architectures first; among equally common
/// architectures, rarer authors; then Q4_K_M variants before others; then
/// instruct or chat variants before base models.
pub proof fn lemma_ranking_order(cands: Seq<ModelCandidate>, i: int, j: int)
    requires
        0 <= i < j < sort_by_key(cands, cands).len(),
    ensures
        ({
            let s = sort_by_key(cands, cands);
            let (ai, aj) = (count_arch(cands, arch_of(s[i])), count_arch(cands, arch_of(s[j])));
            let (ui, uj) = (count_author(cands, s[i].author@), count_author(cands, s[j].author@));
            let q4 = |c: ModelCandidate| seq_contains(c.model_id@, "Q4_K_M"@) || seq_contains(c.model_id@, "q4km"@);
            let instruct = |c: ModelCandidate| seq_contains(c.model_id@, "instruct"@) || seq_contains(c.model_id@, "chat"@);
            &&& ai <= aj
            &&& ai == aj ==> ui <= uj
            &&& ai == aj && ui == uj && q4(s[j]) ==> q4(s[i])
            &&& ai == aj && ui == uj && q4(s[i]) == q4(s[j]) && instruct(s[j]) ==> instruct(s[i])
        }),
{
    let s = sort_by_key(cands, cands);
    lemma_sort_ranked(cands, cands);
    assert(key_le(diversity_key(cands, s[i]), diversity_key(cands, s[j])));
}

/// Within a tier's ranking, a Q4_K_M variant comes before every other
/// quantization whose architecture and author are as common: no
/// candidate without Q4_K_M precedes a Q4_K_M one with the same counts.
pub proof fn lemma_q4_ranked_first(cands: Seq<ModelCandidate>, i: int, j: int)
    requires
        0 <= i < j < sort_by_key(cands, cands).len(),
        count_arch(cands, arch_of(sort_by_key(cands, cands)[i])) == count_arch(
            cands,
            arch_of(sort_by_key(cands, cands)[j]),
        ),
        count_author(cands, sort_by_key(cands, cands)[i].author@) == count_author(
            cands,
            sort_by_key(cands, cands)[j].author@,
        ),
        seq_contains(sort_by_key(cands, cands)[j].model_id@, "Q4_K_M"@) || seq_contains(
            sort_by_key(cands, cands)[j].model_id@,
            "q4km"@,
        ),
    ensures
        seq_contains(sort_by_key(cands, cands)[i].model_id@, "Q4_K_M"@) || seq_contains(
            sort_by_key(cands, cands)[i].model_id@,
            "q4km"@,
        ),
{
    let s = sort_by_key(cands, cands);
    lemma_sort_ranked(cands, cands);
    assert(key_le(diversity_key(cands, s[i]), diversity_key(cands, s[j])));
}

proof fn lemma_sort_members(s: Seq<ModelCandidate>, all: Seq<ModelCandidate>, y: ModelCandidate)
    requires
        sort_by_key(s, all).contains(y),
    ensures
        s.contains(y),
    decreases s.len(),
{
    if s.len() > 0 {
        let d = s.drop_last();
        lemma_insert_members(sort_by_key(d, all), s.last(), all, y);
        if sort_by_key(d, all).contains(y) {
            lemma_sort_members(d, all, y);
            let j = choose|j: int| 0 <= j < d.len() && d[j] == y;
            assert(s[j] == y);
        } else {
            assert(s[s.len() - 1] == y);
        }
    }
}

proof fn lemma_greedy_members(
    scored: Seq<ModelCandidate>,
    n: nat,
    i: nat,
    sel: Seq<ModelCandidate>,
    used: Seq<Seq<char>>,
    y: ModelCandidate,
)
    requires
        greedy_pick(scored, n, i, sel, used).contains(y),
    ensures
        sel.contains(y) || scored.contains(y),
    decreases scored.len() - i,
{
    if i >= scored.len() || sel.len() >= n {
    } else {
        let c = scored[i as int];
        let a = arch_of(c);
        let allow_repeat = used.len() >= 4 || sel.len() < n / 2;
        if !allow_repeat && used.contains(a) {
            lemma_greedy_members(scored, n, i + 1, sel, used, y);
        } else {
            let used2 = if used.contains(a) {
                used
            } else {
                used.push(a)
            };
            lemma_greedy_members(scored, n, i + 1, sel.push(c), used2, y);
            if sel.push(c).contains(y) {
                let k = choose|k: int| 0 <= k < sel.push(c).len() && sel.push(c)[k] == y;
                if k < sel.len() {
                    assert(sel[k] == y);
                }
            }
        }
    }
}

proof fn lemma_greedy_len(
    scored: Seq<ModelCandidate>,
    n: nat,
    i: nat,
    sel: Seq<ModelCandidate>,
    used: Seq<Seq<char>>,
)
    requires
        sel.len() <= n,
    ensures
        greedy_pick(scored, n, i, sel, used).len() <= n,
    decreases scored.len() - i,
{
    if i >= scored.len() || sel.len() >= n {
    } else {
        let c = scored[i as int];
        let a = arch_of(c);
        let allow_repeat = used.len() >= 4 || sel.len() < n / 2;
        if !allow_repeat && used.contains(a) {
            lemma_greedy_len(scored, n, i + 1, sel, used);
        } else {
            let used2 = if used.contains(a) {
                used
            } else {
                used.push(a)
            };
            lemma_greedy_len(scored, n, i + 1, sel.push(c), used2);
        }
    }
}

proof fn lemma_fill_members(
    cands: Seq<ModelCandidate>,
    n: nat,
    i: nat,
    sel: Seq<ModelCandidate>,
    taken: Seq<Seq<char>>,
    y: ModelCandidate,
)
    requires
        fill_up(cands, n, i, sel, taken).contains(y),
    ensures
        sel.contains(y) || cands.contains(y),
    decreases cands.len() - i,
{
    if i >= cands.len() || sel.len() >= n {
    } else if taken.contains(cands[i as int].path@) {
        lemma_fill_members(cands, n, i + 1, sel, taken, y);
    } else {
        let c = cands[i as int];
        lemma_fill_members(cands, n, i + 1, sel.push(c), taken, y);
        if sel.push(c).contains(y) {
            let k = choose|k: int| 0 <= k < sel.push(c).len() && sel.push(c)[k] == y;
            if k < sel.len() {
                assert(sel[k] == y);
            }
        }
    }
}

proof fn lemma_fill_len(
    cands: Seq<ModelCandidate>,
    n: nat,
    i: nat,
    sel: Seq<ModelCandidate>,
    taken: Seq<Seq<char>>,
)
    requires
        sel.len() <= n,
    ensures
        fill_up(cands, n, i, sel, taken).len() <= n,
    decreases cands.len() - i,
{
    if i >= cands.len() || sel.len() >= n {
    } else if taken.contains(cands[i as int].path@) {
        lemma_fill_len(cands, n, i + 1, sel, taken);
    } else {
        lemma_fill_len(cands, n, i + 1, sel.push(cands[i as int]), taken);
    }
}

proof fn lemma_bucket_members(cs: Seq<ModelCandidate>, t: SizeTier, y: ModelCandidate)
    requires
        bucket(cs, t).contains(y),
    ensures
        cs.contains(y),
        tier_for_size(y.file_size_bytes) == t,
    decreases cs.len(),
{
    if cs.len() > 0 {
        let d = cs.drop_last();
        let extra = if tier_for_size(cs.last().file_size_bytes) == t {
            seq![cs.last()]
        } else {
            Seq::empty()
        };
        let k = choose|k: int| 0 <= k < (bucket(d, t) + extra).len() && (bucket(d, t) + extra)[k] == y;
        if k < bucket(d, t).len() {
            assert(bucket(d, t)[k] == y);
            lemma_bucket_members(d, t, y);
            let j = choose|j: int| 0 <= j < d.len() && d[j] == y;
            assert(cs[j] == y);
        } else {
            assert(cs[cs.len() - 1] == y);
        }
    }
}

/// Within one tier, every chosen model is a candidate of that tier, and at
/// most `n` models are chosen.
pub proof fn lemma_select_in_tier_sound(cands: Seq<ModelCandidate>, n: nat)
    ensures
        select_in_tier(cands, n).len() <= n,
        forall|y: ModelCandidate| #[trigger] select_in_tier(cands, n).contains(y) ==> cands.contains(y),
{
    if cands.len() == 0 || n == 0 {
    } else if n >= cands.len() {
    } else {
        let scored = sort_by_key(cands, cands);
        let g = greedy_pick(scored, n, 0, Seq::empty(), Seq::empty());
        lemma_greedy_len(scored, n, 0, Seq::empty(), Seq::empty());
        if g.len() < n {
            lemma_fill_len(cands, n, 0, g, paths_of(g));
        }
        assert forall|y: ModelCandidate| #[trigger] select_in_tier(cands, n).contains(y) implies cands.contains(y) by {
            if g.len() < n {
                lemma_fill_members(cands, n, 0, g, paths_of(g), y);
            }
            if g.contains(y) {
                lemma_greedy_members(scored, n, 0, Seq::empty(), Seq::empty(), y);
                lemma_sort_members(cands, cands, y);
            }
        }
    }
}

/// `select_n_models` never returns more than `n` models, and every model it
/// returns is one of the candidates.
pub proof fn lemma_select_n_sound(cs: Seq<ModelCandidate>, n: nat)
    ensures
        select_n(cs, n).len() <= n,
        forall|y: ModelCandidate| #[trigger] select_n(cs, n).contains(y) ==> cs.contains(y),
{
    if cs.len() == 0 || n == 0 {
    } else if n >= cs.len() {
    } else {
        let all = tiered_selection(cs, n);
        let s0 = select_in_tier(bucket(cs, SizeTier::Tiny), tier_share(cs, n, 0));
        let s1 = select_in_tier(bucket(cs, SizeTier::Small), tier_share(cs, n, 1));
        let s2 = select_in_tier(bucket(cs, SizeTier::Medium), tier_share(cs, n, 2));
        let s3 = select_in_tier(bucket(cs, SizeTier::Large), tier_share(cs, n, 3));
        lemma_select_in_tier_sound(bucket(cs, SizeTier::Tiny), tier_share(cs, n, 0));
        lemma_select_in_tier_sound(bucket(cs, SizeTier::Small), tier_share(cs, n, 1));
        lemma_select_in_tier_sound(bucket(cs, SizeTier::Medium), tier_share(cs, n, 2));
        lemma_select_in_tier_sound(bucket(cs, SizeTier::Large), tier_share(cs, n, 3));
        assert forall|y: ModelCandidate| #[trigger] all.contains(y) implies cs.contains(y) by {
            let k = choose|k: int| 0 <= k < all.len() && all[k] == y;
            if k < s0.len() {
                assert(s0[k] == y);
                assert(s0.contains(y));
                assert(bucket(cs, SizeTier::Tiny).contains(y));
                lemma_bucket_members(cs, SizeTier::Tiny, y);
            } else if k < s0.len() + s1.len() {
                assert(s1[k - s0.len()] == y);
                assert(s1.contains(y));
                assert(bucket(cs, SizeTier::Small).contains(y));
                lemma_bucket_members(cs, SizeTier::Small, y);
            } else if k < s0.len() + s1.len() + s2.len() {
                assert(s2[k - s0.len() - s1.len()] == y);
                assert(s2.contains(y));
                assert(bucket(cs, SizeTier::Medium).contains(y));
                lemma_bucket_members(cs, SizeTier::Medium, y);
            } else {
                assert(s3[k - s0.len() - s1.len() - s2.len()] == y);
                assert(s3.contains(y));
                assert(bucket(cs, SizeTier::Large).contains(y));
                lemma_bucket_members(cs, SizeTier::Large, y);
            }
        }
        assert forall|y: ModelCandidate| #[trigger] select_n(cs, n).contains(y) implies cs.contains(y) by {
            if all.len() > n {
                let k = choose|k: int| 0 <= k < n && all.subrange(0, n as int)[k] == y;
                assert(all[k] == y);
                assert(all.contains(y));
            } else {
                assert(all.contains(y));
            }
        }
    }
}

/// Sum of the first four shares.
pub open spec fn sum4(s: Seq<nat>) -> nat {
    s[0] + s[1] + s[2] + s[3]
}

/// What can be taken off the first four shares without taking a share
/// below one.
pub open spec fn spare4(s: Seq<nat>) -> nat {
    (if s[0] > 0 { (s[0] - 1) as nat } else { 0nat }) + (if s[1] > 0 { (s[1] - 1) as nat } else { 0nat })
        + (if s[2] > 0 { (s[2] - 1) as nat } else { 0nat }) + (if s[3] > 0 { (s[3] - 1) as nat } else { 0nat })
}

proof fn lemma_trim_shares(s: Seq<nat>, e: nat)
    requires
        s.len() == 4,
        spare4(s) >= e,
    ensures
        trim_shares(s, e).len() == 4,
        sum4(trim_shares(s, e)) == sum4(s) - e,
        forall|j: int| 0 <= j < 4 ==> #[trigger] trim_shares(s, e)[j] <= s[j],
        forall|j: int| 0 <= j < 4 && s[j] >= 1 ==> #[trigger] trim_shares(s, e)[j] >= 1,
    decreases e,
{
    if e > 0 {
        lemma_largest_above_one(s, 4);
        let k = largest_above_one(s, 4);
        if k < 0 {
            assert(s[0] <= 1 && s[1] <= 1 && s[2] <= 1 && s[3] <= 1);
        }
        let s2 = s.update(k, (s[k] - 1) as nat);
        lemma_trim_shares(s2, (e - 1) as nat);
    }
}

/// Taking off at least everything spare leaves one for each share that
/// had any.
proof fn lemma_trim_shares_to_ones(s: Seq<nat>, e: nat)
    requires
        s.len() == 4,
        spare4(s) <= e,
    ensures
        trim_shares(s, e).len() == 4,
        forall|j: int| 0 <= j < 4 ==> #[trigger] trim_shares(s, e)[j] == if s[j] > 0 { 1nat } else { 0nat },
    decreases e,
{
    lemma_largest_above_one(s, 4);
    let k = largest_above_one(s, 4);
    if e == 0 || k < 0 {
        assert(s[0] <= 1 && s[1] <= 1 && s[2] <= 1 && s[3] <= 1);
    } else {
        let s2 = s.update(k, (s[k] - 1) as nat);
        assert(spare4(s2) + 1 == spare4(s));
        lemma_trim_shares_to_ones(s2, (e - 1) as nat);
        assert forall|j: int| 0 <= j < 4 implies (s2[j] > 0) == (s[j] > 0) by {}
    }
}

proof fn lemma_insert_len(s: Seq<ModelCandidate>, x: ModelCandidate, all: Seq<ModelCandidate>)
    ensures
        insert_by_key(s, x, all).len() == s.len() + 1,
    decreases s.len(),
{
    if s.len() > 0 {
        lemma_insert_len(s.drop_last(), x, all);
    }
}

pub(crate) proof fn lemma_sort_len(s: Seq<ModelCandidate>, all: Seq<ModelCandidate>)
    ensures
        sort_by_key(s, all).len() == s.len(),
    decreases s.len(),
{
    if s.len() > 0 {
        lemma_sort_len(s.drop_last(), all);
        lemma_insert_len(sort_by_key(s.drop_last(), all), s.last(), all);
    }
}

proof fn lemma_greedy_grows(
    scored: Seq<ModelCandidate>,
    n: nat,
    i: nat,
    sel: Seq<ModelCandidate>,
    used: Seq<Seq<char>>,
)
    ensures
        greedy_pick(scored, n, i, sel, used).len() >= sel.len(),
    decreases scored.len() - i,
{
    if i >= scored.len() || sel.len() >= n {
    } else {
        let c = scored[i as int];
        let a = arch_of(c);
        let allow_repeat = used.len() >= 4 || sel.len() < n / 2;
        if !allow_repeat && used.contains(a) {
            lemma_greedy_grows(scored, n, i + 1, sel, used);
        } else {
            let used2 = if used.contains(a) {
                used
            } else {
                used.push(a)
            };
            lemma_greedy_grows(scored, n, i + 1, sel.push(c), used2);
        }
    }
}

proof fn lemma_fill_grows(
    cands: Seq<ModelCandidate>,
    n: nat,
    i: nat,
    sel: Seq<ModelCandidate>,
    taken: Seq<Seq<char>>,
)
    ensures
        fill_up(cands, n, i, sel, taken).len() >= sel.len(),
    decreases cands.len() - i,
{
    if i >= cands.len() || sel.len() >= n {
    } else if taken.contains(cands[i as int].path@) {
        lemma_fill_grows(cands, n, i + 1, sel, taken);
    } else {
        lemma_fill_grows(cands, n, i + 1, sel.push(cands[i as int]), taken);
    }
}

/// A tier with candidates and a share of at least one contributes a model.
proof fn lemma_select_in_tier_nonempty(cands: Seq<ModelCandidate>, n: nat)
    requires
        cands.len() > 0,
        n >= 1,
    ensures
        select_in_tier(cands, n).len() >= 1,
{
    if n < cands.len() {
        let scored = sort_by_key(cands, cands);
        lemma_sort_len(cands, cands);
        let e: Seq<ModelCandidate> = Seq::empty();
        let u: Seq<Seq<char>> = Seq::empty();
        assert(!u.contains(arch_of(scored[0])));
        let used1 = u.push(arch_of(scored[0]));
        assert(greedy_pick(scored, n, 0, e, u) == greedy_pick(scored, n, 1, e.push(scored[0]), used1));
        lemma_greedy_grows(scored, n, 1, e.push(scored[0]), used1);
        let g = greedy_pick(scored, n, 0, e, u);
        if g.len() < n {
            lemma_fill_grows(cands, n, 0, g, paths_of(g));
        }
    }
}

/// The shares of the four tiers add up to at most `n`, every tier with
/// candidates gets at least one and no tier more than it holds — as long
/// as `n` covers one model per tier with candidates.
#[verifier::rlimit(40)]
proof fn lemma_shares_fit(cs: Seq<ModelCandidate>, n: nat)
    requires
        0 < n < cs.len(),
        nonempty_tiers(cs) <= n,
    ensures
        tier_share(cs, n, 0) + tier_share(cs, n, 1) + tier_share(cs, n, 2) + tier_share(cs, n, 3) <= n,
        forall|r: nat| r < 4 ==> #[trigger] tier_share(cs, n, r) <= tier_count(cs, r),
        forall|r: nat| r < 4 && tier_count(cs, r) > 0 ==> #[trigger] tier_share(cs, n, r) >= 1,
{
    let b = base_shares(cs, n);
    assert(forall|r: nat| r < 4 ==> #[trigger] tier_base(cs, n, r) <= tier_count(cs, r));
    assert(forall|r: nat| r < 4 ==> (#[trigger] tier_base(cs, n, r) >= 1 <==> tier_count(cs, r) > 0));
    if base_total(cs, n) > n {
        assert(sum4(b) == base_total(cs, n));
        assert(spare4(b) + nonempty_tiers(cs) == sum4(b));
        lemma_trim_shares(b, share_gap(cs, n));
        let t = trim_shares(b, share_gap(cs, n));
        assert(tier_share(cs, n, 0) == t[0] && tier_share(cs, n, 1) == t[1]);
        assert(tier_share(cs, n, 2) == t[2] && tier_share(cs, n, 3) == t[3]);
        assert forall|r: nat| r < 4 implies #[trigger] tier_share(cs, n, r) <= tier_count(cs, r) by {
            assert(tier_share(cs, n, r) == t[r as int]);
            assert(b[r as int] == tier_base(cs, n, r));
        }
        assert forall|r: nat| r < 4 && tier_count(cs, r) > 0 implies #[trigger] tier_share(cs, n, r) >= 1 by {
            assert(tier_share(cs, n, r) == t[r as int]);
            assert(b[r as int] == tier_base(cs, n, r));
        }
    } else {
        lemma_room_positions(cs, n);
    }
}

/// Among the tiers with room, at most `share_gap` have a position below it.
proof fn lemma_room_positions(cs: Seq<ModelCandidate>, n: nat)
    ensures
        (if has_room(cs, n, 0) && room_position(cs, n, 0) < share_gap(cs, n) { 1nat } else { 0nat })
            + (if has_room(cs, n, 1) && room_position(cs, n, 1) < share_gap(cs, n) { 1nat } else { 0nat })
            + (if has_room(cs, n, 2) && room_position(cs, n, 2) < share_gap(cs, n) { 1nat } else { 0nat })
            + (if has_room(cs, n, 3) && room_position(cs, n, 3) < share_gap(cs, n) { 1nat } else { 0nat })
            <= share_gap(cs, n),
{
}

proof fn lemma_base_share_bound(c: nat, n: nat, t: nat)
    requires
        0 < n < t,
        c <= t,
    ensures
        base_share(c, n, t) <= c,
        c == 0 ==> base_share(c, n, t) == 0,
        c > 0 && base_share(c, n, t) < c ==> 2 * (t * base_share(c, n, t)) + t > 2 * (c * n),
        c > 0 && base_share(c, n, t) == c ==> 2 * (t * base_share(c, n, t)) > 2 * (c * n),
{
    if c > 0 {
        let x = c * n;
        let q = x / t;
        let rm = x % t;
        vstd::arithmetic::div_mod::lemma_fundamental_div_mod(x as int, t as int);
        vstd::arithmetic::div_mod::lemma_mod_pos_bound(x as int, t as int);
        let rd = round_div(x, t);
        assert(2 * t * rd + t > 2 * x) by (nonlinear_arith)
            requires
                x == t * q + rm,
                0 <= rm < t,
                rd == q + (if 2 * rm >= t { 1nat } else { 0nat }),
        ;
        let b = base_share(c, n, t);
        if b < c {
            assert(b >= rd);
            assert(t * b >= t * rd) by (nonlinear_arith)
                requires
                    b >= rd,
            ;
            assert(2 * (t * rd) == 2 * t * rd) by (nonlinear_arith);
        } else {
            assert(t * c > c * n) by (nonlinear_arith)
                requires
                    c > 0,
                    t > n,
            ;
        }
    }
}

/// Number of tiers that could take one more model.
pub open spec fn room_tiers(cs: Seq<ModelCandidate>, n: nat) -> nat {
    (if has_room(cs, n, 0) { 1nat } else { 0nat }) + (if has_room(cs, n, 1) { 1nat } else { 0nat })
        + (if has_room(cs, n, 2) { 1nat } else { 0nat }) + (if has_room(cs, n, 3) { 1nat } else { 0nat })
}

/// When the proportional shares fall short of `n`, fewer than half as
/// many tiers as have room are missing a model, so one more each for the
/// first of them makes up the difference.
proof fn lemma_shortfall_small(cs: Seq<ModelCandidate>, n: nat)
    requires
        0 < n < cs.len(),
        base_total(cs, n) <= n,
    ensures
        2 * share_gap(cs, n) < room_tiers(cs, n) || share_gap(cs, n) == 0,
{
    let t = cs.len();
    lemma_bucket_lengths(cs);
    assert(tier_at(0) == SizeTier::Tiny && tier_at(1) == SizeTier::Small);
    assert(tier_at(2) == SizeTier::Medium && tier_at(3) == SizeTier::Large);
    let c0 = tier_count(cs, 0);
    let c1 = tier_count(cs, 1);
    let c2 = tier_count(cs, 2);
    let c3 = tier_count(cs, 3);
    assert(c0 + c1 + c2 + c3 == t);
    lemma_base_share_bound(c0, n, t);
    lemma_base_share_bound(c1, n, t);
    lemma_base_share_bound(c2, n, t);
    lemma_base_share_bound(c3, n, t);
    let b0 = tier_base(cs, n, 0);
    let b1 = tier_base(cs, n, 1);
    let b2 = tier_base(cs, n, 2);
    let b3 = tier_base(cs, n, 3);
    let x0: nat = if has_room(cs, n, 0) { 1 } else { 0 };
    let x1: nat = if has_room(cs, n, 1) { 1 } else { 0 };
    let x2: nat = if has_room(cs, n, 2) { 1 } else { 0 };
    let x3: nat = if has_room(cs, n, 3) { 1 } else { 0 };
    assert(2 * (t * b0) + t * x0 >= 2 * (c0 * n));
    assert(2 * (t * b1) + t * x1 >= 2 * (c1 * n));
    assert(2 * (t * b2) + t * x2 >= 2 * (c2 * n));
    assert(2 * (t * b3) + t * x3 >= 2 * (c3 * n));
    assert(2 * (t * b0) + t * x0 > 2 * (c0 * n) || 2 * (t * b1) + t * x1 > 2 * (c1 * n) || 2 * (t * b2)
        + t * x2 > 2 * (c2 * n) || 2 * (t * b3) + t * x3 > 2 * (c3 * n));
    assert(c0 * n + c1 * n + c2 * n + c3 * n == t * n) by (nonlinear_arith)
        requires
            c0 + c1 + c2 + c3 == t,
    ;
    assert(t * b0 + t * b1 + t * b2 + t * b3 == t * (b0 + b1 + b2 + b3)) by (nonlinear_arith);
    assert(t * x0 + t * x1 + t * x2 + t * x3 == t * (x0 + x1 + x2 + x3)) by (nonlinear_arith);
    let bb = b0 + b1 + b2 + b3;
    let xx = x0 + x1 + x2 + x3;
    assert(2 * (t * bb) + t * xx > 2 * (t * n));
    assert(2 * bb + xx > 2 * n) by (nonlinear_arith)
        requires
            2 * (t * bb) + t * xx > 2 * (t * n),
            t > 0,
    ;
}

/// The shares of the four tiers add up to exactly `n` when `n` is below
/// the number of candidates but covers one model per tier that holds any.
pub proof fn lemma_shares_sum_to_n(cs: Seq<ModelCandidate>, n: nat)
    requires
        nonempty_tiers(cs) <= n < cs.len(),
        n > 0,
    ensures
        tier_share(cs, n, 0) + tier_share(cs, n, 1) + tier_share(cs, n, 2) + tier_share(cs, n, 3) == n,
{
    let b = base_shares(cs, n);
    assert(forall|r: nat| r < 4 ==> (#[trigger] tier_base(cs, n, r) >= 1 <==> tier_count(cs, r) > 0));
    if base_total(cs, n) > n {
        assert(sum4(b) == base_total(cs, n));
        assert(spare4(b) + nonempty_tiers(cs) == sum4(b));
        lemma_trim_shares(b, share_gap(cs, n));
        let t = trim_shares(b, share_gap(cs, n));
        assert(tier_share(cs, n, 0) == t[0] && tier_share(cs, n, 1) == t[1]);
        assert(tier_share(cs, n, 2) == t[2] && tier_share(cs, n, 3) == t[3]);
    } else {
        lemma_shortfall_small(cs, n);
        lemma_room_positions_fill(cs, n);
    }
}

/// Among the tiers with room, as many as `share_gap` have a position
/// below it when that many have room.
proof fn lemma_room_positions_fill(cs: Seq<ModelCandidate>, n: nat)
    requires
        share_gap(cs, n) <= room_tiers(cs, n),
    ensures
        (if has_room(cs, n, 0) && room_position(cs, n, 0) < share_gap(cs, n) { 1nat } else { 0nat })
            + (if has_room(cs, n, 1) && room_position(cs, n, 1) < share_gap(cs, n) { 1nat } else { 0nat })
            + (if has_room(cs, n, 2) && room_position(cs, n, 2) < share_gap(cs, n) { 1nat } else { 0nat })
            + (if has_room(cs, n, 3) && room_position(cs, n, 3) < share_gap(cs, n) { 1nat } else { 0nat })
            == share_gap(cs, n),
{
}

/// Number of tiers that hold candidates.
pub open spec fn nonempty_tiers(cs: Seq<ModelCandidate>) -> nat {
    (if tier_count(cs, 0) > 0 { 1nat } else { 0nat }) + (if tier_count(cs, 1) > 0 { 1nat } else { 0nat })
        + (if tier_count(cs, 2) > 0 { 1nat } else { 0nat }) + (if tier_count(cs, 3) > 0 { 1nat } else { 0nat })
}

/// Every size tier that holds candidates is represented in the selection
/// when `n` is below the number of candidates but covers one model per
/// such tier; the selection then keeps every tier's picks whole.
pub proof fn lemma_every_tier_kept(cs: Seq<ModelCandidate>, n: nat, r: nat)
    requires
        nonempty_tiers(cs) <= n < cs.len(),
        r < 4,
        tier_count(cs, r) > 0,
    ensures
        select_n(cs, n) == tiered_selection(cs, n),
        exists|k: int| 0 <= k < select_n(cs, n).len() && tier_for_size(#[trigger] select_n(cs, n)[k].file_size_bytes)
            == tier_at(r),
{
    assert(n > 0) by {
        assert(nonempty_tiers(cs) >= 1);
    }
    lemma_shares_fit(cs, n);
    let s0 = select_in_tier(bucket(cs, SizeTier::Tiny), tier_share(cs, n, 0));
    let s1 = select_in_tier(bucket(cs, SizeTier::Small), tier_share(cs, n, 1));
    let s2 = select_in_tier(bucket(cs, SizeTier::Medium), tier_share(cs, n, 2));
    let s3 = select_in_tier(bucket(cs, SizeTier::Large), tier_share(cs, n, 3));
    lemma_select_in_tier_sound(bucket(cs, SizeTier::Tiny), tier_share(cs, n, 0));
    lemma_select_in_tier_sound(bucket(cs, SizeTier::Small), tier_share(cs, n, 1));
    lemma_select_in_tier_sound(bucket(cs, SizeTier::Medium), tier_share(cs, n, 2));
    lemma_select_in_tier_sound(bucket(cs, SizeTier::Large), tier_share(cs, n, 3));
    let all = tiered_selection(cs, n);
    assert(all.len() <= n);
    let b = bucket(cs, tier_at(r));
    let part = select_in_tier(b, tier_share(cs, n, r));
    lemma_select_in_tier_nonempty(b, tier_share(cs, n, r));
    lemma_select_in_tier_sound(b, tier_share(cs, n, r));
    let y = part[0];
    assert(part.contains(y));
    lemma_bucket_members(cs, tier_at(r), y);
    let off: int = if r == 0 {
        0
    } else if r == 1 {
        s0.len() as int
    } else if r == 2 {
        (s0.len() + s1.len()) as int
    } else {
        (s0.len() + s1.len() + s2.len()) as int
    };
    assert(all[off] == y);
    assert(select_n(cs, n) == all);
    assert(0 <= off < select_n(cs, n).len());
    assert(tier_for_size(select_n(cs, n)[off].file_size_bytes) == tier_at(r));
}

/// When `n` covers every candidate, `select_n_models` returns all of them,
/// in input order; otherwise it returns at most `n` models, each one of
/// the candidates.
pub proof fn lemma_select_n_shape(cs: Seq<ModelCandidate>, n: nat)
    ensures
        n >= cs.len() && n > 0 ==> select_n(cs, n) == cs,
        n >= cs.len() ==> select_n(cs, n).len() == cs.len(),
        select_n(cs, n).len() <= n,
        forall|y: ModelCandidate| #[trigger] select_n(cs, n).contains(y) ==> cs.contains(y),
{
    lemma_select_n_sound(cs, n);
    if n >= cs.len() && cs.len() == 0 {
        assert(select_n(cs, n) =~= cs);
    }
}

/// No two entries share a file path.
pub open spec fn distinct_paths(s: Seq<ModelCandidate>) -> bool {
    forall|i: int, j: int| 0 <= i < j < s.len() ==> #[trigger] s[i].path@ != #[trigger] s[j].path@
}

/// Some entry has this file path.
pub open spec fn has_path(s: Seq<ModelCandidate>, p: Seq<char>) -> bool {
    exists|k: int| 0 <= k < s.len() && #[trigger] s[k].path@ == p
}

proof fn lemma_push_distinct(s: Seq<ModelCandidate>, x: ModelCandidate)
    requires
        distinct_paths(s),
        !has_path(s, x.path@),
    ensures
        distinct_paths(s.push(x)),
{
    assert forall|i: int, j: int| 0 <= i < j < s.push(x).len() implies #[trigger] s.push(x)[i].path@
        != #[trigger] s.push(x)[j].path@ by {
        if j == s.len() {
            assert(s.push(x)[i] == s[i]);
            if s[i].path@ == x.path@ {
                assert(has_path(s, x.path@));
            }
        } else {
            assert(s.push(x)[i] == s[i] && s.push(x)[j] == s[j]);
        }
    }
}

proof fn lemma_members_path(s: Seq<ModelCandidate>, t: Seq<ModelCandidate>, p: Seq<char>)
    requires
        forall|y: ModelCandidate| #[trigger] s.contains(y) ==> t.contains(y),
        has_path(s, p),
    ensures
        has_path(t, p),
{
    let k = choose|k: int| 0 <= k < s.len() && #[trigger] s[k].path@ == p;
    assert(s.contains(s[k]));
    let j = choose|j: int| 0 <= j < t.len() && t[j] == s[k];
    assert(t[j].path@ == p);
}

proof fn lemma_insert_distinct(s: Seq<ModelCandidate>, x: ModelCandidate, all: Seq<ModelCandidate>)
    requires
        distinct_paths(s),
        !has_path(s, x.path@),
    ensures
        distinct_paths(insert_by_key(s, x, all)),
    decreases s.len(),
{
    if s.len() == 0 {
        assert(insert_by_key(s, x, all) =~= seq![x]);
    } else if key_le(diversity_key(all, s.last()), diversity_key(all, x)) {
        lemma_push_distinct(s, x);
    } else {
        let d = s.drop_last();
        assert(distinct_paths(d));
        if has_path(d, x.path@) {
            let k = choose|k: int| 0 <= k < d.len() && #[trigger] d[k].path@ == x.path@;
            assert(s[k] == d[k]);
        }
        lemma_insert_distinct(d, x, all);
        let r = insert_by_key(d, x, all);
        if has_path(r, s.last().path@) {
            let k = choose|k: int| 0 <= k < r.len() && #[trigger] r[k].path@ == s.last().path@;
            assert(r.contains(r[k]));
            lemma_insert_members(d, x, all, r[k]);
            if d.contains(r[k]) {
                let j = choose|j: int| 0 <= j < d.len() && d[j] == r[k];
                assert(s[j] == d[j]);
                assert(s[j].path@ == s[s.len() - 1].path@);
            } else {
                assert(has_path(s, x.path@)) by {
                    assert(s[s.len() - 1].path@ == x.path@);
                }
            }
        }
        lemma_push_distinct(r, s.last());
    }
}

proof fn lemma_sort_distinct(s: Seq<ModelCandidate>, all: Seq<ModelCandidate>)
    requires
        distinct_paths(s),
    ensures
        distinct_paths(sort_by_key(s, all)),
    decreases s.len(),
{
    if s.len() > 0 {
        let d = s.drop_last();
        assert(distinct_paths(d));
        lemma_sort_distinct(d, all);
        let sd = sort_by_key(d, all);
        if has_path(sd, s.last().path@) {
            let k = choose|k: int| 0 <= k < sd.len() && #[trigger] sd[k].path@ == s.last().path@;
            assert(sd.contains(sd[k]));
            lemma_sort_members(d, all, sd[k]);
            let j = choose|j: int| 0 <= j < d.len() && d[j] == sd[k];
            assert(s[j] == d[j]);
            assert(s[j].path@ == s[s.len() - 1].path@);
        }
        lemma_insert_distinct(sd, s.last(), all);
    }
}

proof fn lemma_greedy_distinct(
    scored: Seq<ModelCandidate>,
    n: nat,
    i: nat,
    sel: Seq<ModelCandidate>,
    used: Seq<Seq<char>>,
)
    requires
        distinct_paths(scored),
        distinct_paths(sel),
        forall|y: ModelCandidate, k: int| #[trigger] sel.contains(y) && i <= k < scored.len() ==> y.path@
            != #[trigger] scored[k].path@,
    ensures
        distinct_paths(greedy_pick(scored, n, i, sel, used)),
    decreases scored.len() - i,
{
    if i >= scored.len() || sel.len() >= n {
    } else {
        let c = scored[i as int];
        let a = arch_of(c);
        let allow_repeat = used.len() >= 4 || sel.len() < n / 2;
        if !allow_repeat && used.contains(a) {
            lemma_greedy_distinct(scored, n, i + 1, sel, used);
        } else {
            let used2 = if used.contains(a) {
                used
            } else {
                used.push(a)
            };
            if has_path(sel, c.path@) {
                let k = choose|k: int| 0 <= k < sel.len() && #[trigger] sel[k].path@ == c.path@;
                assert(sel.contains(sel[k]));
            }
            lemma_push_distinct(sel, c);
            let sel2 = sel.push(c);
            assert forall|y: ModelCandidate, k: int| #[trigger] sel2.contains(y) && i + 1 <= k < scored.len()
                implies y.path@ != #[trigger] scored[k].path@ by {
                let m = choose|m: int| 0 <= m < sel2.len() && sel2[m] == y;
                if m < sel.len() {
                    assert(sel[m] == y);
                    assert(sel.contains(y));
                } else {
                    assert(y == scored[i as int]);
                }
            }
            lemma_greedy_distinct(scored, n, i + 1, sel2, used2);
        }
    }
}

proof fn lemma_fill_distinct(
    cands: Seq<ModelCandidate>,
    n: nat,
    i: nat,
    sel: Seq<ModelCandidate>,
    taken: Seq<Seq<char>>,
)
    requires
        distinct_paths(cands),
        distinct_paths(sel),
        forall|y: ModelCandidate, k: int| #[trigger] sel.contains(y) && i <= k < cands.len() && y.path@
            == #[trigger] cands[k].path@ ==> taken.contains(y.path@),
    ensures
        distinct_paths(fill_up(cands, n, i, sel, taken)),
    decreases cands.len() - i,
{
    if i >= cands.len() || sel.len() >= n {
    } else if taken.contains(cands[i as int].path@) {
        lemma_fill_distinct(cands, n, i + 1, sel, taken);
    } else {
        let c = cands[i as int];
        if has_path(sel, c.path@) {
            let k = choose|k: int| 0 <= k < sel.len() && #[trigger] sel[k].path@ == c.path@;
            assert(sel.contains(sel[k]));
        }
        lemma_push_distinct(sel, c);
        let sel2 = sel.push(c);
        assert forall|y: ModelCandidate, k: int| #[trigger] sel2.contains(y) && i + 1 <= k < cands.len()
            && y.path@ == #[trigger] cands[k].path@ implies taken.contains(y.path@) by {
            let m = choose|m: int| 0 <= m < sel2.len() && sel2[m] == y;
            if m < sel.len() {
                assert(sel[m] == y);
                assert(sel.contains(y));
            } else {
                assert(y == cands[i as int]);
            }
        }
        lemma_fill_distinct(cands, n, i + 1, sel2, taken);
    }
}

/// Within one tier, no two chosen models share a file path when the tier's
/// candidates do not.
pub proof fn lemma_select_in_tier_distinct(cands: Seq<ModelCandidate>, n: nat)
    requires
        distinct_paths(cands),
    ensures
        distinct_paths(select_in_tier(cands, n)),
{
    if cands.len() == 0 || n == 0 {
        assert(distinct_paths(Seq::<ModelCandidate>::empty()));
    } else if n >= cands.len() {
    } else {
        let scored = sort_by_key(cands, cands);
        lemma_sort_distinct(cands, cands);
        let e: Seq<ModelCandidate> = Seq::empty();
        let u: Seq<Seq<char>> = Seq::empty();
        assert(distinct_paths(e));
        lemma_greedy_distinct(scored, n, 0, e, u);
        let g = greedy_pick(scored, n, 0, e, u);
        if g.len() < n {
            assert forall|y: ModelCandidate, k: int| #[trigger] g.contains(y) && 0 <= k < cands.len() && y.path@
                == #[trigger] cands[k].path@ implies paths_of(g).contains(y.path@) by {
                let m = choose|m: int| 0 <= m < g.len() && g[m] == y;
                assert(paths_of(g)[m] == y.path@);
            }
            lemma_fill_distinct(cands, n, 0, g, paths_of(g));
        }
    }
}

proof fn lemma_bucket_distinct(cs: Seq<ModelCandidate>, t: SizeTier)
    requires
        distinct_paths(cs),
    ensures
        distinct_paths(bucket(cs, t)),
    decreases cs.len(),
{
    if cs.len() > 0 {
        let d = cs.drop_last();
        assert(distinct_paths(d));
        lemma_bucket_distinct(d, t);
        if tier_for_size(cs.last().file_size_bytes) == t {
            let b = bucket(d, t);
            if has_path(b, cs.last().path@) {
                let k = choose|k: int| 0 <= k < b.len() && #[trigger] b[k].path@ == cs.last().path@;
                assert(b.contains(b[k]));
                lemma_bucket_members(d, t, b[k]);
                let j = choose|j: int| 0 <= j < d.len() && d[j] == b[k];
                assert(cs[j] == d[j]);
                assert(cs[j].path@ == cs[cs.len() - 1].path@);
            }
            lemma_push_distinct(b, cs.last());
            assert(bucket(cs, t) =~= b.push(cs.last()));
        } else {
            assert(bucket(cs, t) =~= bucket(d, t));
        }
    }
}

/// The picks of the tier at `r`: candidates of `cs` in that tier.
proof fn lemma_tier_pick(cs: Seq<ModelCandidate>, n: nat, r: nat, y: ModelCandidate)
    requires
        select_in_tier(bucket(cs, tier_at(r)), tier_share(cs, n, r)).contains(y),
    ensures
        cs.contains(y),
        tier_for_size(y.file_size_bytes) == tier_at(r),
{
    lemma_select_in_tier_sound(bucket(cs, tier_at(r)), tier_share(cs, n, r));
    lemma_bucket_members(cs, tier_at(r), y);
}

proof fn lemma_concat_distinct(a: Seq<ModelCandidate>, b: Seq<ModelCandidate>)
    requires
        distinct_paths(a),
        distinct_paths(b),
        forall|i: int, j: int| 0 <= i < a.len() && 0 <= j < b.len() ==> #[trigger] a[i].path@ != #[trigger] b[j].path@,
    ensures
        distinct_paths(a + b),
{
    assert forall|i: int, j: int| 0 <= i < j < (a + b).len() implies #[trigger] (a + b)[i].path@
        != #[trigger] (a + b)[j].path@ by {
        if j < a.len() {
        } else if i < a.len() {
            assert((a + b)[j] == b[j - a.len()]);
        } else {
            assert((a + b)[i] == b[i - a.len()] && (a + b)[j] == b[j - a.len()]);
        }
    }
}

proof fn lemma_tiers_apart(cs: Seq<ModelCandidate>, y: ModelCandidate, z: ModelCandidate)
    requires
        distinct_paths(cs),
        cs.contains(y),
        cs.contains(z),
        tier_for_size(y.file_size_bytes) != tier_for_size(z.file_size_bytes),
    ensures
        y.path@ != z.path@,
{
    let j = choose|j: int| 0 <= j < cs.len() && cs[j] == y;
    let k = choose|k: int| 0 <= k < cs.len() && cs[k] == z;
    if j < k {
        assert(cs[j].path@ != cs[k].path@);
    } else if k < j {
        assert(cs[k].path@ != cs[j].path@);
    }
}

/// `select_n_models` never repeats a model: when the candidates' file
/// paths differ, so do those of the models it returns.
pub proof fn lemma_select_n_distinct(cs: Seq<ModelCandidate>, n: nat)
    requires
        distinct_paths(cs),
    ensures
        distinct_paths(select_n(cs, n)),
{
    if cs.len() == 0 || n == 0 {
        assert(distinct_paths(Seq::<ModelCandidate>::empty()));
    } else if n >= cs.len() {
    } else {
        let p0 = select_in_tier(bucket(cs, tier_at(0)), tier_share(cs, n, 0));
        let p1 = select_in_tier(bucket(cs, tier_at(1)), tier_share(cs, n, 1));
        let p2 = select_in_tier(bucket(cs, tier_at(2)), tier_share(cs, n, 2));
        let p3 = select_in_tier(bucket(cs, tier_at(3)), tier_share(cs, n, 3));
        assert(tier_at(0) == SizeTier::Tiny && tier_at(1) == SizeTier::Small);
        assert(tier_at(2) == SizeTier::Medium && tier_at(3) == SizeTier::Large);
        assert forall|r: nat| r < 4 implies #[trigger] distinct_paths(
            select_in_tier(bucket(cs, tier_at(r)), tier_share(cs, n, r)),
        ) by {
            lemma_bucket_distinct(cs, tier_at(r));
            lemma_select_in_tier_distinct(bucket(cs, tier_at(r)), tier_share(cs, n, r));
        }
        assert(distinct_paths(p0) && distinct_paths(p1) && distinct_paths(p2) && distinct_paths(p3));
        assert forall|a: nat, b: nat, i: int, j: int|
            a < b < 4 && 0 <= i < select_in_tier(bucket(cs, tier_at(a)), tier_share(cs, n, a)).len() && 0 <= j
                < select_in_tier(bucket(cs, tier_at(b)), tier_share(cs, n, b)).len() implies
            #[trigger] select_in_tier(bucket(cs, tier_at(a)), tier_share(cs, n, a))[i].path@
            != #[trigger] select_in_tier(bucket(cs, tier_at(b)), tier_share(cs, n, b))[j].path@ by {
            let y = select_in_tier(bucket(cs, tier_at(a)), tier_share(cs, n, a))[i];
            let z = select_in_tier(bucket(cs, tier_at(b)), tier_share(cs, n, b))[j];
            assert(select_in_tier(bucket(cs, tier_at(a)), tier_share(cs, n, a)).contains(y));
            assert(select_in_tier(bucket(cs, tier_at(b)), tier_share(cs, n, b)).contains(z));
            lemma_tier_pick(cs, n, a, y);
            lemma_tier_pick(cs, n, b, z);
            lemma_tiers_apart(cs, y, z);
        }
        lemma_concat_distinct(p0, p1);
        assert forall|i: int, j: int| 0 <= i < (p0 + p1).len() && 0 <= j < p2.len() implies
            #[trigger] (p0 + p1)[i].path@ != #[trigger] p2[j].path@ by {
            if i < p0.len() {
                assert(p0[i].path@ != p2[j].path@);
            } else {
                assert((p0 + p1)[i] == p1[i - p0.len()]);
                assert(p1[i - p0.len()].path@ != p2[j].path@);
            }
        }
        lemma_concat_distinct(p0 + p1, p2);
        assert forall|i: int, j: int| 0 <= i < (p0 + p1 + p2).len() && 0 <= j < p3.len() implies
            #[trigger] (p0 + p1 + p2)[i].path@ != #[trigger] p3[j].path@ by {
            if i < p0.len() {
                assert((p0 + p1 + p2)[i] == p0[i]);
                assert(p0[i].path@ != p3[j].path@);
            } else if i < p0.len() + p1.len() {
                assert((p0 + p1 + p2)[i] == p1[i - p0.len()]);
                assert(p1[i - p0.len()].path@ != p3[j].path@);
            } else {
                assert((p0 + p1 + p2)[i] == p2[i - p0.len() - p1.len()]);
                assert(p2[i - p0.len() - p1.len()].path@ != p3[j].path@);
            }
        }
        lemma_concat_distinct(p0 + p1 + p2, p3);
        let all = tiered_selection(cs, n);
        assert(all =~= p0 + p1 + p2 + p3);
        if all.len() > n {
            assert forall|i: int, j: int| 0 <= i < j < all.subrange(0, n as int).len() implies
                #[trigger] all.subrange(0, n as int)[i].path@ != #[trigger] all.subrange(0, n as int)[j].path@ by {
                assert(all[i].path@ != all[j].path@);
            }
        }
    }
}

/// How many candidates from position `i` on have a path among `taken`.
pub open spec fn count_taken(cands: Seq<ModelCandidate>, i: nat, taken: Seq<Seq<char>>) -> nat
    decreases cands.len() - i,
{
    if i >= cands.len() {
        0
    } else {
        (if taken.contains(cands[i as int].path@) { 1nat } else { 0nat }) + count_taken(cands, i + 1, taken)
    }
}

/// How many candidates from position `i` on have the path `p`.
pub open spec fn count_path(cands: Seq<ModelCandidate>, i: nat, p: Seq<char>) -> nat
    decreases cands.len() - i,
{
    if i >= cands.len() {
        0
    } else {
        (if cands[i as int].path@ == p { 1nat } else { 0nat }) + count_path(cands, i + 1, p)
    }
}

proof fn lemma_count_path_at_most_one(cands: Seq<ModelCandidate>, i: nat, p: Seq<char>)
    requires
        distinct_paths(cands),
    ensures
        count_path(cands, i, p) <= 1,
        count_path(cands, i, p) == 1 ==> exists|k: int| i <= k < cands.len() && #[trigger] cands[k].path@ == p,
    decreases cands.len() - i,
{
    if i < cands.len() {
        lemma_count_path_at_most_one(cands, i + 1, p);
        if cands[i as int].path@ == p && count_path(cands, i + 1, p) == 1 {
            let k = choose|k: int| i + 1 <= k < cands.len() && #[trigger] cands[k].path@ == p;
            assert(cands[i as int].path@ != cands[k].path@);
        }
    }
}

proof fn lemma_count_taken_push(cands: Seq<ModelCandidate>, i: nat, taken: Seq<Seq<char>>, p: Seq<char>)
    ensures
        count_taken(cands, i, taken.push(p)) <= count_taken(cands, i, taken) + count_path(cands, i, p),
    decreases cands.len() - i,
{
    if i < cands.len() {
        lemma_count_taken_push(cands, i + 1, taken, p);
        let q = cands[i as int].path@;
        if taken.push(p).contains(q) {
            let k = choose|k: int| 0 <= k < taken.push(p).len() && taken.push(p)[k] == q;
            if k < taken.len() {
                assert(taken[k] == q);
            }
        }
    }
}

proof fn lemma_count_taken_bound(cands: Seq<ModelCandidate>, taken: Seq<Seq<char>>)
    requires
        distinct_paths(cands),
    ensures
        count_taken(cands, 0, taken) <= taken.len(),
    decreases taken.len(),
{
    if taken.len() == 0 {
        lemma_count_taken_none(cands, 0, taken);
    } else {
        let t = taken.drop_last();
        lemma_count_taken_bound(cands, t);
        lemma_count_taken_push(cands, 0, t, taken.last());
        lemma_count_path_at_most_one(cands, 0, taken.last());
        assert(t.push(taken.last()) =~= taken);
    }
}

proof fn lemma_count_taken_none(cands: Seq<ModelCandidate>, i: nat, taken: Seq<Seq<char>>)
    requires
        taken.len() == 0,
    ensures
        count_taken(cands, i, taken) == 0,
    decreases cands.len() - i,
{
    if i < cands.len() {
        lemma_count_taken_none(cands, i + 1, taken);
    }
}

proof fn lemma_fill_reaches(
    cands: Seq<ModelCandidate>,
    n: nat,
    i: nat,
    sel: Seq<ModelCandidate>,
    taken: Seq<Seq<char>>,
)
    requires
        i <= cands.len(),
        sel.len() + (cands.len() - i) - count_taken(cands, i, taken) >= n,
        sel.len() <= n,
    ensures
        fill_up(cands, n, i, sel, taken).len() == n,
    decreases cands.len() - i,
{
    if i >= cands.len() || sel.len() >= n {
    } else if taken.contains(cands[i as int].path@) {
        lemma_fill_reaches(cands, n, i + 1, sel, taken);
    } else {
        lemma_fill_reaches(cands, n, i + 1, sel.push(cands[i as int]), taken);
    }
}

proof fn lemma_count_taken_le(cands: Seq<ModelCandidate>, i: nat, taken: Seq<Seq<char>>)
    ensures
        count_taken(cands, i, taken) <= if i <= cands.len() { cands.len() - i } else { 0 },
    decreases cands.len() - i,
{
    if i < cands.len() {
        lemma_count_taken_le(cands, i + 1, taken);
    }
}

/// Within one tier, exactly `n` models are chosen when the tier has that
/// many candidates with distinct paths.
pub proof fn lemma_select_in_tier_len(cands: Seq<ModelCandidate>, n: nat)
    requires
        distinct_paths(cands),
        n <= cands.len(),
    ensures
        select_in_tier(cands, n).len() == n,
{
    if cands.len() == 0 || n == 0 {
    } else if n >= cands.len() {
    } else {
        let scored = sort_by_key(cands, cands);
        let e: Seq<ModelCandidate> = Seq::empty();
        let u: Seq<Seq<char>> = Seq::empty();
        let g = greedy_pick(scored, n, 0, e, u);
        lemma_greedy_len(scored, n, 0, e, u);
        if g.len() < n {
            assert(paths_of(g).len() == g.len());
            lemma_count_taken_bound(cands, paths_of(g));
            lemma_fill_reaches(cands, n, 0, g, paths_of(g));
        }
    }
}

/// When `n` is below the number of tiers that hold candidates, each such
/// tier gets a share of exactly one.
proof fn lemma_shares_all_ones(cs: Seq<ModelCandidate>, n: nat)
    requires
        0 < n < cs.len(),
        n < nonempty_tiers(cs),
    ensures
        forall|r: nat| r < 4 ==> #[trigger] tier_share(cs, n, r) == if tier_count(cs, r) > 0 { 1nat } else { 0nat },
{
    let b = base_shares(cs, n);
    assert(forall|r: nat| r < 4 ==> (#[trigger] tier_base(cs, n, r) >= 1 <==> tier_count(cs, r) > 0));
    assert(sum4(b) == base_total(cs, n));
    assert(spare4(b) + nonempty_tiers(cs) == sum4(b));
    assert(base_total(cs, n) > n);
    lemma_trim_shares_to_ones(b, share_gap(cs, n));
    let t = trim_shares(b, share_gap(cs, n));
    assert forall|r: nat| r < 4 implies #[trigger] tier_share(cs, n, r) == if tier_count(cs, r) > 0 {
        1nat
    } else {
        0nat
    } by {
        assert(tier_share(cs, n, r) == t[r as int]);
        assert(b[r as int] == tier_base(cs, n, r));
    }
}

/// `select_n_models` returns `min(n, number of candidates)` models when
/// the candidates' paths differ.
pub proof fn lemma_select_n_len(cs: Seq<ModelCandidate>, n: nat)
    requires
        distinct_paths(cs),
    ensures
        select_n(cs, n).len() == if n < cs.len() { n } else { cs.len() },
{
    if cs.len() == 0 || n == 0 {
    } else if n >= cs.len() {
    } else {
        assert(tier_at(0) == SizeTier::Tiny && tier_at(1) == SizeTier::Small);
        assert(tier_at(2) == SizeTier::Medium && tier_at(3) == SizeTier::Large);
        if nonempty_tiers(cs) <= n {
            lemma_shares_sum_to_n(cs, n);
            lemma_shares_fit(cs, n);
        } else {
            lemma_shares_all_ones(cs, n);
        }
        assert forall|r: nat| r < 4 implies #[trigger] select_in_tier(bucket(cs, tier_at(r)), tier_share(cs, n, r)).len()
            == tier_share(cs, n, r) by {
            lemma_bucket_distinct(cs, tier_at(r));
            if nonempty_tiers(cs) > n {
                if tier_count(cs, r) > 0 {
                    assert(tier_share(cs, n, r) == 1);
                } else {
                    assert(tier_share(cs, n, r) == 0);
                }
            }
            lemma_select_in_tier_len(bucket(cs, tier_at(r)), tier_share(cs, n, r));
        }
        let all = tiered_selection(cs, n);
        assert(select_in_tier(bucket(cs, tier_at(0)), tier_share(cs, n, 0)).len() == tier_share(cs, n, 0));
        assert(select_in_tier(bucket(cs, tier_at(1)), tier_share(cs, n, 1)).len() == tier_share(cs, n, 1));
        assert(select_in_tier(bucket(cs, tier_at(2)), tier_share(cs, n, 2)).len() == tier_share(cs, n, 2));
        assert(select_in_tier(bucket(cs, tier_at(3)), tier_share(cs, n, 3)).len() == tier_share(cs, n, 3));
        if nonempty_tiers(cs) <= n {
            assert(all.len() == n);
        } else {
            assert(all.len() == nonempty_tiers(cs));
            assert(select_n(cs, n) == all.subrange(0, n as int));
        }
    }
}

} // verus!
