//! How a tier's selection follows its ranking.

use vstd::prelude::*;
use crate::model_selector::{
    arch_of, fill_up, greedy_pick, lemma_sort_len, paths_of, select_in_tier, sort_by_key, ModelCandidate,
};

verus! {

proof fn lemma_greedy_keeps_prefix(
    scored: Seq<ModelCandidate>,
    n: nat,
    i: nat,
    sel: Seq<ModelCandidate>,
    used: Seq<Seq<char>>,
)
    ensures
        greedy_pick(scored, n, i, sel, used).len() >= sel.len(),
        greedy_pick(scored, n, i, sel, used).subrange(0, sel.len() as int) == sel,
    decreases scored.len() - i,
{
    if i >= scored.len() || sel.len() >= n {
        assert(sel.subrange(0, sel.len() as int) =~= sel);
    } else {
        let c = scored[i as int];
        let a = arch_of(c);
        let allow_repeat = used.len() >= 4 || sel.len() < n / 2;
        if !allow_repeat && used.contains(a) {
            lemma_greedy_keeps_prefix(scored, n, i + 1, sel, used);
        } else {
            let used2 = if used.contains(a) { used } else { used.push(a) };
            lemma_greedy_keeps_prefix(scored, n, i + 1, sel.push(c), used2);
            let g = greedy_pick(scored, n, i + 1, sel.push(c), used2);
            assert(g.subrange(0, sel.len() as int) =~= g.subrange(0, sel.len() + 1 as int).subrange(0, sel.len() as int));
            assert(sel.push(c).subrange(0, sel.len() as int) =~= sel);
        }
    }
}

proof fn lemma_fill_keeps_prefix(
    cands: Seq<ModelCandidate>,
    n: nat,
    i: nat,
    sel: Seq<ModelCandidate>,
    taken: Seq<Seq<char>>,
)
    ensures
        fill_up(cands, n, i, sel, taken).len() >= sel.len(),
        fill_up(cands, n, i, sel, taken).subrange(0, sel.len() as int) == sel,
    decreases cands.len() - i,
{
    if i >= cands.len() || sel.len() >= n {
        assert(sel.subrange(0, sel.len() as int) =~= sel);
    } else if taken.contains(cands[i as int].path@) {
        lemma_fill_keeps_prefix(cands, n, i + 1, sel, taken);
    } else {
        let c = cands[i as int];
        lemma_fill_keeps_prefix(cands, n, i + 1, sel.push(c), taken);
        let g = fill_up(cands, n, i + 1, sel.push(c), taken);
        assert(g.subrange(0, sel.len() as int) =~= g.subrange(0, sel.len() + 1 as int).subrange(0, sel.len() as int));
        assert(sel.push(c).subrange(0, sel.len() as int) =~= sel);
    }
}

/// Choosing fewer models than a tier holds starts with the candidate the
/// ranking puts first.
pub proof fn lemma_tier_selection_starts_with_top_ranked(cands: Seq<ModelCandidate>, n: nat)
    requires
        1 <= n < cands.len(),
    ensures
        select_in_tier(cands, n).len() >= 1,
        select_in_tier(cands, n)[0] == sort_by_key(cands, cands)[0],
{
    let scored = sort_by_key(cands, cands);
    lemma_sort_len(cands, cands);
    let e: Seq<ModelCandidate> = Seq::empty();
    let u: Seq<Seq<char>> = Seq::empty();
    assert(!u.contains(arch_of(scored[0])));
    let first = e.push(scored[0]);
    let used1 = u.push(arch_of(scored[0]));
    assert(greedy_pick(scored, n, 0, e, u) == greedy_pick(scored, n, 1, first, used1));
    lemma_greedy_keeps_prefix(scored, n, 1, first, used1);
    let g = greedy_pick(scored, n, 0, e, u);
    assert(g.subrange(0, 1)[0] == g[0]);
    if g.len() < n {
        lemma_fill_keeps_prefix(cands, n, 0, g, paths_of(g));
        let h = fill_up(cands, n, 0, g, paths_of(g));
        assert(h.subrange(0, g.len() as int)[0] == h[0]);
    }
}

} // verus!
