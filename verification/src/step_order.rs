//! Dependency order of workflow steps (Kahn's algorithm with a FIFO queue).
//!
//! A step depends on the step whose id its `requires` names; where several
//! steps share an id, the last of them is the one meant. Names that match
//! no step are ignored. Steps that take part in a dependency cycle, or that
//! wait on one, are kept and placed at the end in their original order.

use vstd::prelude::*;
use crate::workflow::WorkflowStep;

verus! {

/// Step `j` is the last step that carries its id.
pub open spec fn is_last_id(steps: Seq<WorkflowStep>, j: int) -> bool {
    forall|k: int| j < k < steps.len() ==> #[trigger] steps[k].step_id@ != steps[j].step_id@
}

/// Step `i` depends on step `j`: one of the names `i` requires is the id of
/// `j`, and `j` is the last step with that id.
pub open spec fn depends_on(steps: Seq<WorkflowStep>, i: int, j: int) -> bool {
    &&& 0 <= j < steps.len()
    &&& is_last_id(steps, j)
    &&& exists|d: int|
        0 <= d < steps[i].requires@.len() && #[trigger] steps[i].requires@[d]@
            == steps[j].step_id@
}

/// Step `i` depends on no step.
pub open spec fn is_root(steps: Seq<WorkflowStep>, i: int) -> bool {
    forall|j: int| !#[trigger] depends_on(steps, i, j)
}

/// `x` occurs among the first `k` entries of `r`.
pub open spec fn in_prefix(r: Seq<usize>, x: int, k: int) -> bool {
    exists|p: int| 0 <= p < k && #[trigger] r[p] == x
}

/// Position below `k` of the last entry of `r` that step `x` depends on,
/// or -1 where there is none.
pub open spec fn last_dep_below(steps: Seq<WorkflowStep>, r: Seq<usize>, x: int, k: int) -> int
    decreases k,
{
    if k <= 0 {
        -1
    } else if depends_on(steps, x, r[k - 1] as int) {
        k - 1
    } else {
        last_dep_below(steps, r, x, k - 1)
    }
}

/// The entry at position `a` comes before the one at `b` in the order of
/// (position of its last dependency, original index).
pub open spec fn key_before(steps: Seq<WorkflowStep>, r: Seq<usize>, a: int, b: int) -> bool {
    let la = last_dep_below(steps, r, r[a] as int, a);
    let lb = last_dep_below(steps, r, r[b] as int, b);
    la < lb || (la == lb && r[a] < r[b])
}

/// Step `x` depends on a step that is not among the first `c` entries of
/// `r`.
pub open spec fn waits_outside(steps: Seq<WorkflowStep>, r: Seq<usize>, c: int, x: int) -> bool {
    exists|j: int| #[trigger] depends_on(steps, x, j) && !in_prefix(r, j, c)
}

/// `r` lists the indices of `steps` in the order the sort produces, of
/// which the first `c` could be placed after all their dependencies:
/// - every index occurs exactly once;
/// - each of the first `c` entries comes after every step it depends on;
/// - the first `c` entries are ordered by the position of their last
///   dependency, then by original index (so the steps that depend on
///   nothing come first, in their original order);
/// - every step outside the first `c` depends on a step outside them
///   (it is in, or waits on, a cycle), and those steps follow in their
///   original order.
pub open spec fn kahn_order(steps: Seq<WorkflowStep>, r: Seq<usize>, c: int) -> bool {
    &&& r.len() == steps.len()
    &&& 0 <= c <= r.len()
    &&& forall|k: int| 0 <= k < r.len() ==> #[trigger] r[k] < steps.len()
    &&& forall|k1: int, k2: int| 0 <= k1 < k2 < r.len() ==> #[trigger] r[k1] != #[trigger] r[k2]
    &&& forall|x: int| 0 <= x < steps.len() ==> #[trigger] in_prefix(r, x, r.len() as int)
    &&& forall|k: int, j: int|
        0 <= k < c && #[trigger] depends_on(steps, r[k] as int, j) ==> in_prefix(r, j, k)
    &&& forall|k1: int, k2: int|
        0 <= k1 < k2 < c ==> #[trigger] key_before(steps, r, k1, k2)
    &&& forall|k: int| c <= k < r.len() ==> #[trigger] waits_outside(steps, r, c, r[k] as int)
    &&& forall|k1: int, k2: int| c <= k1 < k2 < r.len() ==> #[trigger] r[k1] < #[trigger] r[k2]
}

/// `last_dep_below` only reads the first `k` entries.
proof fn lemma_last_dep_prefix(steps: Seq<WorkflowStep>, r1: Seq<usize>, r2: Seq<usize>, x: int, k: int)
    requires
        0 <= k <= r1.len(),
        k <= r2.len(),
        forall|p: int| 0 <= p < k ==> r1[p] == r2[p],
    ensures
        last_dep_below(steps, r1, x, k) == last_dep_below(steps, r2, x, k),
    decreases k,
{
    if k > 0 {
        lemma_last_dep_prefix(steps, r1, r2, x, k - 1);
    }
}

/// What `last_dep_below` is: the largest position below `k` holding a
/// dependency of `x`.
proof fn lemma_last_dep_spec(steps: Seq<WorkflowStep>, r: Seq<usize>, x: int, k: int)
    requires
        0 <= k <= r.len(),
    ensures
        -1 <= last_dep_below(steps, r, x, k) < k,
        last_dep_below(steps, r, x, k) >= 0 ==> depends_on(
            steps,
            x,
            r[last_dep_below(steps, r, x, k)] as int,
        ),
        forall|p: int|
            last_dep_below(steps, r, x, k) < p < k ==> !#[trigger] depends_on(
                steps,
                x,
                r[p] as int,
            ),
    decreases k,
{
    if k > 0 {
        lemma_last_dep_spec(steps, r, x, k - 1);
    }
}

/// The entry pushed at position `pos` while position `h` was processed has
/// its last dependency at `h`.
proof fn lemma_last_dep_is(steps: Seq<WorkflowStep>, r: Seq<usize>, x: int, h: int, pos: int)
    requires
        0 <= h < pos <= r.len(),
        depends_on(steps, x, r[h] as int),
        forall|p: int| h < p < pos ==> !#[trigger] depends_on(steps, x, r[p] as int),
    ensures
        last_dep_below(steps, r, x, pos) == h,
    decreases pos,
{
    if pos - 1 > h {
        lemma_last_dep_is(steps, r, x, h, pos - 1);
    }
}

/// A step that depends on nothing has no last dependency.
proof fn lemma_root_last_dep(steps: Seq<WorkflowStep>, r: Seq<usize>, x: int, k: int)
    requires
        is_root(steps, x),
    ensures
        last_dep_below(steps, r, x, k) == -1,
    decreases k,
{
    if k > 0 {
        assert(!depends_on(steps, x, r[k - 1] as int));
        lemma_root_last_dep(steps, r, x, k - 1);
    }
}

/// Number of `true` entries.
pub open spec fn count_true(s: Seq<bool>) -> nat
    decreases s.len(),
{
    if s.len() == 0 {
        0
    } else {
        count_true(s.drop_last()) + if s.last() {
            1nat
        } else {
            0nat
        }
    }
}

proof fn lemma_count_true_set(s: Seq<bool>, i: int)
    requires
        0 <= i < s.len(),
        !s[i],
    ensures
        count_true(s.update(i, true)) == count_true(s) + 1,
    decreases s.len(),
{
    let t = s.update(i, true);
    if i < s.len() - 1 {
        assert(t.drop_last() =~= s.drop_last().update(i, true));
        lemma_count_true_set(s.drop_last(), i);
    } else {
        assert(t.drop_last() =~= s.drop_last());
    }
}

proof fn lemma_count_true_all(s: Seq<bool>)
    requires
        forall|i: int| 0 <= i < s.len() ==> s[i],
    ensures
        count_true(s) == s.len(),
    decreases s.len(),
{
    if s.len() > 0 {
        lemma_count_true_all(s.drop_last());
    }
}

proof fn lemma_count_true_le(s: Seq<bool>)
    ensures
        count_true(s) <= s.len(),
    decreases s.len(),
{
    if s.len() > 0 {
        lemma_count_true_le(s.drop_last());
    }
}

/// Placement bookkeeping: `placed[x]` says step `x` is in `order`, at
/// position `pos[x]`.
pub open spec fn order_state(steps: Seq<WorkflowStep>, order: Seq<usize>, placed: Seq<bool>, pos: Seq<int>) -> bool {
    &&& placed.len() == steps.len()
    &&& pos.len() == steps.len()
    &&& order.len() <= steps.len()
    &&& forall|k: int|
        0 <= k < order.len() ==> #[trigger] order[k] < steps.len() && placed[order[k] as int]
            && pos[order[k] as int] == k
    &&& forall|x: int|
        0 <= x < steps.len() && #[trigger] placed[x] ==> 0 <= pos[x] < order.len() && order[pos[x]]
            == x
    &&& count_true(placed) == order.len()
}

/// Every dependency of `x` is placed at a position up to `bound`.
pub open spec fn deps_within(steps: Seq<WorkflowStep>, placed: Seq<bool>, pos: Seq<int>, x: int, bound: int) -> bool {
    forall|j: int| #[trigger] depends_on(steps, x, j) ==> placed[j] && pos[j] <= bound
}

proof fn lemma_push_state(
    steps: Seq<WorkflowStep>,
    order: Seq<usize>,
    placed: Seq<bool>,
    pos: Seq<int>,
    x: usize,
)
    requires
        order_state(steps, order, placed, pos),
        x < steps.len(),
        !placed[x as int],
    ensures
        order_state(
            steps,
            order.push(x),
            placed.update(x as int, true),
            pos.update(x as int, order.len() as int),
        ),
{
    lemma_count_true_set(placed, x as int);
    lemma_count_true_le(placed.update(x as int, true));
    let o2 = order.push(x);
    let p2 = placed.update(x as int, true);
    let q2 = pos.update(x as int, order.len() as int);
    assert forall|k: int| 0 <= k < o2.len() implies #[trigger] o2[k] < steps.len() && p2[o2[k] as int]
        && q2[o2[k] as int] == k by {
        if k < order.len() {
            assert(order[k] != x);
        }
    }
}

fn string_in(v: &Vec<String>, x: &String) -> (b: bool)
    ensures
        b == exists|d: int| 0 <= d < v@.len() && #[trigger] v@[d]@ == x@,
{
    let mut k: usize = 0;
    while k < v.len()
        invariant
            k <= v.len(),
            forall|d: int| 0 <= d < k ==> #[trigger] v@[d]@ != x@,
        decreases v.len() - k,
    {
        if v[k] == *x {
            assert(v@[k as int]@ == x@);
            return true;
        }
        k += 1;
    }
    false
}

fn last_id_flags(steps: &Vec<WorkflowStep>) -> (f: Vec<bool>)
    ensures
        f@.len() == steps@.len(),
        forall|j: int| 0 <= j < steps@.len() ==> #[trigger] f@[j] == is_last_id(steps@, j),
{
    let n = steps.len();
    let mut f: Vec<bool> = Vec::new();
    let mut j: usize = 0;
    while j < n
        invariant
            n == steps@.len(),
            j <= n,
            f@.len() == j,
            forall|jj: int| 0 <= jj < j ==> #[trigger] f@[jj] == is_last_id(steps@, jj),
        decreases n - j,
    {
        let mut last = true;
        let mut k: usize = j + 1;
        while k < n
            invariant
                n == steps@.len(),
                j < n,
                j + 1 <= k <= n,
                last == (forall|kk: int| j < kk < k ==> #[trigger] steps@[kk].step_id@
                    != steps@[j as int].step_id@),
            decreases n - k,
        {
            if steps[k].step_id == steps[j].step_id {
                last = false;
            }
            k += 1;
        }
        f.push(last);
        j += 1;
    }
    f
}

fn dependency_matrix(steps: &Vec<WorkflowStep>) -> (m: Vec<Vec<bool>>)
    ensures
        m@.len() == steps@.len(),
        forall|i: int| 0 <= i < steps@.len() ==> #[trigger] m@[i]@.len() == steps@.len(),
        forall|i: int, j: int|
            0 <= i < steps@.len() && 0 <= j < steps@.len() ==> #[trigger] m@[i]@[j] == depends_on(
                steps@,
                i,
                j,
            ),
{
    let n = steps.len();
    let last = last_id_flags(steps);
    let mut m: Vec<Vec<bool>> = Vec::new();
    let mut i: usize = 0;
    while i < n
        invariant
            n == steps@.len(),
            last@.len() == n,
            forall|j: int| 0 <= j < n ==> #[trigger] last@[j] == is_last_id(steps@, j),
            i <= n,
            m@.len() == i,
            forall|ii: int| 0 <= ii < i ==> #[trigger] m@[ii]@.len() == n,
            forall|ii: int, j: int|
                0 <= ii < i && 0 <= j < n ==> #[trigger] m@[ii]@[j] == depends_on(steps@, ii, j),
        decreases n - i,
    {
        let mut row: Vec<bool> = Vec::new();
        let mut j: usize = 0;
        while j < n
            invariant
                n == steps@.len(),
                last@.len() == n,
                forall|jj: int| 0 <= jj < n ==> #[trigger] last@[jj] == is_last_id(steps@, jj),
                i < n,
                j <= n,
                row@.len() == j,
                forall|jj: int|
                    0 <= jj < j ==> #[trigger] row@[jj] == depends_on(steps@, i as int, jj),
            decreases n - j,
        {
            let named = string_in(&steps[i].requires, &steps[j].step_id);
            row.push(last[j] && named);
            j += 1;
        }
        m.push(row);
        i += 1;
    }
    m
}

fn row_is_clear(row: &Vec<bool>) -> (b: bool)
    ensures
        b == forall|j: int| 0 <= j < row@.len() ==> !#[trigger] row@[j],
{
    let mut j: usize = 0;
    while j < row.len()
        invariant
            j <= row.len(),
            forall|jj: int| 0 <= jj < j ==> !#[trigger] row@[jj],
        decreases row.len() - j,
    {
        if row[j] {
            return false;
        }
        j += 1;
    }
    true
}

fn all_marked(row: &Vec<bool>, marks: &Vec<bool>) -> (b: bool)
    requires
        row@.len() == marks@.len(),
    ensures
        b == forall|j: int| 0 <= j < row@.len() && #[trigger] row@[j] ==> marks@[j],
{
    let mut j: usize = 0;
    while j < row.len()
        invariant
            row@.len() == marks@.len(),
            j <= row.len(),
            forall|jj: int| 0 <= jj < j && #[trigger] row@[jj] ==> marks@[jj],
        decreases row.len() - j,
    {
        if row[j] && !marks[j] {
            return false;
        }
        j += 1;
    }
    true
}

proof fn lemma_count_true_none(s: Seq<bool>)
    requires
        forall|i: int| 0 <= i < s.len() ==> !s[i],
    ensures
        count_true(s) == 0,
    decreases s.len(),
{
    if s.len() > 0 {
        lemma_count_true_none(s.drop_last());
    }
}

/// Each placed step's dependencies are placed, at or before its last
/// dependency's position.
pub open spec fn deps_placed(steps: Seq<WorkflowStep>, order: Seq<usize>, placed: Seq<bool>, pos: Seq<int>) -> bool {
    forall|k: int, j: int|
        0 <= k < order.len() && #[trigger] depends_on(steps, order[k] as int, j) ==> placed[j]
            && pos[j] <= last_dep_below(steps, order, order[k] as int, k)
}

/// `order` is sorted by (position of last dependency, index).
pub open spec fn keys_sorted(steps: Seq<WorkflowStep>, order: Seq<usize>) -> bool {
    forall|k1: int, k2: int| 0 <= k1 < k2 < order.len() ==> #[trigger] key_before(steps, order, k1, k2)
}

/// Every key in `order` is below (h, x).
pub open spec fn keys_below(steps: Seq<WorkflowStep>, order: Seq<usize>, h: int, x: int) -> bool {
    forall|k: int|
        0 <= k < order.len() ==> #[trigger] last_dep_below(steps, order, order[k] as int, k) < h || (
        last_dep_below(steps, order, order[k] as int, k) == h && order[k] < x)
}

/// Every step whose last dependency is at a processed position `g < h` has
/// been placed.
pub open spec fn closed_upto(steps: Seq<WorkflowStep>, order: Seq<usize>, placed: Seq<bool>, pos: Seq<int>, h: int) -> bool {
    forall|y: int, g: int|
        0 <= y < steps.len() && 0 <= g < h && #[trigger] depends_on(steps, y, order[g] as int)
            && deps_within(steps, placed, pos, y, g) ==> placed[y]
}

/// Every step below `x` whose last dependency is at position `h` has been
/// placed.
pub open spec fn closed_at(steps: Seq<WorkflowStep>, order: Seq<usize>, placed: Seq<bool>, pos: Seq<int>, h: int, x: int) -> bool {
    forall|y: int|
        0 <= y < x && #[trigger] depends_on(steps, y, order[h] as int) && deps_within(
            steps,
            placed,
            pos,
            y,
            h,
        ) ==> placed[y]
}

pub open spec fn roots_placed(steps: Seq<WorkflowStep>, placed: Seq<bool>) -> bool {
    forall|y: int| 0 <= y < steps.len() && is_root(steps, y) ==> #[trigger] placed[y]
}

proof fn lemma_push_keeps(
    steps: Seq<WorkflowStep>,
    order: Seq<usize>,
    placed: Seq<bool>,
    pos: Seq<int>,
    h: int,
    x: usize,
)
    requires
        order_state(steps, order, placed, pos),
        0 <= h < order.len(),
        x < steps.len(),
        depends_on(steps, x as int, order[h] as int),
        deps_within(steps, placed, pos, x as int, h),
        deps_placed(steps, order, placed, pos),
        keys_sorted(steps, order),
        keys_below(steps, order, h, x as int),
        closed_upto(steps, order, placed, pos, h),
        closed_at(steps, order, placed, pos, h, x as int),
        roots_placed(steps, placed),
    ensures
        !placed[x as int],
        ({
            let o2 = order.push(x);
            let p2 = placed.update(x as int, true);
            let q2 = pos.update(x as int, order.len() as int);
            &&& order_state(steps, o2, p2, q2)
            &&& deps_placed(steps, o2, p2, q2)
            &&& keys_sorted(steps, o2)
            &&& keys_below(steps, o2, h, x + 1)
            &&& closed_upto(steps, o2, p2, q2, h)
            &&& closed_at(steps, o2, p2, q2, h, x + 1)
            &&& roots_placed(steps, p2)
        }),
{
    let len = order.len() as int;
    let o2 = order.push(x);
    let p2 = placed.update(x as int, true);
    let q2 = pos.update(x as int, len);
    if placed[x as int] {
        let k = pos[x as int];
        assert(order[k] == x);
        assert(depends_on(steps, order[k] as int, order[h] as int));
        assert(pos[order[h] as int] == h);
        assert(false);
    }
    lemma_push_state(steps, order, placed, pos, x);
    assert forall|q: int| h < q < len implies !#[trigger] depends_on(steps, x as int, o2[q] as int) by {
        if depends_on(steps, x as int, o2[q] as int) {
            assert(o2[q] == order[q]);
            assert(pos[order[q] as int] == q);
        }
    }
    lemma_last_dep_is(steps, o2, x as int, h, len);
    assert forall|k: int| 0 <= k < len implies #[trigger] last_dep_below(steps, o2, o2[k] as int, k)
        == last_dep_below(steps, order, order[k] as int, k) by {
        lemma_last_dep_prefix(steps, order, o2, order[k] as int, k);
    }
    assert forall|k: int, j: int|
        0 <= k < o2.len() && #[trigger] depends_on(steps, o2[k] as int, j) implies p2[j] && q2[j]
        <= last_dep_below(steps, o2, o2[k] as int, k) by {
        if k < len {
            assert(last_dep_below(steps, o2, o2[k] as int, k) == last_dep_below(
                steps,
                order,
                order[k] as int,
                k,
            ));
            assert(placed[j]);
        } else {
            assert(placed[j]);
        }
    }
    assert forall|k1: int, k2: int| 0 <= k1 < k2 < o2.len() implies #[trigger] key_before(
        steps,
        o2,
        k1,
        k2,
    ) by {
        assert(last_dep_below(steps, o2, o2[k1] as int, k1) == last_dep_below(
            steps,
            order,
            order[k1] as int,
            k1,
        ));
        if k2 < len {
            assert(last_dep_below(steps, o2, o2[k2] as int, k2) == last_dep_below(
                steps,
                order,
                order[k2] as int,
                k2,
            ));
            assert(key_before(steps, order, k1, k2));
        }
    }
    assert forall|k: int| 0 <= k < o2.len() implies #[trigger] last_dep_below(
        steps,
        o2,
        o2[k] as int,
        k,
    ) < h || (last_dep_below(steps, o2, o2[k] as int, k) == h && o2[k] < x + 1) by {
        if k < len {
            assert(last_dep_below(steps, o2, o2[k] as int, k) == last_dep_below(
                steps,
                order,
                order[k] as int,
                k,
            ));
        }
    }
    assert forall|y: int, g: int|
        0 <= y < steps.len() && 0 <= g <= h && #[trigger] depends_on(steps, y, o2[g] as int)
            && deps_within(steps, p2, q2, y, g) implies deps_within(steps, placed, pos, y, g) by {
        assert forall|j: int| #[trigger] depends_on(steps, y, j) implies placed[j] && pos[j] <= g by {
            assert(p2[j] && q2[j] <= g);
        }
    }
    assert forall|y: int, g: int|
        0 <= y < steps.len() && 0 <= g < h && #[trigger] depends_on(steps, y, o2[g] as int)
            && deps_within(steps, p2, q2, y, g) implies p2[y] by {
        assert(o2[g] == order[g]);
        assert(deps_within(steps, placed, pos, y, g));
    }
    assert forall|y: int|
        0 <= y < x + 1 && #[trigger] depends_on(steps, y, o2[h] as int) && deps_within(
            steps,
            p2,
            q2,
            y,
            h,
        ) implies p2[y] by {
        if y < x {
            assert(o2[h] == order[h]);
            assert(deps_within(steps, placed, pos, y, h));
        }
    }
}

proof fn lemma_closure(steps: Seq<WorkflowStep>, order: Seq<usize>, placed: Seq<bool>, pos: Seq<int>)
    requires
        order_state(steps, order, placed, pos),
        closed_upto(steps, order, placed, pos, order.len() as int),
        roots_placed(steps, placed),
    ensures
        forall|y: int|
            #![trigger placed[y]]
            0 <= y < steps.len() && !placed[y] ==> exists|j: int|
                #![trigger depends_on(steps, y, j)]
                depends_on(steps, y, j) && !placed[j],
{
    let len = order.len() as int;
    assert forall|y: int| 0 <= y < steps.len() && !placed[y] implies exists|j: int|
        #![trigger depends_on(steps, y, j)]
        depends_on(steps, y, j) && !placed[j] by {
        if !(exists|j: int| #![trigger depends_on(steps, y, j)] depends_on(steps, y, j) && !placed[j]) {
            assert(!is_root(steps, y));
            let j0 = choose|j: int| depends_on(steps, y, j);
            lemma_last_dep_spec(steps, order, y, len);
            let g = last_dep_below(steps, order, y, len);
            assert(placed[j0]);
            assert(order[pos[j0]] == j0);
            assert(depends_on(steps, y, order[pos[j0]] as int));
            assert(pos[j0] <= g);
            assert forall|j: int| #[trigger] depends_on(steps, y, j) implies placed[j] && pos[j] <= g by {
                assert(placed[j]);
                assert(order[pos[j]] == j);
                assert(depends_on(steps, y, order[pos[j]] as int));
            }
            assert(deps_within(steps, placed, pos, y, g));
            assert(depends_on(steps, y, order[g] as int));
        }
    }
}

proof fn lemma_finish_prefix(
    steps: Seq<WorkflowStep>,
    sorted: Seq<usize>,
    placed_sorted: Seq<bool>,
    pos_sorted: Seq<int>,
    order: Seq<usize>,
    c: int,
)
    requires
        order_state(steps, sorted, placed_sorted, pos_sorted),
        deps_placed(steps, sorted, placed_sorted, pos_sorted),
        keys_sorted(steps, sorted),
        c == sorted.len(),
        c <= order.len(),
        order.subrange(0, c) == sorted,
    ensures
        forall|k: int, j: int|
            0 <= k < c && #[trigger] depends_on(steps, order[k] as int, j) ==> in_prefix(order, j, k),
        forall|k1: int, k2: int| 0 <= k1 < k2 < c ==> #[trigger] key_before(steps, order, k1, k2),
{
    assert forall|k: int| 0 <= k < c implies #[trigger] order[k] == sorted[k] by {
        assert(order.subrange(0, c)[k] == order[k]);
    }
    assert forall|k: int, j: int|
        0 <= k < c && #[trigger] depends_on(steps, order[k] as int, j) implies in_prefix(order, j, k) by {
        assert(order[k] == sorted[k]);
        lemma_last_dep_spec(steps, sorted, sorted[k] as int, k);
        assert(placed_sorted[j]);
        let w = pos_sorted[j];
        assert(sorted[w] == j);
        assert(order[w] == j);
    }
    assert forall|k1: int, k2: int| 0 <= k1 < k2 < c implies #[trigger] key_before(steps, order, k1, k2) by {
        lemma_last_dep_prefix(steps, sorted, order, sorted[k1] as int, k1);
        lemma_last_dep_prefix(steps, sorted, order, sorted[k2] as int, k2);
        assert(key_before(steps, sorted, k1, k2));
        assert(order[k1] == sorted[k1]);
        assert(order[k2] == sorted[k2]);
    }
}

proof fn lemma_finish_rest(
    steps: Seq<WorkflowStep>,
    sorted: Seq<usize>,
    placed_sorted: Seq<bool>,
    pos_sorted: Seq<int>,
    order: Seq<usize>,
    c: int,
)
    requires
        order_state(steps, sorted, placed_sorted, pos_sorted),
        forall|y: int|
            #![trigger placed_sorted[y]]
            0 <= y < steps.len() && !placed_sorted[y] ==> exists|j: int|
                #![trigger depends_on(steps, y, j)]
                depends_on(steps, y, j) && !placed_sorted[j],
        c == sorted.len(),
        c <= order.len(),
        order.subrange(0, c) == sorted,
        forall|k: int| 0 <= k < order.len() ==> #[trigger] order[k] < steps.len(),
        forall|k: int| c <= k < order.len() ==> !#[trigger] placed_sorted[order[k] as int],
    ensures
        forall|k: int| c <= k < order.len() ==> #[trigger] waits_outside(steps, order, c, order[k] as int),
{
    assert forall|k: int| c <= k < order.len() implies #[trigger] waits_outside(steps, order, c, order[k] as int) by {
        let y = order[k] as int;
        assert(!placed_sorted[y]);
        let j = choose|j: int| #![trigger depends_on(steps, y, j)] depends_on(steps, y, j) && !placed_sorted[j];
        if in_prefix(order, j, c) {
            let w = choose|w: int| 0 <= w < c && #[trigger] order[w] == j;
            assert(order.subrange(0, c)[w] == order[w]);
            assert(sorted[w] == j);
        }
        assert(depends_on(steps, order[k] as int, j) && !in_prefix(order, j, c));
    }
}

proof fn lemma_finish(
    steps: Seq<WorkflowStep>,
    sorted: Seq<usize>,
    placed_sorted: Seq<bool>,
    pos_sorted: Seq<int>,
    order: Seq<usize>,
    placed: Seq<bool>,
    pos: Seq<int>,
    c: int,
)
    requires
        order_state(steps, sorted, placed_sorted, pos_sorted),
        deps_placed(steps, sorted, placed_sorted, pos_sorted),
        keys_sorted(steps, sorted),
        forall|y: int|
            #![trigger placed_sorted[y]]
            0 <= y < steps.len() && !placed_sorted[y] ==> exists|j: int|
                #![trigger depends_on(steps, y, j)]
                depends_on(steps, y, j) && !placed_sorted[j],
        c == sorted.len(),
        c <= order.len(),
        order.subrange(0, c) == sorted,
        order_state(steps, order, placed, pos),
        count_true(placed) == steps.len(),
        forall|k: int| c <= k < order.len() ==> !#[trigger] placed_sorted[order[k] as int],
        forall|k1: int, k2: int| c <= k1 < k2 < order.len() ==> #[trigger] order[k1] < #[trigger] order[k2],
    ensures
        kahn_order(steps, order, c),
{
    assert forall|k1: int, k2: int| 0 <= k1 < k2 < order.len() implies #[trigger] order[k1]
        != #[trigger] order[k2] by {
        assert(pos[order[k1] as int] == k1);
        assert(pos[order[k2] as int] == k2);
    }
    lemma_finish_prefix(steps, sorted, placed_sorted, pos_sorted, order, c);
    lemma_finish_rest(steps, sorted, placed_sorted, pos_sorted, order, c);
    assert forall|x: int| 0 <= x < steps.len() implies #[trigger] in_prefix(order, x, order.len() as int) by {
        lemma_count_true_le(placed);
        if !placed[x] {
            lemma_count_true_set(placed, x);
            lemma_count_true_le(placed.update(x, true));
        }
        assert(order[pos[x]] == x);
    }
    assert(order.len() == steps.len());
    assert(forall|k: int| 0 <= k < order.len() ==> #[trigger] order[k] < steps.len());
}

/// The order in which the steps run: the indices of `steps`, each after the
/// steps it depends on where that is possible, and the number of leading
/// entries so placed.
pub fn topological_order(steps: &Vec<WorkflowStep>) -> (res: (Vec<usize>, usize))
    ensures
        kahn_order(steps@, res.0@, res.1 as int),
{
    let n = steps.len();
    let m = dependency_matrix(steps);
    let mut order: Vec<usize> = Vec::new();
    let mut placed: Vec<bool> = Vec::new();
    let mut popped: Vec<bool> = Vec::new();
    let mut t: usize = 0;
    while t < n
        invariant
            t <= n,
            placed@.len() == t,
            popped@.len() == t,
            forall|i: int| 0 <= i < t ==> !#[trigger] placed@[i],
            forall|i: int| 0 <= i < t ==> !#[trigger] popped@[i],
        decreases n - t,
    {
        placed.push(false);
        popped.push(false);
        t += 1;
    }
    let ghost mut pos: Seq<int> = Seq::new(n as nat, |i: int| 0int);
    proof {
        lemma_count_true_none(placed@);
    }
    // Steps that depend on nothing, in their original order.
    let mut x: usize = 0;
    while x < n
        invariant
            n == steps@.len(),
            m@.len() == n,
            forall|i: int| 0 <= i < n ==> #[trigger] m@[i]@.len() == n,
            forall|i: int, j: int|
                0 <= i < n && 0 <= j < n ==> #[trigger] m@[i]@[j] == depends_on(steps@, i, j),
            order_state(steps@, order@, placed@, pos),
            popped@.len() == n,
            forall|i: int| 0 <= i < n ==> !#[trigger] popped@[i],
            x <= n,
            forall|k: int|
                0 <= k < order@.len() ==> #[trigger] order@[k] < x && is_root(
                    steps@,
                    order@[k] as int,
                ),
            forall|k1: int, k2: int|
                0 <= k1 < k2 < order@.len() ==> #[trigger] order@[k1] < #[trigger] order@[k2],
            forall|y: int| 0 <= y < x && is_root(steps@, y) ==> #[trigger] placed@[y],
            forall|y: int| x <= y < n ==> !#[trigger] placed@[y],
        decreases n - x,
    {
        if row_is_clear(&m[x]) {
            proof {
                assert forall|j: int| !#[trigger] depends_on(steps@, x as int, j) by {
                    if depends_on(steps@, x as int, j) {
                        assert(m@[x as int]@[j]);
                    }
                }
                lemma_push_state(steps@, order@, placed@, pos, x);
                pos = pos.update(x as int, order@.len() as int);
            }
            order.push(x);
            placed.set(x, true);
        }
        x += 1;
    }
    proof {
        assert forall|k: int, j: int|
            0 <= k < order@.len() && #[trigger] depends_on(steps@, order@[k] as int, j) implies
            placed@[j] && pos[j] <= last_dep_below(steps@, order@, order@[k] as int, k) by {
            assert(is_root(steps@, order@[k] as int));
        }
        assert forall|k1: int, k2: int| 0 <= k1 < k2 < order@.len() implies #[trigger] key_before(
            steps@,
            order@,
            k1,
            k2,
        ) by {
            lemma_root_last_dep(steps@, order@, order@[k1] as int, k1);
            lemma_root_last_dep(steps@, order@, order@[k2] as int, k2);
        }
        assert forall|k: int| 0 <= k < order@.len() implies #[trigger] last_dep_below(
            steps@,
            order@,
            order@[k] as int,
            k,
        ) < 0 by {
            lemma_root_last_dep(steps@, order@, order@[k] as int, k);
        }
    }
    // Queue: the entries of `order` from `h` on wait to be processed.
    let mut h: usize = 0;
    while h < order.len()
        invariant
            n == steps@.len(),
            m@.len() == n,
            forall|i: int| 0 <= i < n ==> #[trigger] m@[i]@.len() == n,
            forall|i: int, j: int|
                0 <= i < n && 0 <= j < n ==> #[trigger] m@[i]@[j] == depends_on(steps@, i, j),
            order_state(steps@, order@, placed@, pos),
            h <= order@.len(),
            popped@.len() == n,
            forall|j: int| 0 <= j < n ==> #[trigger] popped@[j] == (placed@[j] && pos[j] < h),
            deps_placed(steps@, order@, placed@, pos),
            keys_sorted(steps@, order@),
            keys_below(steps@, order@, h as int, 0),
            roots_placed(steps@, placed@),
            closed_upto(steps@, order@, placed@, pos, h as int),
        decreases n - h,
    {
        let p = order[h];
        proof {
            lemma_count_true_le(placed@);
        }
        popped.set(p, true);
        let mut x: usize = 0;
        while x < n
            invariant
                n == steps@.len(),
                m@.len() == n,
                forall|i: int| 0 <= i < n ==> #[trigger] m@[i]@.len() == n,
                forall|i: int, j: int|
                    0 <= i < n && 0 <= j < n ==> #[trigger] m@[i]@[j] == depends_on(steps@, i, j),
                order_state(steps@, order@, placed@, pos),
                h < order@.len(),
                order@[h as int] == p,
                x <= n,
                popped@.len() == n,
                forall|j: int| 0 <= j < n ==> #[trigger] popped@[j] == (placed@[j] && pos[j] <= h),
                deps_placed(steps@, order@, placed@, pos),
                keys_sorted(steps@, order@),
                keys_below(steps@, order@, h as int, x as int),
                roots_placed(steps@, placed@),
                closed_upto(steps@, order@, placed@, pos, h as int),
                closed_at(steps@, order@, placed@, pos, h as int, x as int),
            decreases n - x,
        {
            let ready = m[x][p] && all_marked(&m[x], &popped);
            if ready {
                proof {
                    assert(depends_on(steps@, x as int, order@[h as int] as int));
                    assert forall|j: int| #[trigger] depends_on(steps@, x as int, j) implies placed@[j]
                        && pos[j] <= h by {
                        assert(m@[x as int]@[j]);
                        assert(popped@[j]);
                    }
                    lemma_push_keeps(steps@, order@, placed@, pos, h as int, x);
                    pos = pos.update(x as int, order@.len() as int);
                }
                order.push(x);
                placed.set(x, true);
            } else {
                proof {
                    if depends_on(steps@, x as int, order@[h as int] as int) && deps_within(
                        steps@,
                        placed@,
                        pos,
                        x as int,
                        h as int,
                    ) {
                        assert(m@[x as int]@[p as int]);
                        assert forall|j: int|
                            0 <= j < m@[x as int]@.len() && #[trigger] m@[x as int]@[j] implies popped@[j] by {
                            assert(depends_on(steps@, x as int, j));
                        }
                        assert(false);
                    }
                }
            }
            x += 1;
        }
        h += 1;
    }
    let c = order.len();
    let ghost sorted = order@;
    let ghost placed_sorted = placed@;
    let ghost pos_sorted = pos;
    proof {
        lemma_closure(steps@, order@, placed@, pos);
    }
    // Steps in or behind a cycle, in their original order.
    let mut x: usize = 0;
    while x < n
        invariant
            n == steps@.len(),
            order_state(steps@, order@, placed@, pos),
            x <= n,
            c == sorted.len(),
            c <= order@.len(),
            order@.subrange(0, c as int) == sorted,
            forall|y: int| 0 <= y < x ==> #[trigger] placed@[y],
            forall|k: int|
                c <= k < order@.len() ==> #[trigger] order@[k] < x && !placed_sorted[order@[k] as int],
            forall|k1: int, k2: int|
                c <= k1 < k2 < order@.len() ==> #[trigger] order@[k1] < #[trigger] order@[k2],
            forall|y: int| 0 <= y < n && #[trigger] placed_sorted[y] ==> placed@[y],
        decreases n - x,
    {
        if !placed[x] {
            proof {
                lemma_push_state(steps@, order@, placed@, pos, x);
                pos = pos.update(x as int, order@.len() as int);
            }
            order.push(x);
            placed.set(x, true);
            proof {
                assert(order@.subrange(0, c as int) =~= sorted);
            }
        }
        x += 1;
    }
    proof {
        lemma_count_true_all(placed@);
        lemma_finish(steps@, sorted, placed_sorted, pos_sorted, order@, placed@, pos, c as int);
    }
    (order, c)
}

/// Sorts workflow steps so that each runs after the steps it depends on.
/// Steps that depend on nothing keep their original order at the front;
/// steps in, or waiting on, a dependency cycle are kept and appended in
/// their original order.
pub fn topological_sort_steps(steps: Vec<WorkflowStep>) -> (out: Vec<WorkflowStep>)
    ensures
        exists|r: Seq<usize>, c: int|
            kahn_order(steps@, r, c) && out@.len() == r.len() && forall|k: int|
                0 <= k < r.len() ==> #[trigger] out@[k] == steps@[r[k] as int],
{
    let ghost original = steps@;
    let (order, c) = topological_order(&steps);
    let mut slots = steps;
    let mut out: Vec<WorkflowStep> = Vec::new();
    let mut k: usize = 0;
    while k < order.len()
        invariant
            kahn_order(original, order@, c as int),
            slots@.len() == original.len(),
            k <= order@.len(),
            out@.len() == k,
            forall|q: int| 0 <= q < k ==> #[trigger] out@[q] == original[order@[q] as int],
            forall|q: int| k <= q < order@.len() ==> #[trigger] slots@[order@[q] as int] == original[order@[q] as int],
        decreases order@.len() - k,
    {
        let mut taken = WorkflowStep::named(String::new(), String::new());
        let ghost before = slots@;
        slots.set_and_swap(order[k], &mut taken);
        proof {
            assert forall|q: int| k + 1 <= q < order@.len() implies #[trigger] slots@[order@[q] as int]
                == original[order@[q] as int] by {
                assert(order@[q] != order@[k as int]);
            }
        }
        out.push(taken);
        k += 1;
    }
    out
}

/// A numbering of the steps under which every step comes after the steps
/// it depends on: the dependency graph has no cycle.
pub open spec fn ranked_by(steps: Seq<WorkflowStep>, rank: spec_fn(int) -> nat) -> bool {
    forall|i: int, j: int| 0 <= i < steps.len() && #[trigger] depends_on(steps, i, j) ==> rank(j) < rank(i)
}

proof fn lemma_rest_rank_bound(steps: Seq<WorkflowStep>, r: Seq<usize>, c: int, rank: spec_fn(int) -> nat, v: nat)
    requires
        kahn_order(steps, r, c),
        ranked_by(steps, rank),
    ensures
        forall|k: int| c <= k < r.len() ==> rank(#[trigger] r[k] as int) >= v,
    decreases v,
{
    if v > 0 {
        lemma_rest_rank_bound(steps, r, c, rank, (v - 1) as nat);
        assert forall|k: int| c <= k < r.len() implies rank(#[trigger] r[k] as int) >= v by {
            assert(waits_outside(steps, r, c, r[k] as int));
            let j = choose|j: int| #[trigger] depends_on(steps, r[k] as int, j) && !in_prefix(r, j, c);
            assert(in_prefix(r, j, r.len() as int));
            let w = choose|w: int| 0 <= w < r.len() && #[trigger] r[w] == j;
            assert(w >= c);
            assert(rank(r[w] as int) >= v - 1);
        }
    }
}

/// Without a dependency cycle, every step is placed after all the steps it
/// depends on.
pub proof fn lemma_acyclic_steps_fully_ordered(steps: Seq<WorkflowStep>, r: Seq<usize>, c: int, rank: spec_fn(int) -> nat)
    requires
        kahn_order(steps, r, c),
        ranked_by(steps, rank),
    ensures
        c == steps.len(),
        forall|k: int, j: int|
            0 <= k < r.len() && #[trigger] depends_on(steps, r[k] as int, j) ==> in_prefix(r, j, k),
{
    if c < r.len() {
        lemma_rest_rank_bound(steps, r, c, rank, rank(r[c] as int) + 1);
        assert(rank(r[c] as int) >= rank(r[c] as int) + 1);
    }
}

/// The steps that depend on nothing come first, in their original order.
pub proof fn lemma_independent_steps_first(steps: Seq<WorkflowStep>, r: Seq<usize>, c: int)
    requires
        kahn_order(steps, r, c),
    ensures
        forall|k1: int, k2: int|
            0 <= k1 < k2 < r.len() && is_root(steps, #[trigger] r[k2] as int) ==> is_root(
                steps,
                #[trigger] r[k1] as int,
            ) && r[k1] < r[k2],
{
    assert forall|k1: int, k2: int|
        0 <= k1 < k2 < r.len() && is_root(steps, #[trigger] r[k2] as int) implies is_root(
        steps,
        #[trigger] r[k1] as int,
    ) && r[k1] < r[k2] by {
        if k2 >= c {
            assert(waits_outside(steps, r, c, r[k2] as int));
            let j = choose|j: int| #[trigger] depends_on(steps, r[k2] as int, j) && !in_prefix(r, j, c);
        }
        lemma_root_last_dep(steps, r, r[k2] as int, k2);
        assert(key_before(steps, r, k1, k2));
        lemma_last_dep_spec(steps, r, r[k1] as int, k1);
        assert forall|j: int| !#[trigger] depends_on(steps, r[k1] as int, j) by {
            if depends_on(steps, r[k1] as int, j) {
                assert(in_prefix(r, j, k1));
                let w = choose|w: int| 0 <= w < k1 && #[trigger] r[w] == j;
                assert(depends_on(steps, r[k1] as int, r[w] as int));
            }
        }
    }
}

} // verus!
