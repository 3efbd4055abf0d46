use vstd::prelude::*;
use vstd::set_lib::{lemma_int_range, set_int_range};
use rand::Rng;
use crate::problem::{score, Problem};

verus! {

/// Why no problem could be selected.
#[derive(Debug, Clone, Copy, PartialEq, Eq, Structural)]
pub enum SelectError {
    /// The catalog holds no problem.
    EmptyCatalog,
    /// The scores add up to more than a `u128` holds.
    ScoreOverflow,
}

/// The sum of the scores of the first `n` problems.
pub open spec fn prefix_score(ps: Seq<Problem>, n: int) -> int
    decreases n,
{
    if n <= 0 || n > ps.len() {
        0
    } else {
        prefix_score(ps, n - 1) + score(ps[n - 1]@)
    }
}

/// The sum of the scores of all problems.
pub open spec fn total_score(ps: Seq<Problem>) -> int {
    prefix_score(ps, ps.len() as int)
}

/// Whether a draw of `pick` selects index `i`: `i` is the first index at which
/// the running sum of scores reaches `pick`, or the last index when none does.
pub open spec fn is_pick(ps: Seq<Problem>, pick: int, i: int) -> bool {
    &&& 0 <= i < ps.len()
    &&& forall|j: int| 0 <= j < i ==> #[trigger] prefix_score(ps, j + 1) < pick
    &&& (prefix_score(ps, i + 1) >= pick || i == ps.len() - 1)
}

/// Running sums never decrease, since scores are never negative.
pub proof fn lemma_prefix_monotone(ps: Seq<Problem>, a: int, b: int)
    requires
        0 <= a <= b <= ps.len(),
    ensures
        0 <= prefix_score(ps, a) <= prefix_score(ps, b),
    decreases b,
{
    if b > 0 {
        if a == b {
            lemma_prefix_monotone(ps, a - 1, b - 1);
        } else {
            lemma_prefix_monotone(ps, a, b - 1);
        }
    }
}

/// For a draw in `0..=total`, index `i` is selected exactly when the draw lies
/// in its own stretch of running sums, `prefix(i) < pick <= prefix(i + 1)`;
/// the first stretch also holds the draw 0.
pub proof fn lemma_pick_stretch(ps: Seq<Problem>, pick: int, i: int)
    requires
        0 <= i < ps.len(),
        0 <= pick <= total_score(ps),
    ensures
        is_pick(ps, pick, i) <==> ((i == 0 || prefix_score(ps, i) < pick) && pick <= prefix_score(ps, i + 1)),
{
    if is_pick(ps, pick, i) {
        if i > 0 {
            assert(prefix_score(ps, (i - 1) + 1) < pick);
        }
        if i == ps.len() - 1 {
            assert(prefix_score(ps, i + 1) == total_score(ps));
        }
    }
    if (i == 0 || prefix_score(ps, i) < pick) && pick <= prefix_score(ps, i + 1) {
        assert forall|j: int| 0 <= j < i implies #[trigger] prefix_score(ps, j + 1) < pick by {
            lemma_prefix_monotone(ps, j + 1, i);
        }
    }
}

/// Of the draws `0..=total`, exactly as many select index `i` as its score,
/// and one more for the first index, which also takes the draw 0. So each
/// problem comes up with a frequency in proportion to its score.
pub proof fn lemma_pick_frequency(ps: Seq<Problem>, i: int)
    requires
        0 <= i < ps.len(),
    ensures
        Set::new(|k: int| 0 <= k <= total_score(ps) && is_pick(ps, k, i)).finite(),
        Set::new(|k: int| 0 <= k <= total_score(ps) && is_pick(ps, k, i)).len() == score(ps[i]@) + if i == 0 {
            1int
        } else {
            0int
        },
{
    let picks = Set::new(|k: int| 0 <= k <= total_score(ps) && is_pick(ps, k, i));
    let lo = if i == 0 { 0 } else { prefix_score(ps, i) + 1 };
    let hi = prefix_score(ps, i + 1) + 1;
    lemma_prefix_monotone(ps, i, i + 1);
    lemma_prefix_monotone(ps, i + 1, ps.len() as int);
    assert(prefix_score(ps, 0) == 0);
    assert forall|k: int| picks.contains(k) <==> set_int_range(lo, hi).contains(k) by {
        if 0 <= k <= total_score(ps) {
            lemma_pick_stretch(ps, k, i);
        }
    }
    assert(picks =~= set_int_range(lo, hi));
    lemma_int_range(lo, hi);
}

/// The sum of all scores, or `None` when it does not fit in a `u128`.
pub fn sum_scores(problems: &Vec<Problem>) -> (r: Option<u128>)
    ensures
        r is Some <==> total_score(problems@) <= u128::MAX,
        r matches Some(t) ==> t == total_score(problems@),
{
    let mut sum: u128 = 0;
    let mut p: usize = 0;
    while p < problems.len()
        invariant
            0 <= p <= problems@.len(),
            sum == prefix_score(problems@, p as int),
        decreases problems@.len() - p,
    {
        match sum.checked_add(problems[p].get_score()) {
            Some(s) => {
                sum = s;
            },
            None => {
                proof {
                    lemma_prefix_monotone(problems@, p + 1, problems@.len() as int);
                }
                return None;
            },
        }
        p = p + 1;
    }
    Some(sum)
}

/// The index that a draw of `pick` selects: the first one at which the
/// running sum of scores reaches `pick`, or the last one when none does.
pub fn pick_index(problems: &Vec<Problem>, pick: u128) -> (r: usize)
    requires
        problems@.len() > 0,
    ensures
        is_pick(problems@, pick as int, r as int),
{
    let mut sum: u128 = 0;
    let mut p: usize = 0;
    while p < problems.len()
        invariant
            0 <= p <= problems@.len(),
            sum == prefix_score(problems@, p as int),
            forall|j: int| 0 <= j < p ==> #[trigger] prefix_score(problems@, j + 1) < pick,
        decreases problems@.len() - p,
    {
        match sum.checked_add(problems[p].get_score()) {
            Some(s) => {
                if s >= pick {
                    return p;
                }
                sum = s;
            },
            None => {
                return p;
            },
        }
        p = p + 1;
    }
    problems.len() - 1
}

/// Relies on `rand::thread_rng` and `rand::Rng::gen_range`: a value drawn from
/// the inclusive range `0..=hi`, which is never empty, so the call does not panic.
#[verifier::external_body]
fn draw_up_to(hi: u128) -> (r: u128)
    ensures
        r <= hi,
{
    rand::thread_rng().gen_range(0..=hi)
}

/// Draws a problem of the catalog, each with a probability that grows with its
/// score: a value is drawn uniformly from `0..=total` and [`pick_index`] maps it
/// to an index.
pub fn select_problem(problems: &Vec<Problem>) -> (r: Result<usize, SelectError>)
    ensures
        r == Err::<usize, SelectError>(SelectError::EmptyCatalog) <==> problems@.len() == 0,
        r == Err::<usize, SelectError>(SelectError::ScoreOverflow) <==> problems@.len() > 0 && total_score(problems@) > u128::MAX,
        r matches Ok(i) ==> 0 <= i < problems@.len(),
        r is Ok ==> exists|pick: int| 0 <= pick <= total_score(problems@) && #[trigger] is_pick(problems@, pick, r->Ok_0 as int),
        problems@.len() == 1 ==> r == Ok::<usize, SelectError>(0),
{
    if problems.len() == 0 {
        return Err(SelectError::EmptyCatalog);
    }
    proof {
        if problems@.len() == 1 {
            assert(prefix_score(problems@, 0) == 0);
            assert(total_score(problems@) == score(problems@[0]@));
        }
    }
    match sum_scores(problems) {
        None => Err(SelectError::ScoreOverflow),
        Some(total) => {
            let pick = draw_up_to(total);
            let i = pick_index(problems, pick);
            let r: Result<usize, SelectError> = Ok(i);
            assert(is_pick(problems@, pick as int, r->Ok_0 as int));
            r
        },
    }
}

} // verus!
