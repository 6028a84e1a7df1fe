//! Mathematical model of one recompute: which points a sweep produces and
//! which error state it leaves, as functions of the prior point sequence, the
//! equation text and the range bound. The pipeline's contracts equate its
//! state with this model; the lemmas here state the laws the model obeys.

use vstd::prelude::*;
use crate::evaluator::{construct_of, eval_of};
use crate::scan::{group_head_op, dip_then_completion};

verus! {

/// x-coordinate of sample `k` of a sweep over `[-r, r]`.
pub open spec fn sample_x(r: int, k: int) -> int {
    k - r
}

/// A sweep over `[-r, r]` visits `2·r + 1` integer samples.
pub open spec fn num_samples(r: int) -> int {
    2 * r + 1
}

/// Index of the first sample at or after `k` whose evaluation fails, or
/// `num_samples(r)` if evaluation succeeds from `k` on.
pub open spec fn swept_len_from(eq: Seq<char>, r: int, k: int) -> int
    decreases num_samples(r) - k,
{
    if k < 0 || k >= num_samples(r) {
        k
    } else if eval_of(eq, sample_x(r, k)) is Err {
        k
    } else {
        swept_len_from(eq, r, k + 1)
    }
}

/// Number of points a sweep over `[-r, r]` collects before it stops: the
/// index of the first failing sample, or the full sample count.
pub open spec fn swept_len(eq: Seq<char>, r: int) -> int {
    swept_len_from(eq, r, 0)
}

/// The points a sweep produces: one `(x, y-bit-pattern)` pair per sample
/// evaluated before the first failure, in ascending x order. The y entries
/// are the named evaluation results; the pipeline's contract matches its
/// stored bits to them wherever the evaluator's bits are pinned (no NaN
/// payload, no power operator in the text).
pub open spec fn swept_points(eq: Seq<char>, r: int) -> Seq<(int, u64)> {
    Seq::new(swept_len(eq, r) as nat, |k: int| (sample_x(r, k), eval_of(eq, sample_x(r, k))->Ok_0))
}

/// Error text the pipeline reports for a stray closing bracket, which the
/// evaluator cannot process.
pub open spec fn stray_close_note() -> Seq<char> {
    "Syntax error: a closing bracket stands before its opening bracket."@
}

/// Error text the pipeline reports for an operator with no left operand,
/// which the evaluator cannot process.
pub open spec fn lead_op_note() -> Seq<char> {
    "Syntax error: an operator opens the equation or a bracket group."@
}

/// The construction error a recompute on text `eq` leaves, if any.
pub open spec fn next_cerr(eq: Seq<char>) -> Option<Seq<char>> {
    if dip_then_completion(eq) {
        Some(stray_close_note())
    } else if construct_of(eq) is Err {
        Some(construct_of(eq)->Err_0)
    } else {
        None
    }
}

/// The point sequence a recompute on `(eq, r)` leaves, given the prior one:
/// unchanged when construction fails, otherwise replaced by the sweep's
/// points (an operator with no left operand stops the sweep before its first
/// sample).
pub open spec fn next_points(prior: Seq<(int, u64)>, eq: Seq<char>, r: int) -> Seq<(int, u64)> {
    if next_cerr(eq) is Some {
        prior
    } else if group_head_op(eq) {
        Seq::empty()
    } else {
        swept_points(eq, r)
    }
}

/// The evaluation error a recompute on `(eq, r)` leaves, if any.
pub open spec fn next_eerr(eq: Seq<char>, r: int) -> Option<Seq<char>> {
    if next_cerr(eq) is Some {
        None
    } else if group_head_op(eq) {
        Some(lead_op_note())
    } else if swept_len(eq, r) < num_samples(r) {
        Some(eval_of(eq, sample_x(r, swept_len(eq, r)))->Err_0)
    } else {
        None
    }
}

/// The x-values of a point sequence climb by exactly one per entry.
pub open spec fn ascending_by_one(s: Seq<(int, u64)>) -> bool {
    forall|k: int| 0 <= k < s.len() ==> (#[trigger] s[k]).0 == s[0].0 + k
}

proof fn lemma_swept_len_from(eq: Seq<char>, r: int, j: int, l: int)
    requires
        0 <= r,
        0 <= j <= l <= num_samples(r),
        forall|k: int| j <= k < l ==> #[trigger] eval_of(eq, sample_x(r, k)) is Ok,
        l < num_samples(r) ==> eval_of(eq, sample_x(r, l)) is Err,
    ensures
        swept_len_from(eq, r, j) == l,
    decreases l - j,
{
    if j < l {
        assert(eval_of(eq, sample_x(r, j)) is Ok);
        lemma_swept_len_from(eq, r, j + 1, l);
    }
}

/// The sweep stops exactly at the first failing sample: if every sample
/// before `l` evaluates and `l` is the sample count or a failing sample,
/// the sweep collects exactly `l` points.
pub proof fn lemma_swept_len(eq: Seq<char>, r: int, l: int)
    requires
        0 <= r,
        0 <= l <= num_samples(r),
        forall|k: int| 0 <= k < l ==> #[trigger] eval_of(eq, sample_x(r, k)) is Ok,
        l < num_samples(r) ==> eval_of(eq, sample_x(r, l)) is Err,
    ensures
        swept_len(eq, r) == l,
{
    lemma_swept_len_from(eq, r, 0, l);
}

/// A recompute whose construction fails leaves the point sequence exactly as
/// it was, reports a construction error, and reports no evaluation error.
pub proof fn lemma_construction_failure_keeps_points(
    prior: Seq<(int, u64)>,
    eq: Seq<char>,
    r: int,
)
    requires
        next_cerr(eq) is Some,
    ensures
        next_points(prior, eq, r) == prior,
        next_eerr(eq, r) is None,
{
}

/// A recompute whose construction succeeds and whose evaluation succeeds at
/// every sample yields one point per sample and no evaluation error.
pub proof fn lemma_full_sweep(eq: Seq<char>, r: int)
    requires
        0 <= r,
        !dip_then_completion(eq),
        !group_head_op(eq),
        construct_of(eq) is Ok,
        forall|k: int|
            0 <= k < num_samples(r) ==> #[trigger] eval_of(eq, sample_x(r, k)) is Ok,
    ensures
        swept_len(eq, r) == num_samples(r),
        forall|prior: Seq<(int, u64)>| #[trigger] next_points(prior, eq, r).len() == num_samples(r),
        next_eerr(eq, r) is None,
{
    lemma_swept_len(eq, r, num_samples(r));
}

/// A recompute whose construction succeeds but whose evaluation first fails
/// at sample `k` keeps exactly the `k` points collected before the failure
/// and reports that sample's evaluation error.
pub proof fn lemma_partial_sweep(eq: Seq<char>, r: int, k: int)
    requires
        0 <= r,
        !dip_then_completion(eq),
        !group_head_op(eq),
        construct_of(eq) is Ok,
        0 <= k < num_samples(r),
        forall|j: int| 0 <= j < k ==> #[trigger] eval_of(eq, sample_x(r, j)) is Ok,
        eval_of(eq, sample_x(r, k)) is Err,
    ensures
        swept_len(eq, r) == k,
        forall|prior: Seq<(int, u64)>| #[trigger] next_points(prior, eq, r).len() == k,
        next_eerr(eq, r) == Some(eval_of(eq, sample_x(r, k))->Err_0),
{
    lemma_swept_len(eq, r, k);
}

/// Recomputing twice from the same inputs leaves the same derived state as
/// recomputing once: the construction and evaluation errors depend on the
/// inputs alone, and the point sequence is a fixed point of a second pass.
pub proof fn lemma_recompute_idempotent(prior: Seq<(int, u64)>, eq: Seq<char>, r: int)
    ensures
        next_points(next_points(prior, eq, r), eq, r) == next_points(prior, eq, r),
{
}

/// The points of a sweep start at `-r` and their x-values climb by exactly
/// one per entry.
pub proof fn lemma_points_ascending(eq: Seq<char>, r: int)
    requires
        0 <= r,
    ensures
        ascending_by_one(swept_points(eq, r)),
        forall|k: int|
            0 <= k < swept_points(eq, r).len() ==> (#[trigger] swept_points(eq, r)[k]).0
                == sample_x(r, k),
{
}

/// A recompute keeps the point sequence's x-values climbing by one: the
/// sequence is either kept or replaced by sweep points, which climb from
/// `-r`.
pub proof fn lemma_recompute_keeps_ascending(prior: Seq<(int, u64)>, eq: Seq<char>, r: int)
    requires
        0 <= r,
        ascending_by_one(prior),
    ensures
        ascending_by_one(next_points(prior, eq, r)),
{
    lemma_points_ascending(eq, r);
}

} // verus!
