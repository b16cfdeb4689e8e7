//! Splitting the nonce space into one contiguous range per worker.
use vstd::prelude::*;

verus! {

/// Size of the full nonce space, 2^64.
pub const NONCE_SPACE: u128 = 0x1_0000_0000_0000_0000;

/// A half-open interval `[start, end)` of nonces handed to one worker. The
/// bounds are wide enough to hold the end of the full space.
#[derive(Clone, Copy, Debug, PartialEq, Eq, Structural)]
pub struct WorkerRange {
    pub start: u128,
    pub end: u128,
}

impl WorkerRange {
    pub open spec fn contains(self, n: int) -> bool {
        self.start <= n < self.end
    }
}

/// The `i`-th of `workers` ranges over `[0, space)`: each has `space / workers`
/// nonces, the last one also takes the remainder.
pub open spec fn range_spec(space: int, workers: int, i: int) -> WorkerRange {
    let step = space / workers;
    WorkerRange {
        start: (step * i) as u128,
        end: if i == workers - 1 { space as u128 } else { (step * (i + 1)) as u128 },
    }
}

proof fn lemma_mul_bounds(step: int, a: int, b: int, space: int, workers: int)
    requires
        0 <= a <= b <= workers,
        workers >= 1,
        step == space / workers,
        space >= 0,
    ensures
        0 <= step * a <= step * b <= space,
        step >= 0,
{
    assert(step >= 0) by (nonlinear_arith)
        requires step == space / workers, space >= 0, workers >= 1;
    assert(step * workers <= space) by (nonlinear_arith)
        requires step == space / workers, space >= 0, workers >= 1;
    assert(0 <= step * a <= step * b <= step * workers) by (nonlinear_arith)
        requires 0 <= a <= b <= workers, step >= 0;
}

/// Splits `[0, space)` into `workers` contiguous ranges by integer division.
pub fn partition(space: u128, workers: usize) -> (r: Vec<WorkerRange>)
    requires
        workers >= 1,
        space <= NONCE_SPACE,
    ensures
        r.len() == workers,
        forall|i: int| 0 <= i < workers ==> r[i] == range_spec(space as int, workers as int, i),
{
    let step: u128 = space / workers as u128;
    let mut r: Vec<WorkerRange> = Vec::new();
    let mut i: usize = 0;
    while i < workers
        invariant
            0 <= i <= workers,
            workers >= 1,
            space <= NONCE_SPACE,
            step == space / workers as u128,
            r.len() == i,
            forall|k: int| 0 <= k < i ==> r[k] == range_spec(space as int, workers as int, k),
        decreases workers - i,
    {
        proof {
            lemma_mul_bounds(step as int, i as int, i + 1, space as int, workers as int);
        }
        let start: u128 = step * i as u128;
        let end: u128 = if i == workers - 1 { space } else { step * (i as u128 + 1) };
        r.push(WorkerRange { start, end });
        i = i + 1;
    }
    r
}

/// The ranges for the full 64-bit nonce space.
pub fn nonce_ranges(workers: usize) -> (r: Vec<WorkerRange>)
    requires
        workers >= 1,
    ensures
        r.len() == workers,
        forall|i: int|
            0 <= i < workers ==> r[i] == range_spec(NONCE_SPACE as int, workers as int, i),
{
    partition(NONCE_SPACE, workers)
}

/// Nonce `n` lies in one of the ranges.
pub open spec fn covered(space: int, workers: int, n: int) -> bool {
    exists|i: int| 0 <= i < workers && #[trigger] range_spec(space, workers, i).contains(n)
}

/// The ranges for `workers >= 1` workers are pairwise disjoint and their union
/// is exactly `[0, space)`.
pub proof fn lemma_partition_exact(space: int, workers: int)
    requires
        workers >= 1,
        0 <= space <= NONCE_SPACE,
    ensures
        forall|i: int, j: int, n: int|
            0 <= i < workers && 0 <= j < workers && i != j
                && #[trigger] range_spec(space, workers, i).contains(n) ==> !#[trigger] range_spec(
                space,
                workers,
                j,
            ).contains(n),
        forall|i: int, n: int|
            0 <= i < workers && #[trigger] range_spec(space, workers, i).contains(n) ==> 0 <= n
                < space,
        forall|n: int| 0 <= n < space ==> #[trigger] covered(space, workers, n),
{
    let step = space / workers;
    assert forall|i: int, j: int, n: int|
        0 <= i < workers && 0 <= j < workers && i != j
            && #[trigger] range_spec(space, workers, i).contains(n) implies !#[trigger] range_spec(
            space,
            workers,
            j,
        ).contains(n) by {
        if i < j {
            lemma_mul_bounds(step, i + 1, j, space, workers);
            lemma_mul_bounds(step, i, i + 1, space, workers);
            lemma_mul_bounds(step, j, workers, space, workers);
        } else {
            lemma_mul_bounds(step, j + 1, i, space, workers);
            lemma_mul_bounds(step, j, j + 1, space, workers);
            lemma_mul_bounds(step, i, workers, space, workers);
        }
    }
    assert forall|i: int, n: int|
        0 <= i < workers && #[trigger] range_spec(space, workers, i).contains(n) implies 0 <= n
            < space by {
        lemma_mul_bounds(step, i, i + 1, space, workers);
    }
    assert forall|n: int| 0 <= n < space implies #[trigger] covered(space, workers, n) by {
        if step == 0 {
            assert(range_spec(space, workers, workers - 1).contains(n));
        } else {
            let k = n / step;
            assert(step * k <= n < step * (k + 1)) by (nonlinear_arith)
                requires k == n / step, step > 0, n >= 0;
            assert(k >= 0) by (nonlinear_arith)
                requires k == n / step, step > 0, n >= 0;
            if k >= workers - 1 {
                lemma_mul_bounds(step, workers - 1, workers, space, workers);
                assert(step * (workers - 1) <= step * k) by (nonlinear_arith)
                    requires workers - 1 <= k, step > 0;
                assert(range_spec(space, workers, workers - 1).contains(n));
            } else {
                lemma_mul_bounds(step, k, k + 1, space, workers);
                assert(range_spec(space, workers, k).contains(n));
            }
        }
    }
}

} // verus!
