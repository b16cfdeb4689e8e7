//! The per-worker nonce scan, the signal that lets workers stop together,
//! and the reduction of the workers' results.
use vstd::prelude::*;
use std::sync::atomic::{AtomicU32, AtomicU64, Ordering};
use std::time::Instant;
use drillx::equix::SolverMemory;
use crate::hashing::{drillx_hash, leading_zero_bits, hash_nonce, difficulty};
use crate::partition::{WorkerRange, NONCE_SPACE};

verus! {

/// A candidate solution as a mathematical value.
pub struct Candidate {
    pub nonce: u64,
    pub difficulty: nat,
    pub digest: Seq<u8>,
    pub hash: Seq<u8>,
}

/// The best nonce a worker has seen, with its difficulty, digest and hash.
#[derive(Clone, Copy, Debug)]
pub struct WorkerBest {
    pub nonce: u64,
    pub difficulty: u32,
    pub digest: [u8; 16],
    pub hash: [u8; 32],
}

impl View for WorkerBest {
    type V = Candidate;

    open spec fn view(&self) -> Candidate {
        Candidate {
            nonce: self.nonce,
            difficulty: self.difficulty as nat,
            digest: self.digest@,
            hash: self.hash@,
        }
    }
}

/// The starting point of a scan: the given nonce, difficulty zero and an
/// all-zero digest and hash.
pub open spec fn initial_candidate(nonce: u64) -> Candidate {
    Candidate {
        nonce,
        difficulty: 0,
        digest: Seq::new(16, |i: int| 0u8),
        hash: Seq::new(32, |i: int| 0u8),
    }
}

impl WorkerBest {
    pub fn initial(nonce: u64) -> (r: WorkerBest)
        ensures
            r@ == initial_candidate(nonce),
    {
        let r = WorkerBest { nonce, difficulty: 0, digest: [0u8; 16], hash: [0u8; 32] };
        assert(r.digest@ =~= Seq::new(16, |i: int| 0u8));
        assert(r.hash@ =~= Seq::new(32, |i: int| 0u8));
        r
    }
}

/// The best candidate after looking at `nonce`, whose hash attempt gave
/// `found`: the nonce replaces the best so far only when its difficulty is
/// strictly higher, and a nonce without a hash changes nothing.
pub open spec fn next_candidate(prev: Candidate, nonce: u64, found: Option<(Seq<u8>, Seq<u8>)>) -> Candidate {
    match found {
        Some(p) => if leading_zero_bits(p.1) > prev.difficulty {
            Candidate { nonce, difficulty: leading_zero_bits(p.1), digest: p.0, hash: p.1 }
        } else {
            prev
        },
        None => prev,
    }
}

/// A hash attempt's outcome as mathematical values.
pub open spec fn found_view(found: Option<([u8; 16], [u8; 32])>) -> Option<(Seq<u8>, Seq<u8>)> {
    match found {
        Some(p) => Some((p.0@, p.1@)),
        None => None,
    }
}

/// The best of the nonces `[start, stop)` scanned in ascending order.
pub open spec fn scan_best(challenge: Seq<u8>, start: int, stop: int) -> Candidate
    decreases stop - start,
{
    if stop <= start {
        initial_candidate(start as u64)
    } else {
        next_candidate(
            scan_best(challenge, start, stop - 1),
            (stop - 1) as u64,
            drillx_hash(challenge, (stop - 1) as u64),
        )
    }
}

/// Takes the outcome of hashing `nonce` into account.
pub fn consider(best: WorkerBest, nonce: u64, found: Option<([u8; 16], [u8; 32])>) -> (r: WorkerBest)
    ensures
        r@ == next_candidate(best@, nonce, found_view(found)),
{
    match found {
        Some(p) => {
            let d = difficulty(p.1);
            if d > best.difficulty {
                WorkerBest { nonce, difficulty: d, digest: p.0, hash: p.1 }
            } else {
                best
            }
        },
        None => best,
    }
}

/// State shared by the workers of one search: the best difficulty any of them
/// has reached, a hint for stopping early, and the number of hashes tried.
pub struct SearchSignal {
    best: AtomicU32,
    hashes: AtomicU64,
}

impl SearchSignal {
    pub fn new() -> SearchSignal {
        SearchSignal { best: AtomicU32::new(0), hashes: AtomicU64::new(0) }
    }

    /// Raises the shared best difficulty to at least `difficulty`.
    pub fn raise(&self, difficulty: u32) {
        let _ = self.best.fetch_max(difficulty, Ordering::SeqCst);
    }

    /// The shared best difficulty as last seen.
    pub fn best_difficulty(&self) -> u32 {
        self.best.load(Ordering::SeqCst)
    }

    /// Counts one more hash attempt.
    pub fn count_hash(&self) {
        let _ = self.hashes.fetch_add(1, Ordering::Relaxed);
    }

    /// The number of hash attempts counted so far.
    pub fn total_hashes(&self) -> u64 {
        self.hashes.load(Ordering::Relaxed)
    }
}

/// A worker may stop once the cutoff has passed and some worker has reached
/// the minimum difficulty.
pub open spec fn should_stop_spec(
    elapsed_secs: u64,
    cutoff_secs: u64,
    global_best: u32,
    min_difficulty: u32,
) -> bool {
    elapsed_secs >= cutoff_secs && global_best >= min_difficulty
}

pub fn should_stop(elapsed_secs: u64, cutoff_secs: u64, global_best: u32, min_difficulty: u32) -> (r:
    bool)
    ensures
        r == should_stop_spec(elapsed_secs, cutoff_secs, global_best, min_difficulty),
{
    elapsed_secs >= cutoff_secs && global_best >= min_difficulty
}

/// What a worker hands back: its best candidate, how many nonces it scanned,
/// and the elapsed seconds and shared best difficulty it read at its last
/// stop check (both zero when it made none).
#[derive(Clone, Copy, Debug)]
pub struct WorkerReport {
    pub best: WorkerBest,
    pub scanned: u128,
    pub last_elapsed: u64,
    pub last_shared_best: u32,
}

/// Scans `range` in ascending order with its own solver memory, keeping the
/// best candidate, until the range is exhausted or the stop condition holds
/// after a nonce. The first nonce of a non-empty range is always evaluated.
pub fn solve(
    range: WorkerRange,
    challenge: &[u8; 32],
    start_clock: &Instant,
    cutoff_secs: u64,
    min_difficulty: u32,
    signal: &SearchSignal,
) -> (r: WorkerReport)
    requires
        range.start <= range.end <= NONCE_SPACE,
        range.start < NONCE_SPACE,
    ensures
        r.scanned <= range.end - range.start,
        range.start < range.end ==> r.scanned >= 1,
        r.best@ == scan_best(challenge@, range.start as int, range.start + r.scanned),
        r.scanned < range.end - range.start ==> should_stop_spec(
            r.last_elapsed,
            cutoff_secs,
            r.last_shared_best,
            min_difficulty,
        ),
        cutoff_secs == 0 && min_difficulty == 0 && range.start < range.end ==> r.scanned == 1,
{
    let mut best = WorkerBest::initial(range.start as u64);
    if range.start >= range.end {
        return WorkerReport { best, scanned: 0, last_elapsed: 0, last_shared_best: 0 };
    }
    let mut memory = SolverMemory::new();
    let mut nonce: u128 = range.start;
    let mut last_elapsed: u64 = 0;
    let mut last_shared_best: u32 = 0;
    loop
        invariant_except_break
            range.start <= nonce < range.end <= NONCE_SPACE,
            best@ == scan_best(challenge@, range.start as int, nonce as int),
            cutoff_secs == 0 && min_difficulty == 0 ==> nonce == range.start,
        ensures
            range.start < nonce <= range.end,
            best@ == scan_best(challenge@, range.start as int, nonce as int),
            nonce < range.end ==> should_stop_spec(
                last_elapsed,
                cutoff_secs,
                last_shared_best,
                min_difficulty,
            ),
            cutoff_secs == 0 && min_difficulty == 0 ==> nonce == range.start + 1,
        decreases range.end - nonce,
    {
        let n: u64 = nonce as u64;
        let found = hash_nonce(&mut memory, challenge, n);
        let next = consider(best, n, found);
        if next.difficulty > best.difficulty {
            signal.raise(next.difficulty);
        }
        best = next;
        signal.count_hash();
        nonce = nonce + 1;
        if nonce >= range.end {
            break ;
        }
        last_elapsed = start_clock.elapsed().as_secs();
        last_shared_best = signal.best_difficulty();
        if should_stop(last_elapsed, cutoff_secs, last_shared_best, min_difficulty) {
            break ;
        }
    }
    WorkerReport { best, scanned: nonce - range.start, last_elapsed, last_shared_best }
}

/// The reduction of the workers' results in order: a result replaces the best
/// so far only when its difficulty is strictly higher.
pub open spec fn reduce_best(results: Seq<WorkerBest>) -> Candidate
    decreases results.len(),
{
    if results.len() == 0 {
        initial_candidate(0)
    } else {
        let prev = reduce_best(results.drop_last());
        if results.last()@.difficulty > prev.difficulty {
            results.last()@
        } else {
            prev
        }
    }
}

/// The highest difficulty among the results, zero when there are none.
pub open spec fn max_difficulty(results: Seq<WorkerBest>) -> nat
    decreases results.len(),
{
    if results.len() == 0 {
        0
    } else {
        let m = max_difficulty(results.drop_last());
        if results.last().difficulty > m {
            results.last().difficulty as nat
        } else {
            m
        }
    }
}

/// Selects the overall best of the workers' results.
pub fn select_best(results: &Vec<WorkerBest>) -> (r: WorkerBest)
    ensures
        r@ == reduce_best(results@),
        r.difficulty == max_difficulty(results@),
{
    let mut best = WorkerBest::initial(0);
    let mut i: usize = 0;
    while i < results.len()
        invariant
            0 <= i <= results.len(),
            best@ == reduce_best(results@.subrange(0, i as int)),
        decreases results.len() - i,
    {
        proof {
            assert(results@.subrange(0, i + 1).drop_last() =~= results@.subrange(0, i as int));
        }
        if results[i].difficulty > best.difficulty {
            best = results[i];
        }
        i = i + 1;
    }
    proof {
        assert(results@.subrange(0, results.len() as int) =~= results@);
        lemma_reduce_reports_max(results@);
    }
    best
}

/// The reduction never under-reports: its difficulty is the highest that any
/// worker returned.
pub proof fn lemma_reduce_reports_max(results: Seq<WorkerBest>)
    ensures
        reduce_best(results).difficulty == max_difficulty(results),
    decreases results.len(),
{
    if results.len() > 0 {
        lemma_reduce_reports_max(results.drop_last());
    }
}

/// `max_difficulty` is the maximum: no result exceeds it, and some result
/// reaches it when there is any.
pub proof fn lemma_max_difficulty_is_max(results: Seq<WorkerBest>)
    ensures
        forall|i: int|
            0 <= i < results.len() ==> #[trigger] results[i].difficulty <= max_difficulty(results),
        results.len() > 0 ==> exists|i: int|
            0 <= i < results.len() && #[trigger] results[i].difficulty == max_difficulty(results),
    decreases results.len(),
{
    if results.len() > 0 {
        let prefix = results.drop_last();
        lemma_max_difficulty_is_max(prefix);
        assert forall|i: int|
            0 <= i < results.len() implies #[trigger] results[i].difficulty <= max_difficulty(
            results,
        ) by {
            if i < results.len() - 1 {
                assert(results[i] == prefix[i]);
            }
        }
        if prefix.len() > 0 && max_difficulty(results) == max_difficulty(prefix) {
            let j = choose|j: int|
                0 <= j < prefix.len() && #[trigger] prefix[j].difficulty == max_difficulty(prefix);
            assert(results[j] == prefix[j]);
        } else {
            assert(results[results.len() - 1].difficulty == max_difficulty(results));
        }
    }
}

} // verus!
