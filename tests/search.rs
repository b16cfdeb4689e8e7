use ore_miner::partition::{nonce_ranges, partition, WorkerRange, NONCE_SPACE};
use ore_miner::search::{consider, select_best, should_stop, solve, SearchSignal, WorkerBest};
use std::time::Instant;

fn hash_with_leading_zero_bits(bits: u32) -> [u8; 32] {
    let mut h = [0xffu8; 32];
    let full = (bits / 8) as usize;
    for b in h.iter_mut().take(full) {
        *b = 0;
    }
    if full < 32 {
        h[full] = 0xff >> (bits % 8);
    }
    h
}

#[test]
fn partition_two_workers_of_sixteen() {
    let r = partition(16, 2);
    assert_eq!(r, vec![WorkerRange { start: 0, end: 8 }, WorkerRange { start: 8, end: 16 }]);
}

#[test]
fn partition_last_range_takes_remainder() {
    let r = partition(10, 3);
    assert_eq!(
        r,
        vec![
            WorkerRange { start: 0, end: 3 },
            WorkerRange { start: 3, end: 6 },
            WorkerRange { start: 6, end: 10 },
        ]
    );
}

#[test]
fn full_space_is_covered() {
    for workers in [1usize, 2, 3, 7, 16] {
        let r = nonce_ranges(workers);
        assert_eq!(r.len(), workers);
        assert_eq!(r[0].start, 0);
        assert_eq!(r[workers - 1].end, NONCE_SPACE);
        for i in 1..workers {
            assert_eq!(r[i - 1].end, r[i].start);
            assert!(r[i].start < r[i].end);
        }
    }
    assert_eq!(nonce_ranges(1), vec![WorkerRange { start: 0, end: 1u128 << 64 }]);
}

#[test]
fn consider_keeps_strictly_better() {
    let best = WorkerBest::initial(0);
    let a = consider(best, 3, Some(([1u8; 16], hash_with_leading_zero_bits(5))));
    assert_eq!((a.nonce, a.difficulty, a.digest), (3, 5, [1u8; 16]));
    let b = consider(a, 4, Some(([2u8; 16], hash_with_leading_zero_bits(5))));
    assert_eq!((b.nonce, b.difficulty), (3, 5));
    let c = consider(b, 5, None);
    assert_eq!((c.nonce, c.difficulty), (3, 5));
    let d = consider(c, 6, Some(([3u8; 16], hash_with_leading_zero_bits(17))));
    assert_eq!((d.nonce, d.difficulty, d.hash), (6, 17, hash_with_leading_zero_bits(17)));
}

#[test]
fn consider_counts_all_zero_hash() {
    let r = consider(WorkerBest::initial(9), 1, Some(([0u8; 16], [0u8; 32])));
    assert_eq!(r.difficulty, 256);
    assert_eq!(r.nonce, 1);
}

// Two workers over [0, 16); only nonce 5 reaches difficulty 10, every other
// nonce at most 7: the search reports nonce 5 at difficulty 10.
#[test]
fn search_scenario_nonce_five() {
    let ranges = partition(16, 2);
    assert_eq!(ranges, vec![WorkerRange { start: 0, end: 8 }, WorkerRange { start: 8, end: 16 }]);
    let mut results = Vec::new();
    for range in &ranges {
        let mut best = WorkerBest::initial(range.start as u64);
        for n in range.start..range.end {
            let bits = if n == 5 { 10 } else { (n % 8) as u32 };
            best = consider(best, n as u64, Some(([n as u8; 16], hash_with_leading_zero_bits(bits))));
        }
        results.push(best);
    }
    assert_eq!((results[0].nonce, results[0].difficulty), (5, 10));
    assert_eq!((results[1].nonce, results[1].difficulty), (15, 7));
    let best = select_best(&results);
    assert_eq!(best.nonce, 5);
    assert_eq!(best.difficulty, 10);
    assert!(best.difficulty >= 8);
}

#[test]
fn select_best_reports_maximum_first_wins() {
    let mk = |nonce: u64, difficulty: u32| WorkerBest { nonce, difficulty, digest: [0; 16], hash: [0; 32] };
    let r = select_best(&vec![mk(1, 3), mk(2, 9), mk(3, 9), mk(4, 2)]);
    assert_eq!((r.nonce, r.difficulty), (2, 9));
    let empty = select_best(&vec![]);
    assert_eq!((empty.nonce, empty.difficulty), (0, 0));
}

#[test]
fn stop_needs_deadline_and_difficulty() {
    assert!(should_stop(5, 5, 8, 8));
    assert!(!should_stop(4, 5, 8, 8));
    assert!(!should_stop(5, 5, 7, 8));
    assert!(should_stop(0, 0, 0, 0));
}

#[test]
fn solve_with_zero_cutoff_evaluates_first_nonce() {
    let challenge = [0u8; 32];
    let signal = SearchSignal::new();
    let start = Instant::now();
    let r = solve(WorkerRange { start: 0, end: 1000 }, &challenge, &start, 0, 0, &signal);
    assert_eq!(r.scanned, 1);
    assert_eq!(signal.total_hashes(), 1);
    assert_eq!(r.best.nonce, 0);
    match drillx::hash(&challenge, &0u64.to_le_bytes()) {
        Ok(hx) => {
            assert_eq!(r.best.difficulty, drillx::difficulty(hx.h));
            if r.best.difficulty > 0 {
                assert_eq!(r.best.digest, hx.d);
                assert_eq!(r.best.hash, hx.h);
                assert_eq!(signal.best_difficulty(), r.best.difficulty);
            }
        }
        Err(_) => assert_eq!(r.best.difficulty, 0),
    }
}

#[test]
fn solve_scans_whole_range_when_bar_is_unreachable() {
    let challenge = [7u8; 32];
    let signal = SearchSignal::new();
    let start = Instant::now();
    let r = solve(WorkerRange { start: 10, end: 14 }, &challenge, &start, 0, u32::MAX, &signal);
    assert_eq!(r.scanned, 4);
    assert_eq!(signal.total_hashes(), 4);
    let mut best_nonce = 10u64;
    let mut best_difficulty = 0u32;
    for n in 10u64..14 {
        if let Ok(hx) = drillx::hash(&challenge, &n.to_le_bytes()) {
            if hx.difficulty() > best_difficulty {
                best_difficulty = hx.difficulty();
                best_nonce = n;
            }
        }
    }
    assert_eq!((r.best.nonce, r.best.difficulty), (best_nonce, best_difficulty));
}

#[test]
fn solve_empty_range() {
    let signal = SearchSignal::new();
    let r = solve(WorkerRange { start: 3, end: 3 }, &[0u8; 32], &Instant::now(), 0, 0, &signal);
    assert_eq!(r.scanned, 0);
    assert_eq!((r.best.nonce, r.best.difficulty), (3, 0));
}

#[test]
fn signal_only_rises() {
    let s = SearchSignal::new();
    s.raise(4);
    s.raise(2);
    assert_eq!(s.best_difficulty(), 4);
    s.raise(9);
    assert_eq!(s.best_difficulty(), 9);
}

#[test]
fn solution_carries_digest_and_nonce_bytes() {
    let best = WorkerBest { nonce: 0x0102_0304_0506_0708, difficulty: 3, digest: [9u8; 16], hash: [0u8; 32] };
    let s = ore_miner::solution::solution_of(&best);
    assert_eq!(s.d, [9u8; 16]);
    assert_eq!(s.n, [8, 7, 6, 5, 4, 3, 2, 1]);
    assert_eq!(ore_miner::solution::nonce_bytes(5), [5, 0, 0, 0, 0, 0, 0, 0]);
    assert_eq!(ore_miner::solution::nonce_bytes(u64::MAX), [0xff; 8]);
}

#[test]
fn solve_does_not_stop_before_deadline() {
    let signal = SearchSignal::new();
    let r = solve(WorkerRange { start: 0, end: 3 }, &[1u8; 32], &Instant::now(), u64::MAX, 0, &signal);
    assert_eq!(r.scanned, 3);
}

#[test]
fn solve_stop_readings_meet_condition() {
    let signal = SearchSignal::new();
    signal.raise(4);
    let r = solve(WorkerRange { start: 0, end: 50 }, &[2u8; 32], &Instant::now(), 0, 3, &signal);
    assert_eq!(r.scanned, 1);
    assert!(should_stop(r.last_elapsed, 0, r.last_shared_best, 3));
    assert!(r.last_shared_best >= 4);
}
