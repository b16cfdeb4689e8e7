//! Round policies: when an epoch reset is due, how long to search, how many
//! workers to run.
use vstd::prelude::*;
use crate::random::random_below;

verus! {

/// Length of one mining round, in seconds.
pub const ROUND_WINDOW_SECONDS: i64 = 60;

/// Cutoff used when the chain clock cannot be read.
pub const DEFAULT_CUTOFF_SECONDS: u64 = 60;

/// Safety margin, in seconds, before the end of an epoch at which a reset is
/// already considered due.
pub const RESET_BUFFER_SECONDS: i64 = 5;

/// One reset is attempted out of this many eligible rounds.
pub const RESET_ONE_IN: u64 = 100;

/// Compute budget of a round that only mines.
pub const MINE_COMPUTE_BUDGET: u32 = 500_000;

/// Extra compute budget when the round also resets the epoch.
pub const RESET_COMPUTE_BUDGET: u32 = 100_000;

/// The epoch boundary test, over unbounded integers.
pub open spec fn reset_due(last_reset_at: int, epoch_duration: int, buffer: int, now: int) -> bool {
    now >= last_reset_at + epoch_duration - buffer
}

/// True when `now` has reached the end of the epoch that started at
/// `last_reset_at`, less the safety buffer.
pub fn should_reset(last_reset_at: i64, epoch_duration: i64, buffer: i64, now: i64) -> (r: bool)
    ensures
        r == reset_due(last_reset_at as int, epoch_duration as int, buffer as int, now as int),
{
    let boundary: i128 = last_reset_at as i128 + epoch_duration as i128 - buffer as i128;
    now as i128 >= boundary
}

/// As [`should_reset`], where the chain clock may be unavailable: without a
/// clock no reset is attempted.
pub fn should_reset_at(last_reset_at: i64, epoch_duration: i64, buffer: i64, now: Option<i64>) -> (r: bool)
    ensures
        r == match now {
            Some(t) => reset_due(last_reset_at as int, epoch_duration as int, buffer as int, t as int),
            None => false,
        },
{
    match now {
        Some(t) => should_reset(last_reset_at, epoch_duration, buffer, t),
        None => false,
    }
}

/// An eligible round resets when its draw is zero.
pub open spec fn resets_on(eligible: bool, draw: u64) -> bool {
    eligible && draw == 0
}

/// Whether a round resets on a given draw.
pub fn reset_on_draw(eligible: bool, draw: u64) -> (r: bool)
    ensures
        r == resets_on(eligible, draw),
{
    eligible && draw == 0
}

/// Whether this round also resets the epoch: only when the reset is due, and
/// then when a draw from `[0, one_in)` comes out zero, so that eligible miners
/// do not all reset at once.
pub fn decide_reset(eligible: bool, one_in: u64) -> (r: bool)
    requires
        one_in >= 1,
    ensures
        r ==> eligible,
        eligible && one_in == 1 ==> r,
        exists|draw: u64| draw < one_in && r == #[trigger] resets_on(eligible, draw),
{
    let draw = random_below(one_in);
    let r = reset_on_draw(eligible, draw);
    assert(draw < one_in && r == resets_on(eligible, draw));
    r
}

/// Seconds left in the round: `last_hash_at + window - buffer - now`, never
/// below zero and at most `u64::MAX`.
pub open spec fn cutoff_spec(last_hash_at: int, buffer: int, now: int) -> int {
    let left = last_hash_at + ROUND_WINDOW_SECONDS - buffer - now;
    if left < 0 {
        0
    } else if left > u64::MAX {
        u64::MAX as int
    } else {
        left
    }
}

/// How long the search may run before workers start checking for an early
/// exit.
pub fn get_cutoff(last_hash_at: i64, buffer_time: u64, now: i64) -> (r: u64)
    ensures
        r == cutoff_spec(last_hash_at as int, buffer_time as int, now as int),
{
    let left: i128 = last_hash_at as i128 + ROUND_WINDOW_SECONDS as i128 - buffer_time as i128
        - now as i128;
    if left < 0 {
        0
    } else if left > u64::MAX as i128 {
        u64::MAX
    } else {
        left as u64
    }
}

/// As [`get_cutoff`], falling back to the default cutoff when the chain clock
/// cannot be read.
pub fn get_cutoff_at(last_hash_at: i64, buffer_time: u64, now: Option<i64>) -> (r: u64)
    ensures
        r == match now {
            Some(t) => cutoff_spec(last_hash_at as int, buffer_time as int, t as int),
            None => DEFAULT_CUTOFF_SECONDS as int,
        },
{
    match now {
        Some(t) => get_cutoff(last_hash_at, buffer_time, t),
        None => DEFAULT_CUTOFF_SECONDS,
    }
}

/// True when the user asks for more cores than the machine has; the request
/// is then only advisory.
pub fn cores_exceed_available(requested: u64, available: u64) -> (r: bool)
    ensures
        r == (requested > available),
{
    requested > available
}

/// The number of workers: the user's cap when it is set (non-zero) and within
/// what is available, else every available core.
pub open spec fn worker_count_spec(requested: u64, available: u64) -> u64 {
    if 1 <= requested && requested <= available {
        requested
    } else {
        available
    }
}

pub fn worker_count(requested: u64, available: u64) -> (r: u64)
    ensures
        r == worker_count_spec(requested, available),
        available >= 1 ==> 1 <= r <= available,
{
    if 1 <= requested && requested <= available {
        requested
    } else {
        available
    }
}

/// Relies on num_cpus::get: the logical CPUs this process may use, documented
/// to be at least one.
pub assume_specification[ num_cpus::get ]() -> (r: usize)
    ensures
        r >= 1,
;

/// What the machine offers and how many workers a round runs.
#[derive(Clone, Copy, Debug, PartialEq, Eq, Structural)]
pub struct CoreCount {
    pub available: u64,
    pub workers: u64,
    /// The user asked for more cores than are available.
    pub exceeds: bool,
}

/// Counts the available cores and derives the number of workers from the
/// user's request.
pub fn check_num_cores(cores: u64) -> (r: CoreCount)
    ensures
        r.available >= 1,
        r.workers == worker_count_spec(cores, r.available),
        1 <= r.workers <= r.available,
        r.exceeds == (cores > r.available),
{
    let available = num_cpus::get() as u64;
    CoreCount {
        available,
        workers: worker_count(cores, available),
        exceeds: cores_exceed_available(cores, available),
    }
}

/// Difficulty from which a successful round's notification mentions everyone.
pub const PING_DIFFICULTY: u32 = 30;

/// Whether the notification of a round mined at `difficulty` mentions
/// everyone.
pub fn notification_pings(difficulty: u32) -> (r: bool)
    ensures
        r == (difficulty >= PING_DIFFICULTY),
{
    difficulty >= PING_DIFFICULTY
}

/// The compute budget of a round's transaction.
pub fn compute_budget(with_reset: bool) -> (r: u32)
    ensures
        r == if with_reset {
            MINE_COMPUTE_BUDGET + RESET_COMPUTE_BUDGET
        } else {
            MINE_COMPUTE_BUDGET as int
        },
{
    if with_reset {
        MINE_COMPUTE_BUDGET + RESET_COMPUTE_BUDGET
    } else {
        MINE_COMPUTE_BUDGET
    }
}

} // verus!
