//! The age policy: the cutoff instant of a run and the inclusion rule for
//! one entry. Instants are nanoseconds since the Unix epoch.
use vstd::prelude::*;

verus! {

/// Seconds in one day.
pub const SECONDS_PER_DAY: u128 = 86400;

/// Nanoseconds in one second.
pub const NANOS_PER_SECOND: u128 = 1_000_000_000;

/// Length of `age_days` days, in nanoseconds.
pub open spec fn age_span(age_days: nat) -> int {
    age_days as int * 86400 * 1_000_000_000
}

/// The cutoff instant `now - age_days * 86400 s`, when it is not before the epoch.
pub open spec fn cutoff_spec(now: nat, age_days: nat) -> Option<int> {
    if age_span(age_days) <= now {
        Some(now - age_span(age_days))
    } else {
        None
    }
}

/// The timestamp that decides an entry's age: its creation time, or its
/// modification time where the creation time is unavailable.
pub open spec fn chosen_timestamp(created: Option<u128>, modified: Option<u128>) -> Option<u128> {
    match created {
        Some(c) => Some(c),
        None => modified,
    }
}

/// Computes the cutoff instant of a run: `now` minus `age_days` days.
/// Returns `None` where that instant would lie before the Unix epoch.
pub fn cutoff_instant(now: u128, age_days: u64) -> (r: Option<u128>)
    ensures
        match cutoff_spec(now as nat, age_days as nat) {
            Some(c) => r == Some(c as u128),
            None => r is None,
        },
{
    assert(age_days as int * 86400 * 1_000_000_000 <= 0xffff_ffff_ffff_ffff * 86400 * 1_000_000_000)
        by (nonlinear_arith);
    let span: u128 = age_days as u128 * SECONDS_PER_DAY * NANOS_PER_SECOND;
    if span <= now {
        Some(now - span)
    } else {
        None
    }
}

/// Picks the creation time, falling back to the modification time.
pub fn entry_timestamp(created: Option<u128>, modified: Option<u128>) -> (r: Option<u128>)
    ensures
        r == chosen_timestamp(created, modified),
        created is Some ==> r == created,
        created is None ==> r == modified,
{
    match created {
        Some(c) => Some(c),
        None => modified,
    }
}

/// Inclusion rule: an entry is old enough when its timestamp is at or
/// before the cutoff.
pub fn is_old_enough(timestamp: u128, cutoff: u128) -> (r: bool)
    ensures
        r == (timestamp <= cutoff),
{
    timestamp <= cutoff
}

} // verus!
