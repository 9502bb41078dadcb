//! Wall-clock time and randomness, the two inputs the library takes from the machine.

use vstd::prelude::*;

verus! {

/// `SystemTime::now().duration_since(UNIX_EPOCH)`, as whole seconds and the nanoseconds past
/// them; `None` when the clock reads before the epoch. What it returns depends on the machine's
/// clock and is not stated, beyond the documented bound on the nanosecond part.
#[verifier::external_body]
pub(crate) fn since_epoch() -> (r: Option<(u64, u32)>)
    ensures
        r matches Some((_, n)) ==> n < 1_000_000_000,
{
    match std::time::SystemTime::now().duration_since(std::time::UNIX_EPOCH) {
        Ok(d) => Some((d.as_secs(), d.subsec_nanos())),
        Err(_) => None,
    }
}

/// `rand::random::<u64>()`: a value from the thread-local generator. Nothing is stated of it.
#[verifier::external_body]
pub(crate) fn random_u64() -> u64 {
    rand::random::<u64>()
}

/// Nanoseconds since the epoch of a clock reading, truncated to 64 bits (0 before the epoch).
pub open spec fn reading_nanos(r: Option<(u64, u32)>) -> u64 {
    match r {
        Some((s, n)) => ((s as int) * 1_000_000_000 + (n as int)) as u64,
        None => 0,
    }
}

/// Seconds since the epoch of a clock reading (0 before the epoch).
pub open spec fn reading_secs(r: Option<(u64, u32)>) -> u64 {
    match r {
        Some((s, _)) => s,
        None => 0,
    }
}

/// Unix seconds of a clock reading as stored in an `i64` column: the seconds since the epoch
/// (0 before it), wrapped into `i64` as `as` does.
pub open spec fn reading_secs_i64(r: Option<(u64, u32)>) -> i64 {
    reading_secs(r) as i64
}

/// Milliseconds since the epoch of a clock reading, as `i64` (0 before the epoch).
pub open spec fn reading_millis(r: Option<(u64, u32)>) -> i64 {
    match r {
        Some((s, n)) => ((s as int) * 1000 + (n as int) / 1_000_000) as i64,
        None => 0,
    }
}

/// Nanoseconds since the epoch of `reading`, truncated to 64 bits.
pub fn nanos_of(reading: Option<(u64, u32)>) -> (r: u64)
    ensures
        r == reading_nanos(reading),
{
    match reading {
        Some((s, n)) => {
            let wide: u128 = (s as u128) * 1_000_000_000u128 + (n as u128);
            wide as u64
        },
        None => 0,
    }
}

/// Seconds since the epoch of `reading`.
pub fn secs_of(reading: Option<(u64, u32)>) -> (r: u64)
    ensures
        r == reading_secs(reading),
{
    match reading {
        Some((s, _)) => s,
        None => 0,
    }
}

/// Milliseconds since the epoch of `reading`, as `i64`.
pub fn millis_of(reading: Option<(u64, u32)>) -> (r: i64)
    ensures
        r == reading_millis(reading),
{
    match reading {
        Some((s, n)) => {
            let wide: u128 = (s as u128) * 1000u128 + ((n / 1_000_000) as u128);
            wide as i64
        },
        None => 0,
    }
}

/// Unix seconds of `reading` as an `i64`.
pub fn secs_i64_of(reading: Option<(u64, u32)>) -> (r: i64)
    ensures
        r == reading_secs_i64(reading),
{
    let s = secs_of(reading);
    s as i64
}

} // verus!
