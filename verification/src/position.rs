//! Which position ticks from the audio engine are worth forwarding to the UI: about four a
//! second during steady playback, plus every discontinuity (a seek, a track change) at once so
//! the slider never lags a jump. Positions and times are in milliseconds.

use vstd::prelude::*;

verus! {

/// Steady ticks pass at most this often.
pub const CADENCE_MS: u64 = 250;

/// Slack over the elapsed time before a move counts as a jump.
pub const JUMP_SLACK_MS: u64 = 750;

/// The throttle's memory: when it last let a tick through, and at which position (none yet).
#[derive(Debug, Clone, Copy)]
pub struct PositionThrottle {
    pub last_emit_ms: u64,
    pub last_pos_ms: Option<i64>,
}

/// A move that normal playback could not have made since the last emitted tick.
pub open spec fn jumped(last_pos: Option<i64>, pos: i64, dt: int) -> bool {
    match last_pos {
        None => true,
        Some(l) => {
            let d = pos - l;
            (if d < 0 {
                -d
            } else {
                d
            }) > dt + JUMP_SLACK_MS
        },
    }
}

/// Time since the last emitted tick, or 0 when the clock reads earlier.
pub open spec fn since_emit(t: PositionThrottle, now_ms: u64) -> int {
    if now_ms >= t.last_emit_ms {
        now_ms - t.last_emit_ms
    } else {
        0
    }
}

/// Whether the tick at `pos_ms`, `now_ms` passes: after a jump, or once the cadence has passed.
pub open spec fn emits(t: PositionThrottle, pos_ms: i64, now_ms: u64) -> bool {
    jumped(t.last_pos_ms, pos_ms, since_emit(t, now_ms)) || since_emit(t, now_ms) >= CADENCE_MS
}

/// The three promises of the throttle: the first tick ever passes; a tick that moved further
/// than playback could since the last passed one (a seek, a new track) passes at once; and
/// during steady playback no tick passes sooner than the cadence after the last one.
pub proof fn law_throttle(t: PositionThrottle, pos_ms: i64, now_ms: u64)
    ensures
        t.last_pos_ms is None ==> emits(t, pos_ms, now_ms),
        jumped(t.last_pos_ms, pos_ms, since_emit(t, now_ms)) ==> emits(t, pos_ms, now_ms),
        !jumped(t.last_pos_ms, pos_ms, since_emit(t, now_ms)) && since_emit(t, now_ms)
            < CADENCE_MS ==> !emits(t, pos_ms, now_ms),
{
}

impl PositionThrottle {
    /// A fresh throttle at `now_ms`: its first tick always passes.
    pub fn new(now_ms: u64) -> (r: PositionThrottle)
        ensures
            r.last_pos_ms is None,
            r.last_emit_ms == if now_ms >= 1000 {
                (now_ms - 1000) as u64
            } else {
                0
            },
    {
        PositionThrottle {
            last_emit_ms: if now_ms >= 1000 {
                now_ms - 1000
            } else {
                0
            },
            last_pos_ms: None,
        }
    }

    /// Whether the tick at position `pos_ms`, time `now_ms`, goes to the UI: after a jump, or
    /// once the cadence has passed since the last one that did. A tick that passes is
    /// remembered.
    pub fn should_emit(&mut self, pos_ms: i64, now_ms: u64) -> (r: bool)
        ensures
            r == emits(*old(self), pos_ms, now_ms),
            r ==> final(self).last_emit_ms == now_ms && final(self).last_pos_ms == Some(pos_ms),
            !r ==> *final(self) == *old(self),
    {
        let dt: u64 = if now_ms >= self.last_emit_ms {
            now_ms - self.last_emit_ms
        } else {
            0
        };
        let jump = match self.last_pos_ms {
            None => true,
            Some(l) => {
                let d: i128 = pos_ms as i128 - l as i128;
                let ad: i128 = if d < 0 {
                    -d
                } else {
                    d
                };
                ad > dt as i128 + JUMP_SLACK_MS as i128
            },
        };
        if jump || dt >= CADENCE_MS {
            self.last_emit_ms = now_ms;
            self.last_pos_ms = Some(pos_ms);
            return true;
        }
        false
    }
}

} // verus!
