//! Telling a short press of a key from a long one, sample by sample.
//!
//! The caller reads the key, hands the reading to `step`, waits as long as it
//! is told, and reads again, until `step` gives a verdict.
use vstd::prelude::*;
use crate::interaction::PressKind;

verus! {

/// How long a key must be held for a long press, in milliseconds.
pub const LONG_PRESS_MS: u32 = 500;

/// How long a key must stay down before a press counts, in milliseconds.
pub const DEBOUNCE_MS: u32 = 20;

/// How long to wait between two readings of a held key, in milliseconds.
pub const POLL_INTERVAL_MS: u32 = 10;

/// Where the detection of a press stands.
#[derive(Clone, Copy, Debug, PartialEq, Eq, Structural)]
pub enum Phase {
    /// Nothing was read yet.
    First,
    /// The key is not held over from a long press that was reported.
    Second,
    /// The key was down, and the settling time has passed.
    Settled,
    /// The key has been down for `ms` milliseconds since it settled.
    Held { ms: u32 },
}

/// What follows from one reading of the key.
#[derive(Clone, Copy, Debug, PartialEq, Eq, Structural)]
pub enum Verdict {
    /// The detection is over, with this result.
    Done { press: Option<PressKind> },
    /// Wait for `wait_ms` milliseconds and read again in phase `next`.
    Again { wait_ms: u32, next: Phase },
}

/// What follows when the key reads `low` (down) in `phase`, `latched` saying
/// whether a long press was reported and the key not seen up since; and the
/// new value of `latched`.
///
/// A key that is still down after a reported long press gives no press.
/// A key that is up gives none and ends the latch. A key that is down must
/// still be down after the settling time. From then on it is read at the poll
/// interval: up means a short press, down for the whole long-press time means
/// a long press, which sets the latch.
pub open spec fn spec_step(phase: Phase, latched: bool, low: bool) -> (Verdict, bool) {
    match phase {
        Phase::First => if latched && low {
            (Verdict::Done { press: None }, latched)
        } else {
            (Verdict::Again { wait_ms: 0, next: Phase::Second }, latched)
        },
        Phase::Second => if low {
            (Verdict::Again { wait_ms: DEBOUNCE_MS, next: Phase::Settled }, latched)
        } else {
            (Verdict::Done { press: None }, false)
        },
        Phase::Settled => if low {
            (Verdict::Again { wait_ms: 0, next: Phase::Held { ms: 0 } }, latched)
        } else {
            (Verdict::Done { press: None }, latched)
        },
        Phase::Held { ms } => if !low {
            (Verdict::Done { press: Some(PressKind::Short) }, latched)
        } else if ms >= LONG_PRESS_MS {
            (Verdict::Done { press: Some(PressKind::Long) }, true)
        } else {
            (
                Verdict::Again {
                    wait_ms: POLL_INTERVAL_MS,
                    next: Phase::Held { ms: (ms + POLL_INTERVAL_MS) as u32 },
                },
                latched,
            )
        },
    }
}

/// Takes one reading of the key into account.
pub fn step(phase: Phase, latched: &mut bool, low: bool) -> (verdict: Verdict)
    ensures
        (verdict, *final(latched)) == spec_step(phase, *old(latched), low),
{
    match phase {
        Phase::First => {
            if *latched && low {
                Verdict::Done { press: None }
            } else {
                Verdict::Again { wait_ms: 0, next: Phase::Second }
            }
        },
        Phase::Second => {
            if low {
                Verdict::Again { wait_ms: DEBOUNCE_MS, next: Phase::Settled }
            } else {
                *latched = false;
                Verdict::Done { press: None }
            }
        },
        Phase::Settled => {
            if low {
                Verdict::Again { wait_ms: 0, next: Phase::Held { ms: 0 } }
            } else {
                Verdict::Done { press: None }
            }
        },
        Phase::Held { ms } => {
            if !low {
                Verdict::Done { press: Some(PressKind::Short) }
            } else if ms >= LONG_PRESS_MS {
                *latched = true;
                Verdict::Done { press: Some(PressKind::Long) }
            } else {
                Verdict::Again {
                    wait_ms: POLL_INTERVAL_MS,
                    next: Phase::Held { ms: ms + POLL_INTERVAL_MS },
                }
            }
        },
    }
}

/// How many readings are still to come, at most, from `phase` on.
pub open spec fn readings_left(phase: Phase) -> int {
    match phase {
        Phase::First => 56,
        Phase::Second => 55,
        Phase::Settled => 54,
        Phase::Held { ms } => if ms >= LONG_PRESS_MS {
            1
        } else {
            (LONG_PRESS_MS - ms + 9) / 10 + 1
        },
    }
}

/// The detection ends: each reading that does not end it leaves fewer
/// readings to come.
pub proof fn law_detection_ends(phase: Phase, latched: bool, low: bool)
    ensures
        readings_left(phase) >= 1,
        spec_step(phase, latched, low).0 matches Verdict::Again { wait_ms, next }
            ==> readings_left(next) < readings_left(phase),
{
}

} // verus!
