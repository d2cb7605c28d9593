//! World time as the effect pipeline reads it, and the time window of an
//! effect.

use vstd::prelude::*;

verus! {

/// The time that has passed in the world. It only ever grows; the pipeline
/// reads it and never advances it.
#[derive(Clone, Copy, Debug, PartialEq, Eq, Structural)]
pub struct WorldTime {
    pub passed: u64,
}

/// How long an effect lasts.
#[derive(Clone, Copy, Debug, PartialEq, Eq, Structural)]
pub enum EffectDuration {
    /// The effect never ends.
    Permanent,
    /// The effect ends once more than `duration` has passed since `start`.
    Seconds { start: u64, duration: u64 },
}

impl EffectDuration {
    /// Whether the window has passed at `now`.
    pub open spec fn expired_at(self, now: u64) -> bool {
        match self {
            EffectDuration::Permanent => false,
            EffectDuration::Seconds { start, duration } => start + duration < now,
        }
    }

    /// Whether the window has passed at `time`. A window whose end is beyond
    /// every time has not.
    pub fn expired(&self, time: &WorldTime) -> (expired: bool)
        ensures
            expired == self.expired_at(time.passed),
    {
        match self {
            EffectDuration::Permanent => false,
            EffectDuration::Seconds { start, duration } => match start.checked_add(*duration) {
                Some(end) => end < time.passed,
                None => false,
            },
        }
    }
}

/// An effect that has expired stays expired as time goes on, and a
/// permanent effect never expires.
pub proof fn lemma_expiry_is_final(duration: EffectDuration, earlier: u64, later: u64)
    requires
        earlier <= later,
    ensures
        duration.expired_at(earlier) ==> duration.expired_at(later),
        duration is Permanent ==> !duration.expired_at(later),
{
}

} // verus!
