//! The playback position clock.
//!
//! Wall-clock instants are microseconds read from a monotonic source chosen by
//! the caller. A speed is given in thousandths (`SPEED_UNIT` is normal speed),
//! so a microsecond of wall-clock time played at speed `s` is exactly `s`
//! nanoseconds of playback. Elapsed playback time is kept in nanoseconds and
//! never needs rounding; a value past `u64::MAX` nanoseconds saturates there.
use vstd::prelude::*;

verus! {

/// The speed, in thousandths, at which one wall-clock second plays one second.
pub const SPEED_UNIT: u32 = 1000;

/// Playback nanoseconds accrued from `since` to `now` (microseconds) at
/// `speed` thousandths; an instant earlier than `since` accrues nothing.
pub open spec fn run_nanos(since: u64, now: u64, speed: u32) -> nat {
    if now >= since {
        ((now - since) * speed) as nat
    } else {
        0
    }
}

/// `x`, saturated at `u64::MAX`.
pub open spec fn capped(x: int) -> u64 {
    if x > u64::MAX {
        u64::MAX
    } else {
        x as u64
    }
}

/// How much playback time has elapsed, independent of wall-clock pauses.
#[derive(Clone, Copy, Debug, PartialEq, Eq, Structural)]
pub enum PositionClock {
    /// Frozen at `elapsed` nanoseconds of playback.
    Stopped { elapsed: u64 },
    /// Running since the instant `since`, with `base` nanoseconds accrued before it.
    Playing { since: u64, base: u64 },
}

impl PositionClock {
    pub open spec fn is_playing(self) -> bool {
        self is Playing
    }

    /// Elapsed playback nanoseconds at the instant `now`.
    pub open spec fn elapsed_at(self, now: u64, speed: u32) -> u64 {
        match self {
            PositionClock::Stopped { elapsed } => elapsed,
            PositionClock::Playing { since, base } => capped(base + run_nanos(since, now, speed)),
        }
    }

    /// The clock after starting to run at `now`.
    pub open spec fn resumed_at(self, now: u64) -> PositionClock {
        match self {
            PositionClock::Stopped { elapsed } => PositionClock::Playing { since: now, base: elapsed },
            PositionClock::Playing { .. } => self,
        }
    }

    /// The clock after freezing at `now`, the time since it started counted at `speed`.
    pub open spec fn paused_at(self, now: u64, speed: u32) -> PositionClock {
        match self {
            PositionClock::Stopped { .. } => self,
            PositionClock::Playing { .. } => PositionClock::Stopped {
                elapsed: self.elapsed_at(now, speed),
            },
        }
    }

    /// The clock after folding the time run so far, at the old `speed`, into its
    /// base and starting again at `now`.
    pub open spec fn restamped_at(self, now: u64, speed: u32) -> PositionClock {
        match self {
            PositionClock::Stopped { .. } => self,
            PositionClock::Playing { .. } => PositionClock::Playing {
                since: now,
                base: self.elapsed_at(now, speed),
            },
        }
    }

    /// The clock set to `pos` at `now`, running or stopped as before.
    pub open spec fn sought_to(self, now: u64, pos: u64) -> PositionClock {
        match self {
            PositionClock::Stopped { .. } => PositionClock::Stopped { elapsed: pos },
            PositionClock::Playing { .. } => PositionClock::Playing { since: now, base: pos },
        }
    }

    /// A stopped clock at zero.
    pub open spec fn new_spec() -> PositionClock {
        PositionClock::Stopped { elapsed: 0 }
    }

    /// A stopped clock at zero.
    pub fn new() -> (r: PositionClock)
        ensures
            r == PositionClock::new_spec(),
    {
        PositionClock::Stopped { elapsed: 0 }
    }

    pub fn is_running(&self) -> (r: bool)
        ensures
            r == self.is_playing(),
    {
        match self {
            PositionClock::Stopped { .. } => false,
            PositionClock::Playing { .. } => true,
        }
    }

    /// Elapsed playback nanoseconds at `now`, counting the current run at `speed`.
    pub fn elapsed(&self, now: u64, speed: u32) -> (r: u64)
        ensures
            r == self.elapsed_at(now, speed),
    {
        match *self {
            PositionClock::Stopped { elapsed } => elapsed,
            PositionClock::Playing { since, base } => {
                let run: u128 = if now >= since {
                    let span: u64 = now - since;
                    assert(span as u128 * speed as u128 <= u64::MAX as u128 * u32::MAX as u128)
                        by (nonlinear_arith)
                        requires
                            span <= u64::MAX,
                            speed <= u32::MAX,
                    ;
                    span as u128 * speed as u128
                } else {
                    0
                };
                let total: u128 = base as u128 + run;
                if total > u64::MAX as u128 {
                    u64::MAX
                } else {
                    total as u64
                }
            },
        }
    }

    /// Starts the clock at `now`; a running clock is left as it is.
    pub fn play(&mut self, now: u64)
        ensures
            *final(self) == old(self).resumed_at(now),
    {
        if let PositionClock::Stopped { elapsed } = *self {
            *self = PositionClock::Playing { since: now, base: elapsed };
        }
    }

    /// Freezes the clock at `now`, counting the current run at `speed`; a
    /// stopped clock is left as it is.
    pub fn stop(&mut self, now: u64, speed: u32)
        ensures
            *final(self) == old(self).paused_at(now, speed),
    {
        if let PositionClock::Playing { .. } = *self {
            let elapsed = self.elapsed(now, speed);
            *self = PositionClock::Stopped { elapsed };
        }
    }

    /// Stops the clock at zero, whatever it held.
    pub fn reset(&mut self)
        ensures
            *final(self) == PositionClock::new_spec(),
    {
        *self = PositionClock::Stopped { elapsed: 0 };
    }

    /// Before a change of speed: folds the current run, counted at the old
    /// `speed`, into the base and restarts the run at `now`.
    pub fn restamp(&mut self, now: u64, speed: u32)
        ensures
            *final(self) == old(self).restamped_at(now, speed),
    {
        if let PositionClock::Playing { .. } = *self {
            let base = self.elapsed(now, speed);
            *self = PositionClock::Playing { since: now, base };
        }
    }

    /// Sets the elapsed time to `pos` at `now`, keeping the clock running or stopped.
    pub fn seek(&mut self, now: u64, pos: u64)
        ensures
            *final(self) == old(self).sought_to(now, pos),
    {
        match *self {
            PositionClock::Stopped { .. } => {
                *self = PositionClock::Stopped { elapsed: pos };
            },
            PositionClock::Playing { .. } => {
                *self = PositionClock::Playing { since: now, base: pos };
            },
        }
    }
}

/// One stretch of playing: started at `start`, paused at `end`, at `speed`.
pub struct PlayInterval {
    pub start: u64,
    pub end: u64,
    pub speed: u32,
}

/// The clock after each interval in turn: resumed at its start, paused at its end.
pub open spec fn run_intervals(c: PositionClock, runs: Seq<PlayInterval>) -> PositionClock
    decreases runs.len(),
{
    if runs.len() == 0 {
        c
    } else {
        run_intervals(
            c.resumed_at(runs[0].start).paused_at(runs[0].end, runs[0].speed),
            runs.drop_first(),
        )
    }
}

/// Playback nanoseconds of all the intervals, each counted at its own speed.
pub open spec fn played_nanos(runs: Seq<PlayInterval>) -> nat
    decreases runs.len(),
{
    if runs.len() == 0 {
        0
    } else {
        run_nanos(runs[0].start, runs[0].end, runs[0].speed) + played_nanos(runs.drop_first())
    }
}

/// Play and pause alone never lose or rescale time: after any sequence of
/// play/pause pairs, a stopped clock reads what it read before plus the length
/// of each playing interval scaled by the speed in force during it.
pub proof fn lemma_play_pause_sums(elapsed: u64, runs: Seq<PlayInterval>)
    ensures
        run_intervals(PositionClock::Stopped { elapsed }, runs) == (PositionClock::Stopped {
            elapsed: capped(elapsed + played_nanos(runs)),
        }),
    decreases runs.len(),
{
    if runs.len() > 0 {
        let first = runs[0];
        let next = capped(elapsed + run_nanos(first.start, first.end, first.speed));
        lemma_play_pause_sums(next, runs.drop_first());
    }
}

/// After a reset the clock reads zero at every instant and speed.
pub proof fn lemma_reset_reads_zero(now: u64, speed: u32)
    ensures
        PositionClock::new_spec().elapsed_at(now, speed) == 0,
{
}

/// A seek is read back exactly at the instant it was made, running or stopped.
pub proof fn lemma_seek_reads_target(c: PositionClock, now: u64, pos: u64, speed: u32)
    ensures
        c.sought_to(now, pos).elapsed_at(now, speed) == pos,
        c.sought_to(now, pos).is_playing() == c.is_playing(),
{
}

/// A change of speed applies only to time after it: restamping at `at` with
/// the old speed keeps the reading at `at`, and from then on only the new
/// speed scales the time that passes.
pub proof fn lemma_restamp_keeps_past(
    c: PositionClock,
    at: u64,
    later: u64,
    old_speed: u32,
    new_speed: u32,
)
    requires
        c.is_playing(),
    ensures
        c.restamped_at(at, old_speed).elapsed_at(at, new_speed) == c.elapsed_at(at, old_speed),
        c.restamped_at(at, old_speed).elapsed_at(later, new_speed) == capped(
            c.elapsed_at(at, old_speed) + run_nanos(at, later, new_speed),
        ),
{
}

/// On a running clock a restamp is a pause and a resume at the same instant:
/// a change of speed splits a playing interval in two, each counted at its
/// own speed.
pub proof fn lemma_restamp_splits_interval(c: PositionClock, at: u64, speed: u32)
    requires
        c.is_playing(),
    ensures
        c.restamped_at(at, speed) == c.paused_at(at, speed).resumed_at(at),
{
}

} // verus!
