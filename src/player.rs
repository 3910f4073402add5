//! The control side of a player.
//!
//! The audio device, its sink and the decoded source live on a worker that the
//! embedding runs; the two sides share no memory. The `Player` keeps the
//! position clock and the last speed and volume it was given, and queues for
//! the worker, in the order they must be applied, the commands that each
//! operation calls for. Where an operation needs the worker's answer (whether
//! the source loaded, whether the sink has run dry, whether a seek was taken),
//! the caller runs the round trip and hands the answer in as a plain value.
use vstd::prelude::*;
use crate::clock::{PositionClock, SPEED_UNIT};

verus! {

/// How long, in milliseconds, to wait for the worker to answer the emptiness
/// probe before counting the sink as empty.
pub const EMPTY_PROBE_WAIT_MILLIS: u64 = 128;

/// How long, in milliseconds, to wait for a new worker to report whether its
/// source loaded before counting the load as failed.
pub const LOAD_WAIT_MILLIS: u64 = 10000;

/// How long, in milliseconds, to wait for the worker to say whether a seek
/// was taken before counting it as refused.
pub const SEEK_WAIT_MILLIS: u64 = 1000;

/// A message from the control side to the worker.
#[derive(Clone, Copy, Debug, PartialEq, Eq, Structural)]
pub enum Command {
    Play,
    Pause,
    /// Drop the sink and end the worker.
    Stop,
    /// New speed, in thousandths.
    SetSpeed { speed: u32 },
    /// New volume, in thousandths of full volume.
    SetVolume { level: u32 },
    /// Move the sink to `pos` nanoseconds and report whether it could.
    Seek { pos: u64 },
    /// Report whether the sink has nothing left to play.
    Empty,
}

impl Command {
    /// Whether the worker ends once it has taken this command.
    pub fn ends_worker(&self) -> (r: bool)
        ensures
            r == (*self is Stop),
    {
        match self {
            Command::Stop => true,
            _ => false,
        }
    }

    /// Whether the worker answers this command on the status channel.
    pub fn awaits_reply(&self) -> (r: bool)
        ensures
            r == (*self is Seek || *self is Empty),
    {
        match self {
            Command::Seek { .. } => true,
            Command::Empty => true,
            _ => false,
        }
    }
}

/// What a `Player` holds, as plain values.
pub struct PlayerView {
    pub speed: u32,
    pub volume: u32,
    pub clock: PositionClock,
    /// Whether a worker with a loaded source is there to take commands.
    pub active: bool,
    /// Commands not yet handed to the worker, oldest first.
    pub outbox: Seq<Command>,
}

impl PlayerView {
    /// The clock never runs while no worker plays.
    pub open spec fn wf(self) -> bool {
        !self.active ==> !self.clock.is_playing()
    }
}

/// `x` brought into the range of `u64`.
pub open spec fn clamp_nanos(x: int) -> u64 {
    if x < 0 {
        0
    } else if x > u64::MAX {
        u64::MAX
    } else {
        x as u64
    }
}

pub struct Player {
    speed: u32,
    volume: u32,
    clock: PositionClock,
    active: bool,
    outbox: Vec<Command>,
}

impl View for Player {
    type V = PlayerView;

    closed spec fn view(&self) -> PlayerView {
        PlayerView {
            speed: self.speed,
            volume: self.volume,
            clock: self.clock,
            active: self.active,
            outbox: self.outbox@,
        }
    }
}

impl Player {
    /// A player with nothing loaded, at normal speed and zero volume.
    pub fn new() -> (r: Player)
        ensures
            r@ == (PlayerView {
                speed: SPEED_UNIT,
                volume: 0,
                clock: PositionClock::new_spec(),
                active: false,
                outbox: Seq::empty(),
            }),
            r@.wf(),
    {
        Player {
            speed: SPEED_UNIT,
            volume: 0,
            clock: PositionClock::new(),
            active: false,
            outbox: Vec::new(),
        }
    }

    /// The speed, in thousandths, that a new sink is to start with.
    pub fn speed(&self) -> (r: u32)
        ensures
            r == self@.speed,
    {
        self.speed
    }

    /// The volume, in thousandths, that a new sink is to start with.
    pub fn volume(&self) -> (r: u32)
        ensures
            r == self@.volume,
    {
        self.volume
    }

    /// Whether a worker is there to take commands.
    pub fn has_worker(&self) -> (r: bool)
        ensures
            r == self@.active,
    {
        self.active
    }

    /// Hands over the queued commands, oldest first, and empties the queue.
    pub fn take_commands(&mut self) -> (r: Vec<Command>)
        ensures
            r@ == old(self)@.outbox,
            final(self)@ == (PlayerView { outbox: Seq::empty(), ..old(self)@ }),
    {
        let mut taken: Vec<Command> = Vec::new();
        core::mem::swap(&mut taken, &mut self.outbox);
        taken
    }

    /// Completes a load once the previous worker has been retired and a new one
    /// has answered, `loaded` telling whether it opened and decoded the source.
    /// Commands still queued for the old worker are dropped. On success the
    /// clock restarts at zero, running at `now` if `autoplay`, and otherwise
    /// the new sink is told to pause; on failure nothing is left loaded.
    pub fn load(&mut self, now: u64, loaded: bool, autoplay: bool) -> (r: bool)
        ensures
            r == loaded,
            final(self)@ == (PlayerView {
                clock: if loaded && autoplay {
                    PositionClock::Playing { since: now, base: 0 }
                } else {
                    PositionClock::new_spec()
                },
                active: loaded,
                outbox: if loaded && !autoplay {
                    seq![Command::Pause]
                } else {
                    Seq::empty()
                },
                ..old(self)@
            }),
            final(self)@.wf(),
    {
        self.outbox = Vec::new();
        self.clock.reset();
        self.active = loaded;
        if loaded {
            if autoplay {
                self.clock.play(now);
            } else {
                self.outbox.push(Command::Pause);
            }
        }
        loaded
    }

    /// Resumes playing at `now`, `empty` being what the emptiness probe
    /// answered. Succeeds only when a worker is there and still has something
    /// to play; otherwise nothing changes.
    pub fn play(&mut self, now: u64, empty: bool) -> (r: bool)
        requires
            old(self)@.wf(),
        ensures
            r == (old(self)@.active && !empty),
            r ==> final(self)@ == (PlayerView {
                clock: old(self)@.clock.resumed_at(now),
                outbox: old(self)@.outbox.push(Command::Play),
                ..old(self)@
            }),
            !r ==> final(self)@ == old(self)@,
            final(self)@.wf(),
    {
        if self.active && !empty {
            self.outbox.push(Command::Play);
            self.clock.play(now);
            true
        } else {
            false
        }
    }

    /// Pauses at `now`, freezing the clock at the current speed. Does nothing
    /// while no worker is there.
    pub fn pause(&mut self, now: u64)
        requires
            old(self)@.wf(),
        ensures
            old(self)@.active ==> final(self)@ == (PlayerView {
                clock: old(self)@.clock.paused_at(now, old(self)@.speed),
                outbox: old(self)@.outbox.push(Command::Pause),
                ..old(self)@
            }),
            !old(self)@.active ==> final(self)@ == old(self)@,
            final(self)@.wf(),
    {
        if self.active {
            self.outbox.push(Command::Pause);
            self.clock.stop(now, self.speed);
        }
    }

    /// Ends the session: the worker is told to stop and is no longer counted
    /// on, and the clock goes back to zero.
    pub fn stop(&mut self)
        ensures
            final(self)@ == (PlayerView {
                clock: PositionClock::new_spec(),
                active: false,
                outbox: if old(self)@.active {
                    old(self)@.outbox.push(Command::Stop)
                } else {
                    old(self)@.outbox
                },
                ..old(self)@
            }),
            final(self)@.wf(),
    {
        if self.active {
            self.outbox.push(Command::Stop);
        }
        self.active = false;
        self.clock.reset();
    }

    /// Marks the worker as gone (it ended, or its channel closed) at `now`:
    /// the clock freezes where it was and queued commands are dropped.
    pub fn worker_lost(&mut self, now: u64)
        requires
            old(self)@.wf(),
        ensures
            final(self)@ == (PlayerView {
                clock: old(self)@.clock.paused_at(now, old(self)@.speed),
                active: false,
                outbox: Seq::empty(),
                ..old(self)@
            }),
            final(self)@.wf(),
    {
        self.clock.stop(now, self.speed);
        self.active = false;
        self.outbox = Vec::new();
    }

    /// Changes the speed at `now`. Time already played keeps the old speed:
    /// a running clock is restamped with it before the new one is stored.
    pub fn set_speed(&mut self, now: u64, speed: u32)
        requires
            old(self)@.wf(),
            speed > 0,
        ensures
            final(self)@ == (PlayerView {
                speed,
                clock: old(self)@.clock.restamped_at(now, old(self)@.speed),
                outbox: if old(self)@.active {
                    old(self)@.outbox.push(Command::SetSpeed { speed })
                } else {
                    old(self)@.outbox
                },
                ..old(self)@
            }),
            final(self)@.wf(),
    {
        if self.active {
            self.clock.restamp(now, self.speed);
            self.outbox.push(Command::SetSpeed { speed });
        }
        self.speed = speed;
    }

    /// Changes the volume, passing it on to a worker if one is there.
    pub fn set_volume(&mut self, level: u32)
        requires
            old(self)@.wf(),
        ensures
            final(self)@ == (PlayerView {
                volume: level,
                outbox: if old(self)@.active {
                    old(self)@.outbox.push(Command::SetVolume { level })
                } else {
                    old(self)@.outbox
                },
                ..old(self)@
            }),
            final(self)@.wf(),
    {
        if self.active {
            self.outbox.push(Command::SetVolume { level });
        }
        self.volume = level;
    }

    /// Queues the emptiness probe when a worker is there to answer it, and
    /// says whether an answer is to be awaited.
    pub fn probe_empty(&mut self) -> (r: bool)
        ensures
            r == old(self)@.active,
            final(self)@ == (PlayerView {
                outbox: if r {
                    old(self)@.outbox.push(Command::Empty)
                } else {
                    old(self)@.outbox
                },
                ..old(self)@
            }),
    {
        if self.active {
            self.outbox.push(Command::Empty);
        }
        self.active
    }

    /// Whether there is nothing to play, given the worker's answer to the
    /// probe, or `None` where none came in time. Only a worker that is there
    /// and answered "not empty" makes this false.
    pub fn empty(&self, reply: Option<bool>) -> (r: bool)
        ensures
            r == !(self@.active && reply == Some(false)),
    {
        match reply {
            Some(e) => !self.active || e,
            None => true,
        }
    }

    /// Elapsed playback nanoseconds at `now`, at the current speed.
    pub fn position(&self, now: u64) -> (r: u64)
        ensures
            r == self@.clock.elapsed_at(now, self@.speed),
    {
        self.clock.elapsed(now, self.speed)
    }

    /// Starts a seek by `offset` nanoseconds from the position at `now`. The
    /// target is held to `0..=u64::MAX`; a target before the start of the
    /// track is the start. The worker is asked to move there, and the target
    /// is returned to be handed to `seek_done` with its answer. Without a
    /// worker nothing is asked and `None` comes back.
    pub fn seek(&mut self, now: u64, offset: i64) -> (r: Option<u64>)
        ensures
            old(self)@.active ==> r == Some(
                clamp_nanos(old(self)@.clock.elapsed_at(now, old(self)@.speed) + offset),
            ),
            !old(self)@.active ==> r is None,
            final(self)@ == (PlayerView {
                outbox: match r {
                    Some(pos) => old(self)@.outbox.push(Command::Seek { pos }),
                    None => old(self)@.outbox,
                },
                ..old(self)@
            }),
    {
        if !self.active {
            return None;
        }
        let here: u64 = self.position(now);
        let pos: u64 = if offset < 0 {
            let back: u64 = if offset == i64::MIN {
                (i64::MAX as u64) + 1
            } else {
                (-offset) as u64
            };
            if back > here {
                0
            } else {
                here - back
            }
        } else {
            let ahead: u64 = offset as u64;
            if ahead > u64::MAX - here {
                u64::MAX
            } else {
                here + ahead
            }
        };
        self.outbox.push(Command::Seek { pos });
        Some(pos)
    }

    /// Completes a seek to `target` at `now`, `accepted` being the worker's
    /// answer. Only an accepted seek moves the clock; it keeps running or
    /// stopped as before.
    pub fn seek_done(&mut self, now: u64, target: u64, accepted: bool) -> (r: bool)
        requires
            old(self)@.wf(),
        ensures
            r == (old(self)@.active && accepted),
            r ==> final(self)@ == (PlayerView {
                clock: old(self)@.clock.sought_to(now, target),
                ..old(self)@
            }),
            !r ==> final(self)@ == old(self)@,
            final(self)@.wf(),
    {
        if self.active && accepted {
            self.clock.seek(now, target);
            true
        } else {
            false
        }
    }
}

} // verus!
