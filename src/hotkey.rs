//! Turning polled media-key states into discrete key events.
//!
//! The keys are polled in a fixed order (previous, play/pause, next). Of the
//! keys held down the first in that order counts; an event is raised when it
//! differs from the key counted at the previous poll, so a key held down
//! raises one event, not one per poll.
use vstd::prelude::*;

verus! {

/// The index of the first key held down, if any.
pub open spec fn first_held(held: Seq<bool>) -> Option<usize> {
    if exists|i: int| 0 <= i < held.len() && held[i] {
        let i = choose|i: int|
            0 <= i < held.len() && held[i] && forall|j: int| 0 <= j < i ==> !held[j];
        Some(i as usize)
    } else {
        None
    }
}

/// The index of the first key held down, if any.
pub fn first_pressed(held: &Vec<bool>) -> (r: Option<usize>)
    ensures
        match r {
            Some(i) => i < held@.len() && held@[i as int] && forall|j: int|
                0 <= j < i ==> !held@[j],
            None => forall|j: int| 0 <= j < held@.len() ==> !held@[j],
        },
{
    let mut i: usize = 0;
    while i < held.len()
        invariant
            i <= held@.len(),
            forall|j: int| 0 <= j < i ==> !held@[j],
        decreases held@.len() - i,
    {
        if held[i] {
            return Some(i);
        }
        i = i + 1;
    }
    None
}

/// Remembers which key counted at the last poll.
#[derive(Clone, Copy, Debug, PartialEq, Eq, Structural)]
pub struct KeyLatch {
    pub held: Option<usize>,
}

impl KeyLatch {
    pub fn new() -> (r: KeyLatch)
        ensures
            r.held is None,
    {
        KeyLatch { held: None }
    }

    /// Takes the key counted at this poll and returns the event to raise, if any.
    pub fn step(&mut self, pressed: Option<usize>) -> (r: Option<usize>)
        ensures
            final(self).held == pressed,
            r == (if pressed is Some && pressed != old(self).held {
                pressed
            } else {
                None::<usize>
            }),
    {
        let fire = match (pressed, self.held) {
            (Some(k), Some(h)) => k != h,
            (Some(_), None) => true,
            (None, _) => false,
        };
        self.held = pressed;
        if fire {
            pressed
        } else {
            None
        }
    }

    /// Polls once: `held` says for each key, in order, whether it is down.
    pub fn poll(&mut self, held: &Vec<bool>) -> (r: Option<usize>)
        ensures
            final(self).held == first_held(held@),
            r == (if first_held(held@) is Some && first_held(held@) != old(self).held {
                first_held(held@)
            } else {
                None::<usize>
            }),
    {
        let pressed = first_pressed(held);
        proof {
            match pressed {
                Some(i) => {
                    assert(0 <= i < held@.len() && held@[i as int]);
                    let c = choose|c: int|
                        0 <= c < held@.len() && held@[c] && forall|j: int| 0 <= j < c ==> !held@[j];
                    assert(c == i as int) by {
                        if c < i {
                            assert(!held@[c]);
                        } else if c > i {
                            assert(!held@[i as int]);
                        }
                    }
                },
                None => {},
            }
        }
        self.step(pressed)
    }
}

} // verus!
