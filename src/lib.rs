//! Playback control core: a position clock that turns wall-clock instants
//! into elapsed playback time, the control side of a player whose audio
//! device lives on a worker it talks to by commands, what is shown in the
//! system's media session and the lines that carry it to a helper process,
//! and the latch that turns polled media keys into events.
pub mod bridge;
pub mod clock;
pub mod hotkey;
pub mod media;
pub mod player;
