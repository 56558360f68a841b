//! Verified core of a MIDI sequencer: tick/tempo conversion, note-off
//! resolution, event-stream building, and a real-time player state machine.

pub mod duration;
pub mod midi;
pub mod monitor;
pub mod notes;
pub mod player;
pub mod sequence;
pub mod theory;
pub mod timing;
