//! A distributed MIDI player: a server turns a MIDI file into a time-ordered
//! schedule of notes and hands each note to the clients that a policy picks.

pub mod convert_duration;
pub mod event_queue;
pub mod midi;
pub mod packet;
pub mod connection;
pub mod policies;
pub mod server;
pub mod client;
