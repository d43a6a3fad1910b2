//! The client's decisions: what to do with each packet from the server.
use crate::convert_duration::{nanoseconds_to_duration, Duration};
use crate::packet::Packet;
use vstd::prelude::*;

verus! {

/// What a client does with a packet.
#[derive(Clone, Copy, Debug, PartialEq, Eq, Structural)]
pub enum ClientAction {
    /// Play a tone for `duration` at the frequency and volume whose `f32`
    /// bits are given.
    Play { frequency_bits: u32, duration: Duration, volume_bits: u32 },
    /// Wait this long, then stop.
    TerminateAfter(Duration),
    /// The server sent a packet only clients send.
    ProtocolViolation,
}

/// The action for one packet from the server.
pub fn client_step(packet: &Packet) -> (r: ClientAction)
    ensures
        match *packet {
            Packet::PlayNote { duration, frequency_bits, volume_bits } => r matches ClientAction::Play {
                frequency_bits: f,
                duration: d,
                volume_bits: v,
            } && f == frequency_bits && v == volume_bits && d@ == duration && d.is_normalized(),
            Packet::TerminateAfter(ns) => r matches ClientAction::TerminateAfter(d) && d@ == ns
                && d.is_normalized(),
            Packet::ClientInfo => r == ClientAction::ProtocolViolation,
        },
{
    match *packet {
        Packet::PlayNote { duration, frequency_bits, volume_bits } => ClientAction::Play {
            frequency_bits,
            duration: nanoseconds_to_duration(duration),
            volume_bits,
        },
        Packet::TerminateAfter(ns) => ClientAction::TerminateAfter(nanoseconds_to_duration(ns)),
        Packet::ClientInfo => ClientAction::ProtocolViolation,
    }
}

} // verus!
