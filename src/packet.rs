//! The wire messages between server and clients, and their byte encoding: a
//! tag byte, then the fields in order, little-endian. Floating-point fields
//! travel as the bits of an IEEE-754 `f32`.
use vstd::bytes::{
    lemma_auto_spec_u32_to_from_le_bytes, lemma_auto_spec_u64_to_from_le_bytes,
    spec_u32_from_le_bytes, spec_u32_to_le_bytes, spec_u64_from_le_bytes, spec_u64_to_le_bytes,
    u32_from_le_bytes, u32_to_le_bytes, u64_from_le_bytes, u64_to_le_bytes,
};
use vstd::prelude::*;
use vstd::slice::slice_subrange;

verus! {

/// A message of the protocol.
#[derive(Clone, Copy, Debug, PartialEq, Eq, Structural)]
pub enum Packet {
    /// A client introduces itself.
    ClientInfo,
    /// Play a tone: its length in nanoseconds, its frequency in hertz and its
    /// volume in [0, 1], both as `f32` bits.
    PlayNote { duration: u64, frequency_bits: u32, volume_bits: u32 },
    /// Stop after this many nanoseconds.
    TerminateAfter(u64),
}

/// Why bytes do not start with a packet.
#[derive(Clone, Copy, Debug, PartialEq, Eq, Structural)]
pub enum DecodeError {
    /// The bytes end before the packet does.
    Incomplete,
    /// The tag byte names no packet.
    UnknownTag(u8),
}

pub const TAG_CLIENT_INFO: u8 = 0;

pub const TAG_PLAY_NOTE: u8 = 1;

pub const TAG_TERMINATE_AFTER: u8 = 2;

/// The bytes of a packet.
pub open spec fn encode_spec(p: Packet) -> Seq<u8> {
    match p {
        Packet::ClientInfo => seq![TAG_CLIENT_INFO],
        Packet::PlayNote { duration, frequency_bits, volume_bits } => seq![TAG_PLAY_NOTE]
            + spec_u64_to_le_bytes(duration) + spec_u32_to_le_bytes(frequency_bits)
            + spec_u32_to_le_bytes(volume_bits),
        Packet::TerminateAfter(ns) => seq![TAG_TERMINATE_AFTER] + spec_u64_to_le_bytes(ns),
    }
}

/// The number of bytes after the tag byte in a packet with that tag.
pub open spec fn payload_len_spec(tag: u8) -> Option<nat> {
    if tag == TAG_CLIENT_INFO {
        Some(0)
    } else if tag == TAG_PLAY_NOTE {
        Some(16)
    } else if tag == TAG_TERMINATE_AFTER {
        Some(8)
    } else {
        None
    }
}

/// The packet at the start of `bytes`, with the number of bytes it takes.
pub open spec fn decode_spec(bytes: Seq<u8>) -> Result<(Packet, nat), DecodeError> {
    if bytes.len() == 0 {
        Err(DecodeError::Incomplete)
    } else {
        let tag = bytes[0];
        match payload_len_spec(tag) {
            None => Err(DecodeError::UnknownTag(tag)),
            Some(n) => if bytes.len() < 1 + n {
                Err(DecodeError::Incomplete)
            } else if tag == TAG_CLIENT_INFO {
                Ok((Packet::ClientInfo, 1))
            } else if tag == TAG_PLAY_NOTE {
                Ok(
                    (
                        Packet::PlayNote {
                            duration: spec_u64_from_le_bytes(bytes.subrange(1, 9)),
                            frequency_bits: spec_u32_from_le_bytes(bytes.subrange(9, 13)),
                            volume_bits: spec_u32_from_le_bytes(bytes.subrange(13, 17)),
                        },
                        17,
                    ),
                )
            } else {
                Ok((Packet::TerminateAfter(spec_u64_from_le_bytes(bytes.subrange(1, 9))), 9))
            },
        }
    }
}

/// Decoding what a packet encodes to, followed by anything, gives back the
/// packet, field for field and bit for bit, and the length of its encoding.
pub proof fn lemma_round_trip(p: Packet, rest: Seq<u8>)
    ensures
        decode_spec(encode_spec(p) + rest) == Ok::<(Packet, nat), DecodeError>(
            (p, encode_spec(p).len()),
        ),
{
    lemma_auto_spec_u64_to_from_le_bytes();
    lemma_auto_spec_u32_to_from_le_bytes();
    let bytes = encode_spec(p) + rest;
    match p {
        Packet::ClientInfo => {},
        Packet::PlayNote { duration, frequency_bits, volume_bits } => {
            assert(bytes.subrange(1, 9) =~= spec_u64_to_le_bytes(duration));
            assert(bytes.subrange(9, 13) =~= spec_u32_to_le_bytes(frequency_bits));
            assert(bytes.subrange(13, 17) =~= spec_u32_to_le_bytes(volume_bits));
        },
        Packet::TerminateAfter(ns) => {
            assert(bytes.subrange(1, 9) =~= spec_u64_to_le_bytes(ns));
        },
    }
}

impl Packet {
    /// Whether only a client sends this packet.
    pub fn is_client_message(&self) -> (r: bool)
        ensures
            r == (*self is ClientInfo),
    {
        match self {
            Packet::ClientInfo => true,
            _ => false,
        }
    }

    /// The bytes of the packet.
    pub fn encode(&self) -> (r: Vec<u8>)
        ensures
            r@ == encode_spec(*self),
    {
        let mut out: Vec<u8> = Vec::new();
        match *self {
            Packet::ClientInfo => {
                out.push(TAG_CLIENT_INFO);
            },
            Packet::PlayNote { duration, frequency_bits, volume_bits } => {
                out.push(TAG_PLAY_NOTE);
                let mut d = u64_to_le_bytes(duration);
                let mut f = u32_to_le_bytes(frequency_bits);
                let mut v = u32_to_le_bytes(volume_bits);
                out.append(&mut d);
                out.append(&mut f);
                out.append(&mut v);
            },
            Packet::TerminateAfter(ns) => {
                out.push(TAG_TERMINATE_AFTER);
                let mut n = u64_to_le_bytes(ns);
                out.append(&mut n);
            },
        }
        proof {
            assert(out@ =~= encode_spec(*self));
        }
        out
    }

    /// The packet at the start of `bytes`, with the number of bytes it takes.
    pub fn decode(bytes: &[u8]) -> (r: Result<(Packet, usize), DecodeError>)
        ensures
            match r {
                Ok((p, n)) => decode_spec(bytes@) == Ok::<(Packet, nat), DecodeError>((p, n as nat)),
                Err(e) => decode_spec(bytes@) == Err::<(Packet, nat), DecodeError>(e),
            },
    {
        if bytes.len() == 0 {
            return Err(DecodeError::Incomplete);
        }
        let tag = bytes[0];
        let n = match payload_len(tag) {
            None => {
                return Err(DecodeError::UnknownTag(tag));
            },
            Some(n) => n,
        };
        if bytes.len() < 1 + n {
            return Err(DecodeError::Incomplete);
        }
        if tag == TAG_CLIENT_INFO {
            Ok((Packet::ClientInfo, 1))
        } else if tag == TAG_PLAY_NOTE {
            let duration = u64_from_le_bytes(slice_subrange(bytes, 1, 9));
            let frequency_bits = u32_from_le_bytes(slice_subrange(bytes, 9, 13));
            let volume_bits = u32_from_le_bytes(slice_subrange(bytes, 13, 17));
            Ok((Packet::PlayNote { duration, frequency_bits, volume_bits }, 17))
        } else {
            let ns = u64_from_le_bytes(slice_subrange(bytes, 1, 9));
            Ok((Packet::TerminateAfter(ns), 9))
        }
    }
}

/// The number of bytes after the tag byte in a packet with that tag, or
/// `None` where the tag names no packet.
pub fn payload_len(tag: u8) -> (r: Option<usize>)
    ensures
        match r {
            Some(n) => payload_len_spec(tag) == Some(n as nat),
            None => payload_len_spec(tag) is None,
        },
{
    if tag == TAG_CLIENT_INFO {
        Some(0)
    } else if tag == TAG_PLAY_NOTE {
        Some(16)
    } else if tag == TAG_TERMINATE_AFTER {
        Some(8)
    } else {
        None
    }
}

} // verus!
