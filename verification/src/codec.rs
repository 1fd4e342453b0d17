//! The wire codec. The canonical wire format is the binary one: a UDP
//! datagram of exactly twelve bytes, three big-endian 32-bit IEEE-754 floats,
//! read as Euler angles (radians) in Y, X, Z order and negated. (A textual
//! `"x,y,z"` form existed as an alternate profile; the binary form is the one
//! supported here, and the two are never mixed.)
//!
//! Decoding stops at the angle bit patterns: composing them into a quaternion
//! is floating-point work (sines and cosines of the angles) that this library
//! cannot hold, so the caller composes the returned [`EulerBits`] with the
//! intrinsic YXZ rotation order and feeds the result back as a [`QuatBits`].

use vstd::prelude::*;
use crate::quat::spec_neg_f32_bits;
use crate::quat::neg_f32_bits;

verus! {

/// Length of a well-formed binary orientation packet, in bytes.
pub const PACKET_LEN: usize = 12;

/// Why a packet was rejected.
#[derive(Clone, Copy, Debug, PartialEq, Eq, Structural)]
pub enum DecodeError {
    /// The buffer is not exactly `PACKET_LEN` bytes.
    MalformedPacket,
}

/// The three Euler angles of one packet, already negated, each the raw bit
/// pattern of an `f32` in radians: yaw about Y, then pitch about X, then roll
/// about Z, to be composed in that intrinsic order.
#[derive(Clone, Copy, Debug, PartialEq, Eq, Structural)]
pub struct EulerBits {
    pub yaw: u32,
    pub pitch: u32,
    pub roll: u32,
}

/// The big-endian 32-bit word made of four bytes.
pub open spec fn spec_be_u32(b0: u8, b1: u8, b2: u8, b3: u8) -> u32 {
    ((b0 as int) * 0x100_0000 + (b1 as int) * 0x1_0000 + (b2 as int) * 0x100 + (b3 as int)) as u32
}

/// The big-endian 32-bit word at byte offset `i` of `b`.
pub open spec fn spec_word_at(b: Seq<u8>, i: int) -> u32 {
    spec_be_u32(b[i], b[i + 1], b[i + 2], b[i + 3])
}

/// What decoding yields on any buffer: exactly the twelve-byte buffers
/// decode, to their three big-endian words negated; every other length is
/// malformed.
pub open spec fn spec_parse_packet(b: Seq<u8>) -> Result<EulerBits, DecodeError> {
    if b.len() == PACKET_LEN {
        Ok(
            EulerBits {
                yaw: spec_neg_f32_bits(spec_word_at(b, 0)),
                pitch: spec_neg_f32_bits(spec_word_at(b, 4)),
                roll: spec_neg_f32_bits(spec_word_at(b, 8)),
            },
        )
    } else {
        Err(DecodeError::MalformedPacket)
    }
}

/// Assemble the big-endian 32-bit word of four bytes.
fn be_u32(b0: u8, b1: u8, b2: u8, b3: u8) -> (r: u32)
    ensures
        r == spec_be_u32(b0, b1, b2, b3),
{
    (b0 as u32) * 0x100_0000 + (b1 as u32) * 0x1_0000 + (b2 as u32) * 0x100 + (b3 as u32)
}

/// Decode one orientation packet into its negated Euler angles. Succeeds on
/// exactly the buffers of length `PACKET_LEN`; every other buffer is rejected
/// as malformed, never a panic. The function is pure: identical bytes always
/// yield identical bit patterns.
pub fn parse_packet(buf: &[u8]) -> (r: Result<EulerBits, DecodeError>)
    ensures
        r == spec_parse_packet(buf@),
        r is Ok <==> buf@.len() == PACKET_LEN,
{
    if buf.len() != PACKET_LEN {
        return Err(DecodeError::MalformedPacket);
    }
    let yaw = be_u32(buf[0], buf[1], buf[2], buf[3]);
    let pitch = be_u32(buf[4], buf[5], buf[6], buf[7]);
    let roll = be_u32(buf[8], buf[9], buf[10], buf[11]);
    Ok(
        EulerBits {
            yaw: neg_f32_bits(yaw),
            pitch: neg_f32_bits(pitch),
            roll: neg_f32_bits(roll),
        },
    )
}

/// Decoding is deterministic: on identical bytes it yields identical bit
/// patterns, well-formed or not.
pub proof fn lemma_parse_deterministic(b1: Seq<u8>, b2: Seq<u8>)
    requires
        b1 == b2,
    ensures
        spec_parse_packet(b1) == spec_parse_packet(b2),
{
}

} // verus!
