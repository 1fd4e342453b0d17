//! The network receiver's loop body, as a verified state transition. The
//! surrounding program owns the socket: once bound (a bind failure is a
//! fatal startup error) it polls with a short read timeout, hands each poll's
//! outcome to the codec, composes a decoded packet's angles into a
//! quaternion, and commits the result here — then sleeps briefly and polls
//! again, for the life of the process. One iteration boils down to: a sample
//! was obtained, store it; no sample (a read timeout, or a malformed packet
//! dropped), leave the cell exactly as it is and carry on.

use vstd::prelude::*;
use crate::cell::AtomicQuat;
use crate::cell::spec_store;
use crate::codec::PACKET_LEN;
use crate::codec::DecodeError;
use crate::codec::EulerBits;
use crate::codec::spec_parse_packet;
use crate::quat::QuatBits;

verus! {

/// What one poll iteration did to the cell.
#[derive(Clone, Copy, Debug, PartialEq, Eq, Structural)]
pub enum PollOutcome {
    /// A sample was decoded and is now the cell's value.
    Stored,
    /// No sample this iteration; the cell was not touched.
    NoUpdate,
}

/// The cell after one poll iteration: a decoded sample overwrites the cell,
/// anything else leaves it untouched.
pub open spec fn spec_poll_step(cell: AtomicQuat, sample: Option<QuatBits>) -> AtomicQuat {
    match sample {
        Some(q) => spec_store(cell, q),
        None => cell,
    }
}

/// One iteration of the receiver loop, after the socket poll and the
/// composition: `sample` is the decoded orientation, or `None` when the poll
/// timed out or the datagram was malformed and dropped. A sample is stored;
/// no sample leaves the cell exactly as it was, and neither case ends the
/// loop.
pub fn poll_step(cell: &mut AtomicQuat, sample: Option<QuatBits>) -> (r: PollOutcome)
    ensures
        *final(cell) == spec_poll_step(*old(cell), sample),
        (match sample {
            Some(q) => final(cell)@ == q && r == PollOutcome::Stored,
            None => *final(cell) == *old(cell) && r == PollOutcome::NoUpdate,
        }),
{
    match sample {
        Some(q) => {
            cell.store(q);
            PollOutcome::Stored
        },
        None => PollOutcome::NoUpdate,
    }
}

/// Feeding a malformed packet leaves the cell's value exactly as it was: a
/// buffer of any length other than `PACKET_LEN` fails to decode, the packet
/// is dropped without a sample, and an iteration without a sample does not
/// touch the cell.
pub proof fn lemma_drop_on_malformed(cell: AtomicQuat, b: Seq<u8>)
    requires
        b.len() != PACKET_LEN,
    ensures
        spec_parse_packet(b) == Err::<EulerBits, DecodeError>(DecodeError::MalformedPacket),
        spec_poll_step(cell, None) == cell,
{
}

} // verus!
