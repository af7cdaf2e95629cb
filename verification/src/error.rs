//! What an adapter reports when it cannot read or write a packet.

use crate::codec::CodecError;
use vstd::prelude::*;

verus! {

/// Why the content of a polled slot gives no transport unit.
#[derive(Clone, Copy, Debug, PartialEq, Eq, Structural)]
pub enum SlotError {
    /// The slot has no value.
    Absent,
    /// The slot's text is not an encoding in the adapter's codec.
    Undecodable,
    /// The decoded bytes are too few to end in a sequence number.
    MissingSequence,
}

/// A failed read or write of an adapter. The adapters decide on all of
/// these but `Transport` before any network call is made for the packet at
/// hand.
#[derive(Clone, Copy, Debug, PartialEq, Eq, Structural)]
pub enum AdapterError {
    /// A pushed message whose body is not an encoding.
    Codec(CodecError),
    /// A polled slot that gives no transport unit.
    Decode(SlotError),
    /// A well-formed inbound unit that carries no packet bytes.
    EmptyPacket,
    /// An outbound packet that, with its sequence number, exceeds what the
    /// two slots of a polled channel hold together.
    PacketTooLarge,
    /// An outbound packet whose encoding exceeds what one message holds.
    PayloadTooLarge,
    /// A network call of the transport failed. The adapters never report
    /// this themselves: whoever makes the call does.
    Transport,
}

} // verus!
