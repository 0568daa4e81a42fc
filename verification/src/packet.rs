//! The packets that cross the transport and the ways a session can fail.

use vstd::prelude::*;

verus! {

/// What travels between the two ends. A value with no identity beyond its
/// contents.
#[derive(Debug, Clone, Copy, PartialEq, Eq, Structural)]
pub enum Packet {
    /// One unit of data, identified by its sequence number.
    Data { seq: u32 },
    /// Confirms that the unit with this sequence number was received.
    Ack { seq: u32 },
}

/// Why a state machine refused an event. Every one of these ends the session.
#[derive(Debug, Clone, Copy, PartialEq, Eq, Structural)]
pub enum ProtocolError {
    /// The sender used up its retry budget for the unit `seq`.
    RetriesExhausted { seq: u32 },
    /// A packet of the wrong kind arrived where one kind was required.
    UnexpectedPacketKind,
    /// An acknowledgment named `got` while the sender waited for `expected`.
    SequenceMismatch { expected: u32, got: u32 },
    /// The receiver saw `got`, which is neither the unit it waits for
    /// (`expected`) nor the one just before it.
    OutOfOrder { expected: u32, got: u32 },
    /// The receiver was asked to repeat an acknowledgment it never produced.
    DuplicateWithNoPriorAck,
}

impl Packet {
    /// The sequence number a packet carries, whatever its kind.
    pub open spec fn seq(self) -> nat {
        match self {
            Packet::Data { seq } => seq as nat,
            Packet::Ack { seq } => seq as nat,
        }
    }
}

} // verus!
