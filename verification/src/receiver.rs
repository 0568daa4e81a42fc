//! The receiving end: which unit is expected next, and what was last
//! acknowledged.

use vstd::prelude::*;
use crate::packet::{Packet, ProtocolError};

verus! {

/// What the driver has to do with the receiver's answer.
#[derive(Debug, Clone, Copy, PartialEq, Eq, Structural)]
pub enum ReceiverAction {
    /// Transmit this acknowledgment back to the sender.
    Send(Packet),
    /// Nothing to transmit. No rule produces this today; it is kept for
    /// packet kinds that need no answer.
    Ignore,
    /// The input broke the protocol; the session has failed.
    Error(ProtocolError),
}

/// The receiver as a mathematical value.
pub struct ReceiverState {
    /// The sequence number of the unit that is expected next.
    pub next_seq: nat,
    /// The acknowledgment that was emitted last, if any was.
    pub last_ack: Option<Packet>,
}

impl ReceiverState {
    /// The state a session starts in.
    pub open spec fn initial() -> ReceiverState {
        ReceiverState { next_seq: 0, last_ack: None }
    }

    /// What holds of every receiver: the cached acknowledgment is absent
    /// before the first unit and names the unit before `next_seq` from then
    /// on.
    pub open spec fn wf(self) -> bool {
        &&& self.next_seq <= u32::MAX
        &&& match self.last_ack {
            None => self.next_seq == 0,
            Some(ack) => ack matches Packet::Ack { seq } && seq + 1 == self.next_seq,
        }
    }

    /// The packet carries the unit that is expected next.
    pub open spec fn accepts(self, packet: Packet) -> bool {
        packet matches Packet::Data { seq } && seq == self.next_seq
    }

    /// The packet carries the unit just before the expected one again.
    pub open spec fn repeats(self, packet: Packet) -> bool {
        packet matches Packet::Data { seq } && seq + 1 == self.next_seq
    }

    /// The answer to an arriving packet.
    pub open spec fn action(self, packet: Packet) -> ReceiverAction {
        match packet {
            Packet::Data { seq } => if seq == self.next_seq {
                ReceiverAction::Send(Packet::Ack { seq })
            } else if seq + 1 == self.next_seq {
                match self.last_ack {
                    Some(ack) => ReceiverAction::Send(ack),
                    None => ReceiverAction::Error(ProtocolError::DuplicateWithNoPriorAck),
                }
            } else {
                ReceiverAction::Error(
                    ProtocolError::OutOfOrder { expected: self.next_seq as u32, got: seq },
                )
            },
            Packet::Ack { .. } => ReceiverAction::Error(ProtocolError::UnexpectedPacketKind),
        }
    }

    /// The state after an arriving packet: one unit further, with its
    /// acknowledgment cached, where the packet carries the expected unit,
    /// and the same state otherwise.
    pub open spec fn after_packet(self, packet: Packet) -> ReceiverState {
        if self.accepts(packet) {
            ReceiverState {
                next_seq: self.next_seq + 1,
                last_ack: Some(Packet::Ack { seq: self.next_seq as u32 }),
            }
        } else {
            self
        }
    }

    /// The state after a run of packets, taken one after another.
    pub open spec fn after_packets(self, packets: Seq<Packet>) -> ReceiverState
        decreases packets.len(),
    {
        if packets.len() == 0 {
            self
        } else {
            self.after_packets(packets.drop_last()).after_packet(packets.last())
        }
    }

    /// The sequence numbers of the units that a run of packets had accepted,
    /// in the order of their acceptance. This is what the consumer of the
    /// units sees.
    pub open spec fn accepted(self, packets: Seq<Packet>) -> Seq<nat>
        decreases packets.len(),
    {
        if packets.len() == 0 {
            Seq::empty()
        } else {
            let before = self.after_packets(packets.drop_last());
            let earlier = self.accepted(packets.drop_last());
            if before.accepts(packets.last()) {
                earlier.push(before.next_seq)
            } else {
                earlier
            }
        }
    }

    /// A well-formed receiver stays well formed whatever arrives, as long as
    /// the unit it accepts leaves room for a successor. `next_seq` grows by
    /// exactly one where the expected unit arrives and not at all otherwise,
    /// and the cached acknowledgment then names the unit before it.
    pub proof fn after_packet_keeps_wf(self, packet: Packet)
        requires
            self.wf(),
            self.accepts(packet) ==> self.next_seq < u32::MAX,
        ensures
            self.after_packet(packet).wf(),
            self.accepts(packet) ==> self.after_packet(packet).next_seq == self.next_seq + 1,
            !self.accepts(packet) ==> self.after_packet(packet) == self,
            self.after_packet(packet).last_ack matches Some(ack) ==> ack == (Packet::Ack {
                seq: (self.after_packet(packet).next_seq - 1) as u32,
            }),
    {
    }

    /// A unit that was just acknowledged and arrives again gets the very
    /// acknowledgment it got before, and the receiver stays as it was: the
    /// same packet may arrive any number of times and `next_seq` never moves.
    pub proof fn repeated_unit_is_answered_alike(self, packet: Packet, times: nat)
        requires
            self.wf(),
            self.repeats(packet),
        ensures
            self.action(packet) == ReceiverAction::Send(
                Packet::Ack { seq: (self.next_seq - 1) as u32 },
            ),
            self.last_ack == Some(Packet::Ack { seq: (self.next_seq - 1) as u32 }),
            self.after_packet(packet) == self,
            self.after_packets(Seq::new(times, |i: int| packet)) == self,
        decreases times,
    {
        if times > 0 {
            let run = Seq::new(times, |i: int| packet);
            self.repeated_unit_is_answered_alike(packet, (times - 1) as nat);
            assert(run.drop_last() =~= Seq::new((times - 1) as nat, |i: int| packet));
        }
    }

    /// A unit that is neither the expected one nor the one before it is
    /// refused with `OutOfOrder`, and the receiver stays as it was.
    pub proof fn gap_is_refused(self, seq: u32)
        requires
            seq != self.next_seq,
            seq + 1 != self.next_seq,
        ensures
            self.action(Packet::Data { seq }) == ReceiverAction::Error(
                ProtocolError::OutOfOrder { expected: self.next_seq as u32, got: seq },
            ),
            self.after_packet(Packet::Data { seq }) == self,
    {
    }

    /// A well-formed receiver always has the acknowledgment that a repeated
    /// unit asks for: `DuplicateWithNoPriorAck` never comes out of it.
    pub proof fn cached_ack_is_never_missing(self, packet: Packet)
        requires
            self.wf(),
        ensures
            self.action(packet) != ReceiverAction::Error(
                ProtocolError::DuplicateWithNoPriorAck,
            ),
    {
    }

    /// Every packet is either answered or refused: no rule leads to `Ignore`.
    pub proof fn every_packet_is_answered_or_refused(self, packet: Packet)
        ensures
            self.action(packet) != ReceiverAction::Ignore,
            self.action(packet) is Send <==> self.accepts(packet) || (self.repeats(packet)
                && self.last_ack is Some),
    {
    }

    /// Whatever packets arrive, in whatever order and however often, the
    /// units that the receiver accepts number on from the one it expected at
    /// the start, each once, without a gap: from a fresh receiver these are
    /// 0, 1, 2 and so on up to the unit before `next_seq`.
    pub proof fn units_are_accepted_in_order(self, packets: Seq<Packet>)
        ensures
            self.after_packets(packets).next_seq >= self.next_seq,
            self.accepted(packets) == Seq::new(
                (self.after_packets(packets).next_seq - self.next_seq) as nat,
                |i: int| (self.next_seq + i) as nat,
            ),
        decreases packets.len(),
    {
        let units = Seq::new(
            (self.after_packets(packets).next_seq - self.next_seq) as nat,
            |i: int| (self.next_seq + i) as nat,
        );
        if packets.len() > 0 {
            self.units_are_accepted_in_order(packets.drop_last());
        }
        assert(self.accepted(packets) =~= units);
    }
}

/// Stop-and-wait receiver: accepts units strictly in order and answers a
/// repeated unit with the acknowledgment it gave before.
#[derive(Debug, PartialEq, Eq)]
pub struct SAWReceiver {
    next_seq: u32,
    last_ack: Option<Packet>,
}

impl View for SAWReceiver {
    type V = ReceiverState;

    closed spec fn view(&self) -> ReceiverState {
        ReceiverState { next_seq: self.next_seq as nat, last_ack: self.last_ack }
    }
}

impl SAWReceiver {
    #[verifier::type_invariant]
    spec fn inv(self) -> bool {
        self@.wf()
    }

    /// A receiver that expects unit 0 and has acknowledged nothing.
    pub fn new() -> (r: Self)
        ensures
            r@ == ReceiverState::initial(),
            r@.wf(),
    {
        SAWReceiver { next_seq: 0, last_ack: None }
    }

    /// A packet arrived. The expected unit is accepted and acknowledged; the
    /// unit before it is answered from the cache; anything else is refused.
    /// Sequence numbers do not wrap: the last one that a packet can carry is
    /// accepted only while a successor can still be counted.
    pub fn on_packet(&mut self, packet: &Packet) -> (a: ReceiverAction)
        requires
            old(self)@.accepts(*packet) ==> old(self)@.next_seq < u32::MAX,
        ensures
            a == old(self)@.action(*packet),
            final(self)@ == old(self)@.after_packet(*packet),
            final(self)@.wf(),
    {
        proof {
            use_type_invariant(&*self);
        }
        match packet {
            Packet::Data { seq } => {
                if *seq == self.next_seq {
                    let new_ack = Packet::Ack { seq: *seq };
                    *self = SAWReceiver { next_seq: *seq + 1, last_ack: Some(new_ack) };
                    ReceiverAction::Send(new_ack)
                } else if *seq < u32::MAX && *seq + 1 == self.next_seq {
                    match &self.last_ack {
                        Some(ack) => ReceiverAction::Send(*ack),
                        None => ReceiverAction::Error(ProtocolError::DuplicateWithNoPriorAck),
                    }
                } else {
                    ReceiverAction::Error(
                        ProtocolError::OutOfOrder { expected: self.next_seq, got: *seq },
                    )
                }
            },
            Packet::Ack { .. } => ReceiverAction::Error(ProtocolError::UnexpectedPacketKind),
        }
    }
}

} // verus!
