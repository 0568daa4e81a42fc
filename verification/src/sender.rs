//! The sending end: which unit is outstanding, and how often it was sent.

use vstd::prelude::*;
use crate::packet::{Packet, ProtocolError};

verus! {

/// The sender as a mathematical value.
pub struct SenderState {
    /// The unit that is not yet acknowledged.
    pub seq: nat,
    /// How many units the session holds; `seq` never passes it.
    pub max_seq: nat,
    /// How often the current unit has been sent.
    pub attempt: nat,
    /// How often a unit may be sent before the sender gives up.
    pub max_attempts: nat,
}

impl SenderState {
    /// The state a session starts in.
    pub open spec fn initial(max_seq: nat, max_attempts: nat) -> SenderState {
        SenderState { seq: 0, max_seq, attempt: 0, max_attempts }
    }

    /// What holds of every sender: the current unit lies within the session,
    /// and the attempts within the budget. A unit is always sent once, so a
    /// budget of zero still sees one attempt.
    pub open spec fn wf(self) -> bool {
        &&& self.seq <= self.max_seq
        &&& self.max_seq <= u32::MAX
        &&& self.max_attempts <= u32::MAX
        &&& (self.attempt <= self.max_attempts || self.attempt <= 1)
    }

    /// Every unit has been acknowledged.
    pub open spec fn done(self) -> bool {
        self.seq >= self.max_seq
    }

    /// The packet that carries the current unit.
    pub open spec fn current(self) -> Packet {
        Packet::Data { seq: self.seq as u32 }
    }

    /// The state once the current unit has been sent for the first time.
    pub open spec fn started(self) -> SenderState {
        SenderState { attempt: 1, ..self }
    }

    /// The budget allows one more transmission of the current unit.
    pub open spec fn may_retry(self) -> bool {
        self.attempt < self.max_attempts
    }

    /// The answer to an expired timer: the same unit again while the budget
    /// lasts, and failure from then on.
    pub open spec fn timeout_result(self) -> Result<Packet, ProtocolError> {
        if self.may_retry() {
            Ok(self.current())
        } else {
            Err(ProtocolError::RetriesExhausted { seq: self.seq as u32 })
        }
    }

    /// The state after an expired timer: one more attempt is counted where
    /// the unit is sent again, and nothing changes where the sender gives up.
    pub open spec fn after_timeout(self) -> SenderState {
        if self.may_retry() {
            SenderState { attempt: self.attempt + 1, ..self }
        } else {
            self
        }
    }

    /// The packet acknowledges exactly the current unit.
    pub open spec fn acknowledged_by(self, packet: Packet) -> bool {
        packet matches Packet::Ack { seq } && seq == self.seq
    }

    /// The answer to an arriving packet.
    pub open spec fn ack_result(self, packet: Packet) -> Result<(), ProtocolError> {
        match packet {
            Packet::Ack { seq } => if seq == self.seq {
                Ok(())
            } else {
                Err(ProtocolError::SequenceMismatch { expected: self.seq as u32, got: seq })
            },
            Packet::Data { .. } => Err(ProtocolError::UnexpectedPacketKind),
        }
    }

    /// The state after an arriving packet: the next unit with a fresh attempt
    /// counter where the packet acknowledges the current one, and the same
    /// state otherwise.
    pub open spec fn after_ack(self, packet: Packet) -> SenderState {
        if self.acknowledged_by(packet) {
            SenderState { seq: self.seq + 1, attempt: 0, ..self }
        } else {
            self
        }
    }

    /// The state after `calls` expired timers in a row.
    pub open spec fn after_timeouts(self, calls: nat) -> SenderState
        decreases calls,
    {
        if calls == 0 {
            self
        } else {
            self.after_timeouts((calls - 1) as nat).after_timeout()
        }
    }

    /// Starting a unit, repeating it and moving on to the next all keep a
    /// sender well formed, and none but an acknowledgment moves it to another
    /// unit.
    pub proof fn transitions_keep_wf(self, packet: Packet)
        requires
            self.wf(),
        ensures
            self.started().wf(),
            self.started().seq == self.seq,
            self.after_timeout().wf(),
            self.after_timeout().seq == self.seq,
            self.acknowledged_by(packet) ==> !self.done() ==> self.after_ack(packet).wf(),
            !self.acknowledged_by(packet) ==> self.after_ack(packet) == self,
    {
    }

    /// The length of the session and the budget are set once and never
    /// change.
    pub proof fn configuration_is_fixed(self, packet: Packet)
        ensures
            self.started().max_seq == self.max_seq,
            self.started().max_attempts == self.max_attempts,
            self.after_timeout().max_seq == self.max_seq,
            self.after_timeout().max_attempts == self.max_attempts,
            self.after_ack(packet).max_seq == self.max_seq,
            self.after_ack(packet).max_attempts == self.max_attempts,
    {
    }

    /// The attempt counter goes back to zero only on an acknowledgment of the
    /// current unit, and to one only where a unit is started (or repeated
    /// for the first time after none was sent).
    pub proof fn attempt_counter_resets(self, packet: Packet)
        ensures
            self.started().attempt == 1,
            self.acknowledged_by(packet) ==> self.after_ack(packet).attempt == 0,
            self.after_timeout().attempt >= self.attempt,
            self.after_timeout().attempt == 0 ==> self.attempt == 0,
    {
    }

    /// With a budget of `max_attempts >= 1`, a unit that is started and never
    /// acknowledged is handed out again by each of the first
    /// `max_attempts - 1` expired timers, and the timer after those is the
    /// first to fail, with `RetriesExhausted` for that unit. Every later one
    /// fails alike. Here `calls` timers have expired before the one whose
    /// answer is stated.
    pub proof fn retries_end_with_the_budget(self, calls: nat)
        requires
            self.max_attempts >= 1,
        ensures
            self.started().after_timeouts(calls).seq == self.seq,
            self.started().after_timeouts(calls).max_attempts == self.max_attempts,
            calls + 1 < self.max_attempts ==> {
                &&& self.started().after_timeouts(calls).attempt == calls + 1
                &&& self.started().after_timeouts(calls).timeout_result() == Ok::<
                    Packet,
                    ProtocolError,
                >(self.current())
            },
            calls + 1 >= self.max_attempts ==> {
                &&& self.started().after_timeouts(calls).attempt == self.max_attempts
                &&& self.started().after_timeouts(calls).timeout_result() == Err::<
                    Packet,
                    ProtocolError,
                >(ProtocolError::RetriesExhausted { seq: self.seq as u32 })
            },
        decreases calls,
    {
        if calls > 0 {
            self.retries_end_with_the_budget((calls - 1) as nat);
        }
    }

    /// An acknowledgment of any unit but the current one, be it an earlier
    /// or a later one, is refused with `SequenceMismatch` and leaves the
    /// sender as it was.
    pub proof fn mismatched_ack_is_refused(self, got: u32)
        requires
            got != self.seq,
        ensures
            self.ack_result(Packet::Ack { seq: got }) == Err::<(), ProtocolError>(
                ProtocolError::SequenceMismatch { expected: self.seq as u32, got },
            ),
            self.after_ack(Packet::Ack { seq: got }) == self,
    {
    }
}

/// Stop-and-wait sender: at most one unit is ever unacknowledged.
#[derive(Debug, PartialEq, Eq)]
pub struct SAWSender {
    seq: u32,
    max_seq: u32,
    attempt: u32,
    max_attempts: u32,
}

impl View for SAWSender {
    type V = SenderState;

    closed spec fn view(&self) -> SenderState {
        SenderState {
            seq: self.seq as nat,
            max_seq: self.max_seq as nat,
            attempt: self.attempt as nat,
            max_attempts: self.max_attempts as nat,
        }
    }
}

impl SAWSender {
    #[verifier::type_invariant]
    spec fn inv(self) -> bool {
        self@.wf()
    }

    /// A sender for a session of `max_seq` units, each of which may be sent
    /// `max_attempts` times.
    pub fn new(max_seq: u32, max_attempts: u32) -> (s: Self)
        ensures
            s@ == SenderState::initial(max_seq as nat, max_attempts as nat),
            s@.wf(),
    {
        Self { seq: 0, max_seq, attempt: 0, max_attempts }
    }

    /// Whether every unit has been acknowledged.
    pub fn done(&self) -> (b: bool)
        ensures
            b == self@.done(),
            self@.wf(),
    {
        proof {
            use_type_invariant(self);
        }
        self.seq >= self.max_seq
    }

    /// Starts the transmission of the current unit and hands out its packet.
    /// To be called once per unit; later sends of the same unit come from
    /// `on_timeout`.
    pub fn start_seq(&mut self) -> (p: Packet)
        requires
            !old(self)@.done(),
        ensures
            p == old(self)@.current(),
            final(self)@ == old(self)@.started(),
            final(self)@.wf(),
    {
        proof {
            use_type_invariant(&*self);
        }
        self.attempt = 1;
        Packet::Data { seq: self.seq }
    }

    /// The current unit was not acknowledged in time: hands out the same
    /// packet again, or gives up once the budget is spent.
    pub fn on_timeout(&mut self) -> (r: Result<Packet, ProtocolError>)
        ensures
            r == old(self)@.timeout_result(),
            final(self)@ == old(self)@.after_timeout(),
            final(self)@.wf(),
    {
        proof {
            use_type_invariant(&*self);
        }
        if self.attempt >= self.max_attempts {
            return Err(ProtocolError::RetriesExhausted { seq: self.seq });
        }
        self.attempt += 1;
        Ok(Packet::Data { seq: self.seq })
    }

    /// A packet came back. An acknowledgment of the current unit moves the
    /// sender on to the next one; anything else is refused and changes
    /// nothing.
    pub fn on_ack(&mut self, packet: &Packet) -> (r: Result<(), ProtocolError>)
        requires
            old(self)@.acknowledged_by(*packet) ==> !old(self)@.done(),
        ensures
            r == old(self)@.ack_result(*packet),
            final(self)@ == old(self)@.after_ack(*packet),
            final(self)@.wf(),
    {
        proof {
            use_type_invariant(&*self);
        }
        match packet {
            Packet::Ack { seq } => {
                if *seq != self.seq {
                    return Err(
                        ProtocolError::SequenceMismatch { expected: self.seq, got: *seq },
                    );
                }
                self.seq += 1;
                self.attempt = 0;
                Ok(())
            },
            Packet::Data { .. } => Err(ProtocolError::UnexpectedPacketKind),
        }
    }
}

} // verus!
