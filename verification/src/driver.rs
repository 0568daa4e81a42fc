//! The sending end as one step per event: what the driver observed goes in,
//! what it has to do next comes out. The driver owns the transport and the
//! clock; every decision is taken here.

use vstd::prelude::*;
use crate::packet::{Packet, ProtocolError};
use crate::sender::{SAWSender, SenderState};

verus! {

/// What the driver observed while a unit was unacknowledged.
#[derive(Debug, Clone, Copy, PartialEq, Eq, Structural)]
pub enum SenderEvent {
    /// No packet came back within the window.
    TimedOut,
    /// This packet came back.
    Arrived(Packet),
}

/// What the driver has to do next.
#[derive(Debug, Clone, Copy, PartialEq, Eq, Structural)]
pub enum SenderDirective {
    /// Hand this packet to the transport and wait for the next event.
    Transmit(Packet),
    /// Every unit is acknowledged: the session ended well.
    Finish,
    /// The session has failed and is not to be continued.
    Abort(ProtocolError),
}

impl SenderState {
    /// What there is to do between two units: send the next one, or stop
    /// where none is left.
    pub open spec fn proceed_directive(self) -> SenderDirective {
        if self.done() {
            SenderDirective::Finish
        } else {
            SenderDirective::Transmit(self.current())
        }
    }

    /// The state after `proceed_directive`: the next unit counts as sent
    /// once, if there is one.
    pub open spec fn after_proceed(self) -> SenderState {
        if self.done() {
            self
        } else {
            self.started()
        }
    }

    /// What there is to do after an event. A finished sender has nothing
    /// outstanding, so every event finds it finished. Otherwise an expired
    /// timer repeats the unit or exhausts the budget, an acknowledgment of
    /// the unit leads on to the next one, and any other packet fails the
    /// session.
    pub open spec fn event_directive(self, event: SenderEvent) -> SenderDirective {
        if self.done() {
            SenderDirective::Finish
        } else {
            match event {
                SenderEvent::TimedOut => match self.timeout_result() {
                    Ok(packet) => SenderDirective::Transmit(packet),
                    Err(error) => SenderDirective::Abort(error),
                },
                SenderEvent::Arrived(packet) => match self.ack_result(packet) {
                    Ok(_) => self.after_ack(packet).proceed_directive(),
                    Err(error) => SenderDirective::Abort(error),
                },
            }
        }
    }

    /// The state after an event: unchanged where the session is finished or
    /// fails, one more attempt where the unit is repeated, and the next unit
    /// begun, if one is left, where the current one was acknowledged.
    pub open spec fn after_event(self, event: SenderEvent) -> SenderState {
        if self.done() {
            self
        } else {
            match event {
                SenderEvent::TimedOut => self.after_timeout(),
                SenderEvent::Arrived(packet) => if self.acknowledged_by(packet) {
                    self.after_ack(packet).after_proceed()
                } else {
                    self
                },
            }
        }
    }
}

/// How many of the events are expired timers.
pub open spec fn timeouts_in(events: Seq<SenderEvent>) -> nat
    decreases events.len(),
{
    if events.len() == 0 {
        0
    } else if events.last() is TimedOut {
        timeouts_in(events.drop_last()) + 1
    } else {
        timeouts_in(events.drop_last())
    }
}

impl SenderState {
    /// The state after a run of events, taken one after another.
    pub open spec fn after_events(self, events: Seq<SenderEvent>) -> SenderState
        decreases events.len(),
    {
        if events.len() == 0 {
            self
        } else {
            self.after_events(events.drop_last()).after_event(events.last())
        }
    }

    /// None of the events brings an acknowledgment of the current unit.
    pub open spec fn unacknowledged_in(self, events: Seq<SenderEvent>) -> bool {
        forall|i: int|
            0 <= i < events.len() ==> !(#[trigger] events[i] matches SenderEvent::Arrived(packet)
                && self.acknowledged_by(packet))
    }

    /// While no acknowledgment of the current unit arrives, only the expired
    /// timers count: whatever other packets come in between, the sender
    /// stands where that many timers alone would have left it.
    pub proof fn only_timeouts_count_while_unacknowledged(self, events: Seq<SenderEvent>)
        requires
            !self.done(),
            self.unacknowledged_in(events),
        ensures
            self.after_events(events) == self.after_timeouts(timeouts_in(events)),
            self.after_events(events).seq == self.seq,
            self.after_events(events).max_seq == self.max_seq,
        decreases events.len(),
    {
        if events.len() > 0 {
            let earlier = events.drop_last();
            assert(self.unacknowledged_in(earlier)) by {
                assert forall|i: int| 0 <= i < earlier.len() implies !(
                    #[trigger] earlier[i] matches SenderEvent::Arrived(packet)
                        && self.acknowledged_by(packet)
                ) by {
                    assert(earlier[i] == events[i]);
                }
            }
            self.only_timeouts_count_while_unacknowledged(earlier);
        }
    }

    /// A unit that is started and never acknowledged, under a budget of
    /// `max_attempts >= 1`: whatever else arrives, the timer that expires
    /// once `max_attempts - 1` have expired before it is the first to end
    /// the session, with `RetriesExhausted` for that unit; each earlier one
    /// has the unit transmitted again.
    pub proof fn unacknowledged_unit_fails_with_the_budget(self, events: Seq<SenderEvent>)
        requires
            !self.done(),
            self.max_attempts >= 1,
            self.unacknowledged_in(events),
        ensures
            self.started().after_events(events).event_directive(SenderEvent::TimedOut) == (
            if timeouts_in(events) + 1 < self.max_attempts {
                SenderDirective::Transmit(self.current())
            } else {
                SenderDirective::Abort(ProtocolError::RetriesExhausted { seq: self.seq as u32 })
            }),
    {
        self.started().only_timeouts_count_while_unacknowledged(events);
        self.retries_end_with_the_budget(timeouts_in(events));
    }
}

impl SAWSender {
    /// Moves on to the next unit: starts it and asks for its transmission,
    /// or reports that none is left. To be called once at the start of a
    /// session; `on_event` does it after each acknowledged unit.
    pub fn proceed(&mut self) -> (d: SenderDirective)
        ensures
            d == old(self)@.proceed_directive(),
            final(self)@ == old(self)@.after_proceed(),
            final(self)@.wf(),
    {
        if self.done() {
            SenderDirective::Finish
        } else {
            SenderDirective::Transmit(self.start_seq())
        }
    }

    /// Takes what the driver observed after a transmission and says what to
    /// do next.
    pub fn on_event(&mut self, event: &SenderEvent) -> (d: SenderDirective)
        ensures
            d == old(self)@.event_directive(*event),
            final(self)@ == old(self)@.after_event(*event),
            final(self)@.wf(),
    {
        if self.done() {
            return SenderDirective::Finish;
        }
        match event {
            SenderEvent::TimedOut => {
                let retry = self.on_timeout();
                match retry {
                    Ok(packet) => SenderDirective::Transmit(packet),
                    Err(error) => SenderDirective::Abort(error),
                }
            },
            SenderEvent::Arrived(packet) => {
                let taken = self.on_ack(packet);
                match taken {
                    Ok(_) => self.proceed(),
                    Err(error) => SenderDirective::Abort(error),
                }
            },
        }
    }
}

} // verus!
