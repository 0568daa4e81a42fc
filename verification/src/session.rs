//! Both ends joined by a transport, as a mathematical model, and what holds
//! of every session.
//!
//! The transport is given as much freedom as can be: of the packets that one
//! end has handed to it, it may bring any one to the other end at any time,
//! late, more than once, out of order, or never. What is proved here of that
//! transport holds all the more of one that keeps the order.

use vstd::prelude::*;
use crate::driver::{SenderDirective, SenderEvent};
use crate::packet::Packet;
use crate::receiver::{ReceiverAction, ReceiverState};
use crate::sender::SenderState;

verus! {

/// One thing that happens in a session.
pub enum Step {
    /// The sending driver starts the current unit.
    Start,
    /// The sending driver's timer expires.
    Timeout,
    /// The transport brings this packet to the receiver.
    ToReceiver(Packet),
    /// The transport brings this packet to the sender.
    ToSender(Packet),
}

/// A session at one moment.
pub struct Session {
    pub sender: SenderState,
    pub receiver: ReceiverState,
    /// Every packet that the sending end has handed to the transport.
    pub data_sent: Set<Packet>,
    /// Every packet that the receiving end has handed to the transport.
    pub acks_sent: Set<Packet>,
    /// The sequence numbers of the units that the receiver has accepted, in
    /// the order of their acceptance.
    pub delivered: Seq<nat>,
}

impl SenderDirective {
    /// The packets that carrying out the directive hands to the transport.
    pub open spec fn transmitted(self) -> Set<Packet> {
        match self {
            SenderDirective::Transmit(packet) => set![packet],
            _ => Set::empty(),
        }
    }
}

impl ReceiverAction {
    /// The packets that carrying out the action hands to the transport.
    pub open spec fn transmitted(self) -> Set<Packet> {
        match self {
            ReceiverAction::Send(packet) => set![packet],
            _ => Set::empty(),
        }
    }
}

/// The units `0, 1, ..., count - 1`, each once, in that order.
pub open spec fn first_units(count: nat) -> Seq<nat> {
    Seq::new(count, |i: int| i as nat)
}

impl Session {
    /// A session of `max_seq` units before anything has happened.
    pub open spec fn initial(max_seq: nat, max_attempts: nat) -> Session {
        Session {
            sender: SenderState::initial(max_seq, max_attempts),
            receiver: ReceiverState::initial(),
            data_sent: Set::empty(),
            acks_sent: Set::empty(),
            delivered: Seq::empty(),
        }
    }

    /// Whether the step can happen now. The sending driver starts and
    /// repeats units only while one is left to send; the transport can only
    /// bring what was handed to it.
    pub open spec fn admits(self, step: Step) -> bool {
        match step {
            Step::Start => !self.sender.done(),
            Step::Timeout => !self.sender.done(),
            Step::ToReceiver(packet) => self.data_sent.contains(packet),
            Step::ToSender(packet) => self.acks_sent.contains(packet),
        }
    }

    /// The session after one step: the end that the step concerns has taken
    /// it, and what it answered with has been handed to the transport.
    pub open spec fn after_step(self, step: Step) -> Session {
        match step {
            Step::Start => Session {
                sender: self.sender.started(),
                data_sent: self.data_sent.insert(self.sender.current()),
                ..self
            },
            Step::Timeout => Session {
                sender: self.sender.after_timeout(),
                data_sent: match self.sender.timeout_result() {
                    Ok(packet) => self.data_sent.insert(packet),
                    Err(_) => self.data_sent,
                },
                ..self
            },
            Step::ToSender(packet) => Session {
                sender: self.sender.after_ack(packet),
                ..self
            },
            Step::ToReceiver(packet) => Session {
                receiver: self.receiver.after_packet(packet),
                acks_sent: self.acks_sent.union(self.receiver.action(packet).transmitted()),
                delivered: if self.receiver.accepts(packet) {
                    self.delivered.push(self.receiver.next_seq)
                } else {
                    self.delivered
                },
                ..self
            },
        }
    }

    /// The session after a run of steps.
    pub open spec fn after_steps(self, steps: Seq<Step>) -> Session
        decreases steps.len(),
    {
        if steps.len() == 0 {
            self
        } else {
            self.after_steps(steps.drop_last()).after_step(steps.last())
        }
    }

    /// Whether each step of the run can happen when its turn comes.
    pub open spec fn admits_all(self, steps: Seq<Step>) -> bool
        decreases steps.len(),
    {
        steps.len() == 0 || {
            &&& self.admits_all(steps.drop_last())
            &&& self.after_steps(steps.drop_last()).admits(steps.last())
        }
    }

    /// What every session keeps: the receiver is level with the sender or one
    /// unit ahead of it and never past the last unit, the transport has seen
    /// no unit beyond the sender's current one and no acknowledgment of a
    /// unit that the receiver has not accepted, and the accepted units are
    /// the first `next_seq` ones in order.
    pub open spec fn consistent(self) -> bool {
        &&& self.sender.wf()
        &&& self.receiver.wf()
        &&& self.sender.seq <= self.receiver.next_seq <= self.sender.seq + 1
        &&& self.receiver.next_seq <= self.sender.max_seq
        &&& forall|packet: Packet| #[trigger]
            self.data_sent.contains(packet) ==> {
                &&& packet is Data
                &&& packet.seq() <= self.sender.seq
                &&& packet.seq() < self.sender.max_seq
            }
        &&& forall|packet: Packet| #[trigger]
            self.acks_sent.contains(packet) ==> {
                &&& packet is Ack
                &&& packet.seq() < self.receiver.next_seq
            }
        &&& self.delivered == first_units(self.receiver.next_seq)
    }

    /// A step that can happen leaves a consistent session consistent, and
    /// keeps the length of the session and the budget as they were set.
    pub proof fn step_keeps_consistent(self, step: Step)
        requires
            self.consistent(),
            self.admits(step),
        ensures
            self.after_step(step).consistent(),
            self.after_step(step).sender.max_seq == self.sender.max_seq,
            self.after_step(step).sender.max_attempts == self.sender.max_attempts,
    {
        let next = self.after_step(step);
        match step {
            Step::ToReceiver(packet) => {
                if self.receiver.accepts(packet) {
                    assert(self.delivered.push(self.receiver.next_seq) =~= first_units(
                        next.receiver.next_seq,
                    ));
                }
            },
            _ => {},
        }
    }

    /// A run of steps, each of which can happen in its turn, leaves a
    /// consistent session consistent.
    pub proof fn steps_keep_consistent(self, steps: Seq<Step>)
        requires
            self.consistent(),
            self.admits_all(steps),
        ensures
            self.after_steps(steps).consistent(),
            self.after_steps(steps).sender.max_seq == self.sender.max_seq,
            self.after_steps(steps).sender.max_attempts == self.sender.max_attempts,
        decreases steps.len(),
    {
        if steps.len() > 0 {
            self.steps_keep_consistent(steps.drop_last());
            self.after_steps(steps.drop_last()).step_keeps_consistent(steps.last());
        }
    }

    /// A session is consistent before anything has happened.
    pub proof fn initial_is_consistent(max_seq: nat, max_attempts: nat)
        requires
            max_seq <= u32::MAX,
            max_attempts <= u32::MAX,
        ensures
            Session::initial(max_seq, max_attempts).consistent(),
    {
        assert(Session::initial(max_seq, max_attempts).delivered =~= first_units(0));
    }

    /// The steps that the sending driver's `proceed` amounts to.
    pub open spec fn proceed_steps(self) -> Seq<Step> {
        if self.sender.done() {
            Seq::empty()
        } else {
            seq![Step::Start]
        }
    }

    /// The steps that the sending driver's `on_event` amounts to.
    pub open spec fn event_steps(self, event: SenderEvent) -> Seq<Step> {
        if self.sender.done() {
            Seq::empty()
        } else {
            match event {
                SenderEvent::TimedOut => seq![Step::Timeout],
                SenderEvent::Arrived(packet) => if self.sender.acknowledged_by(packet)
                    && !self.sender.after_ack(packet).done() {
                    seq![Step::ToSender(packet), Step::Start]
                } else {
                    seq![Step::ToSender(packet)]
                },
            }
        }
    }

    /// The session after the sending driver has called `proceed` and carried
    /// out the directive.
    pub open spec fn after_proceed(self) -> Session {
        Session {
            sender: self.sender.after_proceed(),
            data_sent: self.data_sent.union(self.sender.proceed_directive().transmitted()),
            ..self
        }
    }

    /// The session after the sending driver has called `on_event` and carried
    /// out the directive.
    pub open spec fn after_event(self, event: SenderEvent) -> Session {
        Session {
            sender: self.sender.after_event(event),
            data_sent: self.data_sent.union(self.sender.event_directive(event).transmitted()),
            ..self
        }
    }

    /// A run of one step is that step.
    proof fn run_of_one(self, step: Step)
        ensures
            self.admits_all(seq![step]) == self.admits(step),
            self.after_steps(seq![step]) == self.after_step(step),
    {
        let run = seq![step];
        assert(run.drop_last() =~= Seq::<Step>::empty());
        assert(self.after_steps(run.drop_last()) == self);
        assert(self.admits_all(run.drop_last()));
    }

    /// A run of two steps is the first and then the second.
    proof fn run_of_two(self, first: Step, second: Step)
        ensures
            self.admits_all(seq![first, second]) == (self.admits(first) && self.after_step(
                first,
            ).admits(second)),
            self.after_steps(seq![first, second]) == self.after_step(first).after_step(second),
    {
        let run = seq![first, second];
        self.run_of_one(first);
        assert(run.drop_last() =~= seq![first]);
    }

    /// A driver that goes by `proceed` takes session steps: the call and the
    /// carrying out of its directive are a run of steps that can happen.
    pub proof fn proceed_is_a_run_of_steps(self)
        ensures
            self.admits_all(self.proceed_steps()),
            self.after_steps(self.proceed_steps()) == self.after_proceed(),
    {
        if self.sender.done() {
            assert(self.after_proceed().data_sent =~= self.data_sent);
        } else {
            self.run_of_one(Step::Start);
            assert(self.after_proceed().data_sent =~= self.after_step(Step::Start).data_sent);
        }
    }

    /// A driver that goes by `on_event` takes session steps, as long as the
    /// packets it reports are ones that the transport brought.
    pub proof fn on_event_is_a_run_of_steps(self, event: SenderEvent)
        requires
            event matches SenderEvent::Arrived(packet) ==> self.acks_sent.contains(packet),
        ensures
            self.admits_all(self.event_steps(event)),
            self.after_steps(self.event_steps(event)) == self.after_event(event),
    {
        let steps = self.event_steps(event);
        let end = self.after_event(event);
        if self.sender.done() {
            assert(end.data_sent =~= self.data_sent);
        } else if steps.len() == 1 {
            self.run_of_one(steps[0]);
            assert(steps =~= seq![steps[0]]);
            assert(end.data_sent =~= self.after_step(steps[0]).data_sent);
        } else {
            self.run_of_two(steps[0], Step::Start);
            assert(steps =~= seq![steps[0], Step::Start]);
            assert(end.data_sent =~= self.after_step(steps[0]).after_step(
                Step::Start,
            ).data_sent);
        }
    }
}

/// In every session of `max_seq` units, whatever the transport loses, delays,
/// repeats or reorders and whenever the timer expires: the receiver has
/// accepted the units 0, 1, 2, ... up to the one before its `next_seq`, each
/// once and in that order; it is never more than one unit ahead of the
/// sender and never behind it; and once the sender is done, the accepted
/// units are exactly `0, 1, ..., max_seq - 1`.
pub proof fn session_delivers_in_order(max_seq: nat, max_attempts: nat, steps: Seq<Step>)
    requires
        max_seq <= u32::MAX,
        max_attempts <= u32::MAX,
        Session::initial(max_seq, max_attempts).admits_all(steps),
    ensures
        ({
            let end = Session::initial(max_seq, max_attempts).after_steps(steps);
            &&& end.delivered == first_units(end.receiver.next_seq)
            &&& end.sender.seq <= end.receiver.next_seq <= end.sender.seq + 1
            &&& end.receiver.next_seq <= max_seq
            &&& end.sender.done() ==> end.delivered == first_units(max_seq)
        }),
{
    Session::initial_is_consistent(max_seq, max_attempts);
    Session::initial(max_seq, max_attempts).steps_keep_consistent(steps);
}

/// In every session, a packet that reaches either end meets what that end
/// asks of its caller: the receiver accepts no unit whose successor could
/// not be counted, and the sender is acknowledged no unit when none is
/// outstanding. So neither end is ever fed a packet it must not be given.
pub proof fn session_stays_within_limits(
    max_seq: nat,
    max_attempts: nat,
    steps: Seq<Step>,
    packet: Packet,
)
    requires
        max_seq <= u32::MAX,
        max_attempts <= u32::MAX,
        Session::initial(max_seq, max_attempts).admits_all(steps),
    ensures
        ({
            let end = Session::initial(max_seq, max_attempts).after_steps(steps);
            &&& end.data_sent.contains(packet) && end.receiver.accepts(packet)
                ==> end.receiver.next_seq < u32::MAX
            &&& end.acks_sent.contains(packet) && end.sender.acknowledged_by(packet)
                ==> !end.sender.done()
        }),
{
    Session::initial_is_consistent(max_seq, max_attempts);
    Session::initial(max_seq, max_attempts).steps_keep_consistent(steps);
}

} // verus!
