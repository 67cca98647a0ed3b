//! The life of one capture session, as a state machine that a driver feeds
//! with what happened on the socket.

use crate::request::{
    classify, decoded, handle_request, is_callback, requested_path, Outcome, Verdict,
    CALLBACK_PATH,
};
use vstd::prelude::*;

verus! {

/// Where a session stands.
#[derive(Clone, Copy, Debug, PartialEq, Eq, Structural)]
pub enum Phase {
    /// Created; the address is not bound yet.
    Idle,
    /// Bound and accepting connections.
    Listening,
    /// Over: nothing is accepted, answered or emitted any more.
    Closed,
}

/// What the driver reports to the session.
#[derive(Debug, PartialEq, Eq)]
pub enum Event {
    /// The address was bound.
    Bound,
    /// The address could not be bound.
    BindFailed,
    /// A connection was accepted and these bytes were read from it.
    Request(Vec<u8>),
    /// A connection was accepted, but reading from it failed.
    ReadFailed,
    /// Accepting a connection failed.
    AcceptFailed,
}

/// The verdict on `event` in `phase`: only a request that reaches a listening
/// session gets one.
pub open spec fn reaction(phase: Phase, event: Event) -> Option<Verdict> {
    match (phase, event) {
        (Phase::Listening, Event::Request(bytes)) => Some(classify(decoded(bytes@))),
        _ => None,
    }
}

/// The phase that follows `phase` on `event`.
pub open spec fn next_phase(phase: Phase, event: Event) -> Phase {
    match phase {
        Phase::Idle => match event {
            Event::Bound => Phase::Listening,
            Event::BindFailed => Phase::Closed,
            _ => Phase::Idle,
        },
        Phase::Listening => match event {
            Event::AcceptFailed => Phase::Closed,
            Event::Request(bytes) => if classify(decoded(bytes@)) is Capture {
                Phase::Closed
            } else {
                Phase::Listening
            },
            _ => Phase::Listening,
        },
        Phase::Closed => Phase::Closed,
    }
}

/// Whether `event` in `phase` makes the session emit a URL.
pub open spec fn emits(phase: Phase, event: Event) -> bool {
    reaction(phase, event) matches Some(Verdict::Capture(_))
}

/// The phase reached from `phase` after all of `events`, in order.
pub open spec fn phase_after(phase: Phase, events: Seq<Event>) -> Phase
    decreases events.len(),
{
    if events.len() == 0 {
        phase
    } else {
        phase_after(next_phase(phase, events[0]), events.drop_first())
    }
}

/// How many URLs a session emits that starts in `phase` and sees `events`.
pub open spec fn emissions(phase: Phase, events: Seq<Event>) -> nat
    decreases events.len(),
{
    if events.len() == 0 {
        0
    } else {
        let here: nat = if emits(phase, events[0]) {
            1
        } else {
            0
        };
        here + emissions(next_phase(phase, events[0]), events.drop_first())
    }
}

/// One activation of the listener.
#[derive(Debug)]
pub struct Session {
    phase: Phase,
}

impl Session {
    /// Where the session stands.
    pub closed spec fn phase(&self) -> Phase {
        self.phase
    }

    /// A session that has not bound its address yet.
    pub fn new() -> (session: Session)
        ensures
            session.phase() == Phase::Idle,
    {
        Session { phase: Phase::Idle }
    }

    /// Where the session stands.
    pub fn current_phase(&self) -> (phase: Phase)
        ensures
            phase == self.phase(),
    {
        self.phase
    }

    /// Whether the driver should go on accepting connections.
    pub fn is_listening(&self) -> (r: bool)
        ensures
            r == (self.phase() == Phase::Listening),
    {
        self.phase == Phase::Listening
    }

    /// Takes one event. The result is `Some` exactly for a request that
    /// reaches a listening session: the driver then writes the outcome's
    /// response to the connection and, for a capture, emits its URL.
    pub fn step(&mut self, event: Event) -> (outcome: Option<Outcome>)
        ensures
            final(self).phase() == next_phase(old(self).phase(), event),
            match outcome {
                Some(o) => reaction(old(self).phase(), event) == Some(o@),
                None => reaction(old(self).phase(), event) is None,
            },
    {
        match self.phase {
            Phase::Idle => {
                match event {
                    Event::Bound => {
                        self.phase = Phase::Listening;
                    },
                    Event::BindFailed => {
                        self.phase = Phase::Closed;
                    },
                    _ => {},
                }
                None
            },
            Phase::Listening => {
                match event {
                    Event::AcceptFailed => {
                        self.phase = Phase::Closed;
                        None
                    },
                    Event::Request(bytes) => {
                        let outcome = handle_request(bytes.as_slice());
                        if outcome.is_final() {
                            self.phase = Phase::Closed;
                        }
                        Some(outcome)
                    },
                    _ => None,
                }
            },
            Phase::Closed => None,
        }
    }
}

/// A closed session answers no request.
pub proof fn lemma_closed_answers_nothing(event: Event)
    ensures
        reaction(Phase::Closed, event) is None,
        next_phase(Phase::Closed, event) == Phase::Closed,
{
}

/// A closed session stays closed and emits nothing, whatever it sees.
pub proof fn lemma_closed_is_silent(events: Seq<Event>)
    ensures
        phase_after(Phase::Closed, events) == Phase::Closed,
        emissions(Phase::Closed, events) == 0,
    decreases events.len(),
{
    if events.len() > 0 {
        lemma_closed_is_silent(events.drop_first());
    }
}

/// Whatever a session sees, from whatever phase, it emits at most one URL.
pub proof fn lemma_at_most_one_emission(phase: Phase, events: Seq<Event>)
    ensures
        emissions(phase, events) <= 1,
    decreases events.len(),
{
    if events.len() > 0 {
        if emits(phase, events[0]) {
            lemma_closed_is_silent(events.drop_first());
        } else {
            lemma_at_most_one_emission(next_phase(phase, events[0]), events.drop_first());
        }
    }
}

/// The event on which a session emits a URL closes it.
pub proof fn lemma_emission_closes(phase: Phase, event: Event)
    requires
        emits(phase, event),
    ensures
        phase == Phase::Listening,
        next_phase(phase, event) == Phase::Closed,
{
}

/// A listening session closes only on a capture or on a failed accept.
pub proof fn lemma_closing_events(event: Event)
    requires
        next_phase(Phase::Listening, event) == Phase::Closed,
    ensures
        emits(Phase::Listening, event) || event is AcceptFailed,
{
}

/// A request whose first line names no path gets the rewrite page, emits
/// nothing and leaves the session listening.
pub proof fn lemma_pathless_request_keeps_listening(bytes: Vec<u8>)
    requires
        requested_path(decoded(bytes@)) is None,
    ensures
        reaction(Phase::Listening, Event::Request(bytes)) == Some(Verdict::Rewrite),
        !emits(Phase::Listening, Event::Request(bytes)),
        next_phase(Phase::Listening, Event::Request(bytes)) == Phase::Listening,
{
}

/// A request for any path that does not begin with the callback path gets
/// the rewrite page, emits nothing and leaves the session listening,
/// whatever stands behind its first line.
pub proof fn lemma_other_path_keeps_listening(bytes: Vec<u8>)
    requires
        requested_path(decoded(bytes@)) is Some,
        !CALLBACK_PATH@.is_prefix_of(requested_path(decoded(bytes@))->Some_0),
    ensures
        reaction(Phase::Listening, Event::Request(bytes)) == Some(Verdict::Rewrite),
        !emits(Phase::Listening, Event::Request(bytes)),
        next_phase(Phase::Listening, Event::Request(bytes)) == Phase::Listening,
{
}

/// A session emits only on a request that is the follow-up.
pub proof fn lemma_emission_needs_callback(phase: Phase, event: Event)
    requires
        emits(phase, event),
    ensures
        event is Request,
        is_callback(decoded(event->Request_0@)),
{
}

/// A failed read is abandoned: the connection gets no answer, nothing is
/// emitted and the session stands where it stood.
pub proof fn lemma_failed_read_is_abandoned(phase: Phase)
    ensures
        reaction(phase, Event::ReadFailed) is None,
        !emits(phase, Event::ReadFailed),
        next_phase(phase, Event::ReadFailed) == phase,
{
}

/// A session whose address could not be bound is closed, and emits nothing
/// whatever follows.
pub proof fn lemma_bind_failure_is_final(events: Seq<Event>)
    ensures
        next_phase(Phase::Idle, Event::BindFailed) == Phase::Closed,
        emissions(Phase::Idle, seq![Event::BindFailed] + events) == 0,
{
    let all = seq![Event::BindFailed] + events;
    assert(all[0] == Event::BindFailed);
    assert(all.drop_first() =~= events);
    lemma_closed_is_silent(events);
}

} // verus!
