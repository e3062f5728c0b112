//! The session of one client of the summary stream.
//!
//! Every client has a receiver of its own on the broadcast of summaries and
//! a queue of its own towards its connection. The session stands between
//! the two. Receiving and sending are the caller's work: `step` takes what
//! happened and answers what to do next.

use vstd::prelude::*;

verus! {

/// Where a session stands.
#[derive(Clone, Copy, Debug, PartialEq, Eq, Structural)]
pub enum SessionState {
    /// The next summary is awaited.
    Receiving,
    /// A summary is on its way to the client.
    Forwarding,
    /// The status that ends the stream is on its way to the client.
    Failing,
    /// The session is over.
    Closed,
}

/// What happened to a session.
#[derive(Clone, Copy, Debug, PartialEq, Eq, Structural)]
pub enum SessionEvent {
    /// The broadcast gave a summary.
    Received,
    /// The broadcast has overwritten this many summaries that the session
    /// had not taken yet.
    Lagged(u64),
    /// The broadcast gave nothing and will give nothing more.
    BroadcastClosed,
    /// What was sent has reached the client's queue.
    Delivered,
    /// The client's queue is closed.
    ClientGone,
}

/// What the session's caller does next.
#[derive(Clone, Copy, Debug, PartialEq, Eq, Structural)]
pub enum SessionAction {
    /// Wait for the next summary of the broadcast.
    Receive,
    /// Send the summary that was received to the client.
    Forward,
    /// Send the client the status of an internal error.
    SendInternalError,
    /// Drop the receiver and end.
    Close,
}

/// The state after an event, and the action that answers it.
///
/// A summary that was received is forwarded, whatever came before it. A
/// session that has fallen behind goes on with the next summary there is and
/// asks for none of those it missed. A client that is gone ends the session.
/// Any other failure of the broadcast is told to the client as an internal
/// error, and then the session ends.
pub open spec fn session_next(state: SessionState, event: SessionEvent) -> (
    SessionState,
    SessionAction,
) {
    match (state, event) {
        (SessionState::Receiving, SessionEvent::Received) => (
            SessionState::Forwarding,
            SessionAction::Forward,
        ),
        (SessionState::Receiving, SessionEvent::Lagged(_)) => (
            SessionState::Receiving,
            SessionAction::Receive,
        ),
        (SessionState::Receiving, SessionEvent::BroadcastClosed) => (
            SessionState::Failing,
            SessionAction::SendInternalError,
        ),
        (SessionState::Forwarding, SessionEvent::Delivered) => (
            SessionState::Receiving,
            SessionAction::Receive,
        ),
        _ => (SessionState::Closed, SessionAction::Close),
    }
}

/// The state after a sequence of events.
pub open spec fn session_after(state: SessionState, events: Seq<SessionEvent>) -> SessionState
    decreases events.len(),
{
    if events.len() == 0 {
        state
    } else {
        session_next(session_after(state, events.drop_last()), events.last()).0
    }
}

/// The session of one client.
#[derive(Clone, Copy, Debug)]
pub struct Session {
    state: SessionState,
}

impl View for Session {
    type V = SessionState;

    closed spec fn view(&self) -> SessionState {
        self.state
    }
}

impl Session {
    /// A session that waits for its first summary.
    pub fn new() -> (session: Session)
        ensures
            session@ == SessionState::Receiving,
    {
        Session { state: SessionState::Receiving }
    }

    pub fn state(&self) -> (state: SessionState)
        ensures
            state == self@,
    {
        self.state
    }

    /// Takes what happened and says what to do next.
    pub fn step(&mut self, event: SessionEvent) -> (action: SessionAction)
        ensures
            (final(self)@, action) == session_next(old(self)@, event),
    {
        let (state, action) = match self.state {
            SessionState::Receiving => match event {
                SessionEvent::Received => (SessionState::Forwarding, SessionAction::Forward),
                SessionEvent::Lagged(_) => (SessionState::Receiving, SessionAction::Receive),
                SessionEvent::BroadcastClosed => (
                    SessionState::Failing,
                    SessionAction::SendInternalError,
                ),
                _ => (SessionState::Closed, SessionAction::Close),
            },
            SessionState::Forwarding => match event {
                SessionEvent::Delivered => (SessionState::Receiving, SessionAction::Receive),
                _ => (SessionState::Closed, SessionAction::Close),
            },
            _ => (SessionState::Closed, SessionAction::Close),
        };
        self.state = state;
        action
    }
}

/// A session that keeps up forwards every summary it receives, one after
/// the other: as long as each summary reaches the client, the session is
/// ready for the next, and each one received is answered by forwarding it.
pub proof fn lemma_every_summary_is_forwarded(rounds: nat)
    ensures
        session_after(SessionState::Receiving, delivered_rounds(rounds))
            == SessionState::Receiving,
        session_next(
            session_after(SessionState::Receiving, delivered_rounds(rounds)),
            SessionEvent::Received,
        ).1 == SessionAction::Forward,
    decreases rounds,
{
    if rounds > 0 {
        lemma_every_summary_is_forwarded((rounds - 1) as nat);
        let events = delivered_rounds(rounds);
        let earlier = delivered_rounds((rounds - 1) as nat);
        let halfway = earlier.push(SessionEvent::Received);
        assert(events.drop_last() =~= halfway);
        assert(halfway.drop_last() =~= earlier);
        assert(session_after(SessionState::Receiving, halfway) == SessionState::Forwarding);
        assert(session_after(SessionState::Receiving, events) == SessionState::Receiving);
    }
}

/// A summary received and delivered, `rounds` times over.
pub open spec fn delivered_rounds(rounds: nat) -> Seq<SessionEvent>
    decreases rounds,
{
    if rounds == 0 {
        Seq::empty()
    } else {
        delivered_rounds((rounds - 1) as nat).push(SessionEvent::Received).push(
            SessionEvent::Delivered,
        )
    }
}

} // verus!
