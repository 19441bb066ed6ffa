//! What drives a handshake from outside: the events that a transport
//! delivers and the actions that it is asked to perform.

use vstd::prelude::*;
use crate::error::HandshakeError;
use crate::handshake::FinalHandshakeState;

verus! {

/// What the transport reports to a state machine.
#[derive(Debug, PartialEq, Eq)]
pub enum Event {
    /// The attempt starts.
    Initialize,
    /// A message arrived from the peer.
    ReceivedMessage(Vec<u8>),
}

pub enum EventView {
    Initialize,
    ReceivedMessage(Seq<u8>),
}

impl View for Event {
    type V = EventView;

    open spec fn view(&self) -> EventView {
        match self {
            Event::Initialize => EventView::Initialize,
            Event::ReceivedMessage(message) => EventView::ReceivedMessage(message@),
        }
    }
}

/// What a state machine asks of the transport.
#[derive(Debug, PartialEq, Eq)]
pub enum Action {
    /// Nothing is to be sent.
    NoAction,
    /// These bytes are to be sent to the peer.
    SendMessage(Vec<u8>),
}

pub enum ActionView {
    NoAction,
    SendMessage(Seq<u8>),
}

impl View for Action {
    type V = ActionView;

    open spec fn view(&self) -> ActionView {
        match self {
            Action::NoAction => ActionView::NoAction,
            Action::SendMessage(message) => ActionView::SendMessage(message@),
        }
    }
}

/// View of the result of handling an event.
pub open spec fn action_result(r: Result<Action, HandshakeError>) -> Result<
    ActionView,
    HandshakeError,
> {
    match r {
        Ok(action) => Ok(action@),
        Err(error) => Err(error),
    }
}

/// One role of the handshake, driven by events.
pub trait StateMachine {
    /// Handles an event that occurred at time `now`, in seconds.
    fn on_event(&mut self, event: Event, now: u64) -> Result<Action, HandshakeError>;

    /// The result of the handshake, once it is done.
    fn get_final_state(&self) -> Option<FinalHandshakeState>;
}

} // verus!
