//! The worker's side of the relay: what it does with what arrives from the
//! gateway process.

use crate::payload::{deserialize, deserializes, scan, scanned};
use twilight_model::gateway::event::Event;
use vstd::prelude::*;

verus! {

/// Where the worker's dispatcher stands.
#[derive(Clone, Copy, Debug, PartialEq, Eq, Structural)]
pub enum State {
    /// Connected to the gateway process.
    Active,
    /// The shutdown signal arrived, and the gateway process was told.
    Shutdown,
}

impl State {
    /// Whether the worker is shutting down.
    pub fn is_shutdown(&self) -> (shutdown: bool)
        ensures
            shutdown == (*self == State::Shutdown),
    {
        matches!(self, State::Shutdown)
    }
}

/// What the worker's dispatcher can wake up to.
#[derive(Clone, Copy, Debug, PartialEq, Eq, Structural)]
pub enum Signal {
    /// The process was told to shut down.
    Shutdown,
    /// The gateway process sent a payload as text.
    Text,
    /// The gateway process sent a message that is no text.
    Other,
    /// Receiving from the gateway process failed.
    ReceiveError,
    /// The gateway process will send nothing more.
    StreamEnded,
}

/// What the dispatcher's caller has to carry out after a signal.
#[derive(Clone, Copy, Debug, PartialEq, Eq, Structural)]
pub enum Command {
    /// Nothing.
    Idle,
    /// Send a close message to the gateway process.
    Close,
    /// Decode the payload and hand the event to a handler task.
    Handle,
    /// Log the error and go on.
    Report,
    /// The run is over: close the socket and wait for every handler task.
    Finish,
}

/// The dispatcher's state after `signal` in `state`.
pub open spec fn next_state(state: State, signal: Signal) -> State {
    if signal == Signal::Shutdown {
        State::Shutdown
    } else {
        state
    }
}

/// What `signal` in `state` has the dispatcher's caller carry out. Only the
/// first shutdown signal sends a close message, and payloads are handled
/// until the gateway process ends the stream.
pub open spec fn command(state: State, signal: Signal) -> Command {
    match signal {
        Signal::Shutdown => if state == State::Active {
            Command::Close
        } else {
            Command::Idle
        },
        Signal::Text => Command::Handle,
        Signal::Other => Command::Idle,
        Signal::ReceiveError => Command::Report,
        Signal::StreamEnded => Command::Finish,
    }
}

/// Acts on one signal: gives the dispatcher's next state and what its caller
/// has to carry out.
pub fn step(state: State, signal: Signal) -> (next: (State, Command))
    ensures
        next.0 == next_state(state, signal),
        next.1 == command(state, signal),
{
    match signal {
        Signal::Shutdown => {
            if state.is_shutdown() {
                (State::Shutdown, Command::Idle)
            } else {
                (State::Shutdown, Command::Close)
            }
        },
        Signal::Text => (state, Command::Handle),
        Signal::Other => (state, Command::Idle),
        Signal::ReceiveError => (state, Command::Report),
        Signal::StreamEnded => (state, Command::Finish),
    }
}

/// Why a payload could not be decoded.
#[derive(Debug)]
pub enum DecodeError {
    /// No opcode was found in the payload.
    Unrecognized,
    /// The payload could not be deserialized.
    Malformed(serde_json::Error),
}

/// Whether the payload `input` decodes, over what twilight finds in it.
pub open spec fn decodes(input: Seq<char>) -> bool {
    match scanned(input) {
        Some(envelope) => deserializes(envelope.op, envelope.event_type, input),
        None => false,
    }
}

/// Decodes a payload that the gateway process relayed: the event, or why
/// there is none. It is unrecognized exactly if no opcode is found in it,
/// and malformed exactly if one is found and it cannot be deserialized.
pub fn decode(input: &str) -> (decoded: Result<Event, DecodeError>)
    ensures
        decoded is Ok == decodes(input@),
        decoded matches Err(DecodeError::Unrecognized) <==> scanned(input@) is None,
{
    match scan(input) {
        None => Err(DecodeError::Unrecognized),
        Some(envelope) => {
            let event_type: Option<&str> = match &envelope.event_type {
                Some(name) => Some(name.as_str()),
                None => None,
            };
            match deserialize(envelope.op, event_type, input) {
                Ok(event) => Ok(event),
                Err(error) => Err(DecodeError::Malformed(error)),
            }
        },
    }
}

} // verus!
