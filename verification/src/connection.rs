//! The life of one management connection.
//!
//! A connection handler reads a command, has it executed against the store,
//! writes the answer, and reads again, until the stream ends or fails. The
//! handler itself lives in the embedding program, which owns the stream and
//! the lock around the store; [`step`] tells it what to do next.

use vstd::prelude::*;

verus! {

/// Where a connection stands.
#[derive(Clone, Copy, Debug, PartialEq, Eq, Structural)]
pub enum ConnectionState {
    /// Accepted, nothing done yet.
    Open,
    /// Waiting for a command line.
    Reading,
    /// A command is being executed against the store.
    Dispatching,
    /// The answer is being written.
    Writing,
    /// Done; the stream is to be dropped.
    Closed,
}

/// What happened on a connection.
#[derive(Debug, PartialEq, Eq)]
pub enum ConnectionEvent {
    /// The handler has started.
    Started,
    /// A line was read, line ending included.
    Line(Vec<u8>),
    /// The store has answered the command.
    Answer(Vec<u8>),
    /// The answer was written and flushed.
    Written,
    /// The peer closed the stream.
    EndOfStream,
    /// Reading or writing failed.
    Failed,
}

/// What the handler is to do next.
#[derive(Debug, PartialEq, Eq)]
pub enum ConnectionAction {
    /// Read one line from the stream.
    ReadLine,
    /// Take exclusive access to the store and execute this command line.
    Execute(Vec<u8>),
    /// Write these bytes to the stream and flush it.
    Write(Vec<u8>),
    /// Drop the stream and end the handler.
    Close,
}

/// The state that follows `state` on an event of the given shape. An event
/// that the state does not expect closes the connection, and a closed
/// connection stays closed.
pub open spec fn next_state(state: ConnectionState, event: ConnectionEvent) -> ConnectionState {
    match (state, event) {
        (ConnectionState::Open, ConnectionEvent::Started) => ConnectionState::Reading,
        (ConnectionState::Reading, ConnectionEvent::Line(_)) => ConnectionState::Dispatching,
        (ConnectionState::Dispatching, ConnectionEvent::Answer(_)) => ConnectionState::Writing,
        (ConnectionState::Writing, ConnectionEvent::Written) => ConnectionState::Reading,
        _ => ConnectionState::Closed,
    }
}

/// Whether `action` is what the handler must do after `event` arrived in `state`:
/// a line that was read is executed as it is, and an answer is written as it is.
pub open spec fn is_next_action(
    state: ConnectionState,
    event: ConnectionEvent,
    action: ConnectionAction,
) -> bool {
    match (state, event) {
        (ConnectionState::Open, ConnectionEvent::Started) => action is ReadLine,
        (ConnectionState::Reading, ConnectionEvent::Line(line)) => {
            action matches ConnectionAction::Execute(command) && command@ == line@
        },
        (ConnectionState::Dispatching, ConnectionEvent::Answer(answer)) => {
            action matches ConnectionAction::Write(bytes) && bytes@ == answer@
        },
        (ConnectionState::Writing, ConnectionEvent::Written) => action is ReadLine,
        _ => action is Close,
    }
}

/// Advances a connection by one event.
pub fn step(state: ConnectionState, event: ConnectionEvent) -> (next: (
    ConnectionState,
    ConnectionAction,
))
    ensures
        next.0 == next_state(state, event),
        is_next_action(state, event, next.1),
{
    match state {
        ConnectionState::Open => match event {
            ConnectionEvent::Started => (ConnectionState::Reading, ConnectionAction::ReadLine),
            _ => (ConnectionState::Closed, ConnectionAction::Close),
        },
        ConnectionState::Reading => match event {
            ConnectionEvent::Line(line) => (
                ConnectionState::Dispatching,
                ConnectionAction::Execute(line),
            ),
            _ => (ConnectionState::Closed, ConnectionAction::Close),
        },
        ConnectionState::Dispatching => match event {
            ConnectionEvent::Answer(answer) => (
                ConnectionState::Writing,
                ConnectionAction::Write(answer),
            ),
            _ => (ConnectionState::Closed, ConnectionAction::Close),
        },
        ConnectionState::Writing => match event {
            ConnectionEvent::Written => (ConnectionState::Reading, ConnectionAction::ReadLine),
            _ => (ConnectionState::Closed, ConnectionAction::Close),
        },
        ConnectionState::Closed => (ConnectionState::Closed, ConnectionAction::Close),
    }
}

} // verus!
