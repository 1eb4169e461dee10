//! The relay's control flow, as an explicit state machine.
//!
//! The relay resolves its room once at startup; a failure there stops the
//! process. Afterwards it streams indefinitely: whenever a session ends —
//! cleanly, by a framing failure, or by a transport failure on either the
//! ingestion or the delivery side — it immediately opens a new session. The
//! one steady-state stop is a notification that cannot be encoded, which is
//! a defect, not a transient condition.

use vstd::prelude::*;

verus! {

/// How one streaming session ended.
#[derive(Debug, Clone, Copy, PartialEq, Eq, Structural)]
pub enum SessionOutcome {
    /// The stream ended without error.
    CleanEnd,
    /// A connection-level failure while streaming or delivering.
    TransportFailed,
    /// The stream could not be framed into records.
    FramingFailed,
    /// An outbound notification could not be encoded.
    EncodeFailed,
}

/// What the relay is doing.
#[derive(Debug, Clone, Copy, PartialEq, Eq, Structural)]
pub enum RelayState {
    /// Resolving the room name at startup.
    Resolving,
    /// A session is open and streaming.
    Streaming,
    /// The process is stopping.
    Stopped,
}

/// What happened, as reported to the relay.
#[derive(Debug, Clone, Copy, PartialEq, Eq, Structural)]
pub enum RelayEvent {
    /// The startup room listing call failed.
    RoomListFailed,
    /// No room in the listing matches the requested name.
    RoomMissing,
    /// The room was resolved.
    RoomFound,
    /// The current session ended.
    SessionEnded(SessionOutcome),
}

/// What the surrounding process must do next.
#[derive(Debug, Clone, Copy, PartialEq, Eq, Structural)]
pub enum RelayAction {
    /// Open a (new) streaming session for the resolved room.
    OpenSession,
    /// Stop the process with a diagnostic.
    Exit,
    /// Nothing: the event does not apply to the state.
    Stay,
}

/// The relay's transition function.
pub open spec fn spec_relay_step(st: RelayState, ev: RelayEvent) -> (RelayState, RelayAction) {
    match (st, ev) {
        (RelayState::Resolving, RelayEvent::RoomListFailed) => (
            RelayState::Stopped,
            RelayAction::Exit,
        ),
        (RelayState::Resolving, RelayEvent::RoomMissing) => (
            RelayState::Stopped,
            RelayAction::Exit,
        ),
        (RelayState::Resolving, RelayEvent::RoomFound) => (
            RelayState::Streaming,
            RelayAction::OpenSession,
        ),
        (RelayState::Streaming, RelayEvent::SessionEnded(o)) => match o {
            SessionOutcome::EncodeFailed => (RelayState::Stopped, RelayAction::Exit),
            _ => (RelayState::Streaming, RelayAction::OpenSession),
        },
        _ => (st, RelayAction::Stay),
    }
}

/// Advance the relay by one event.
pub fn relay_step(st: RelayState, ev: RelayEvent) -> (r: (RelayState, RelayAction))
    ensures
        r == spec_relay_step(st, ev),
{
    match (st, ev) {
        (RelayState::Resolving, RelayEvent::RoomListFailed) => (
            RelayState::Stopped,
            RelayAction::Exit,
        ),
        (RelayState::Resolving, RelayEvent::RoomMissing) => (
            RelayState::Stopped,
            RelayAction::Exit,
        ),
        (RelayState::Resolving, RelayEvent::RoomFound) => (
            RelayState::Streaming,
            RelayAction::OpenSession,
        ),
        (RelayState::Streaming, RelayEvent::SessionEnded(o)) => match o {
            SessionOutcome::EncodeFailed => (RelayState::Stopped, RelayAction::Exit),
            _ => (RelayState::Streaming, RelayAction::OpenSession),
        },
        _ => (st, RelayAction::Stay),
    }
}

/// Reconnect-on-end: a session that ends — cleanly or by a framing or
/// transport failure — makes a streaming relay open exactly one new session
/// and keep streaming; it never stops the process.
pub proof fn lemma_reconnect_on_session_end(o: SessionOutcome)
    requires
        o != SessionOutcome::EncodeFailed,
    ensures
        spec_relay_step(RelayState::Streaming, RelayEvent::SessionEnded(o)) == (
            RelayState::Streaming,
            RelayAction::OpenSession,
        ),
{
}

/// Fatal startup: a room listing failure or a missing room at startup stops
/// the process, and the relay never streams afterwards.
pub proof fn lemma_startup_failure_is_fatal(ev: RelayEvent)
    requires
        ev == RelayEvent::RoomListFailed || ev == RelayEvent::RoomMissing,
    ensures
        spec_relay_step(RelayState::Resolving, ev) == (RelayState::Stopped, RelayAction::Exit),
{
}

/// An encoding failure is the one steady-state event that stops the
/// process.
pub proof fn lemma_encode_failure_is_fatal()
    ensures
        spec_relay_step(
            RelayState::Streaming,
            RelayEvent::SessionEnded(SessionOutcome::EncodeFailed),
        ) == (RelayState::Stopped, RelayAction::Exit),
{
}

} // verus!
