use crate::models::{Authenticated, GlobalServerResponse, Initialized};
use vstd::prelude::*;

verus! {

/// Where the session with the remote aggregator stands.
#[derive(Debug, Clone, Copy, PartialEq, Eq, Structural)]
pub enum MirrorPhase {
    /// Authentication was sent; its answer is awaited.
    AwaitingAuthentication,
    /// The game was announced; its answer is awaited.
    AwaitingInitialization,
    /// Updates flow; `sent` of them went out so far.
    Streaming { sent: usize },
    /// The handshake failed; the arena does not launch.
    Aborted,
}

/// What the session does after an answer of the aggregator.
#[derive(Debug, Clone, Copy, PartialEq, Eq, Structural)]
pub enum MirrorStep {
    /// Send the game's initial state.
    SendInitialGame,
    /// Tell the operator where the game can be watched, and start streaming.
    AnnounceGame,
    /// Log the message and go on.
    Log,
    /// Give up: the arena does not launch.
    Abort,
    /// Nothing to do.
    Ignore,
}

/// The answer is a warning, an error or a notice, which is only logged.
pub open spec fn is_note(r: GlobalServerResponse) -> bool {
    r is Warning || r is Error || r is Info
}

/// The handshake with the aggregator: authenticate, then announce the game,
/// then stream updates. Notes are logged in every phase; any other answer
/// that the handshake does not expect aborts it.
pub fn on_response(phase: MirrorPhase, response: &GlobalServerResponse) -> (r: (MirrorPhase, MirrorStep))
    ensures
        phase == MirrorPhase::Aborted ==> r == (MirrorPhase::Aborted, MirrorStep::Ignore),
        phase != MirrorPhase::Aborted && is_note(*response) ==> r == (phase, MirrorStep::Log),
        phase == MirrorPhase::AwaitingAuthentication && !is_note(*response) ==> r == if response matches GlobalServerResponse::Authenticated(Authenticated::Success) {
            (MirrorPhase::AwaitingInitialization, MirrorStep::SendInitialGame)
        } else {
            (MirrorPhase::Aborted, MirrorStep::Abort)
        },
        phase == MirrorPhase::AwaitingInitialization && !is_note(*response) ==> r == if response matches GlobalServerResponse::Initialized(Initialized::Success { .. }) {
            (MirrorPhase::Streaming { sent: 0 }, MirrorStep::AnnounceGame)
        } else {
            (MirrorPhase::Aborted, MirrorStep::Abort)
        },
        phase is Streaming && !is_note(*response) ==> r == (phase, MirrorStep::Log),
{
    match phase {
        MirrorPhase::Aborted => (MirrorPhase::Aborted, MirrorStep::Ignore),
        _ => match response {
            GlobalServerResponse::Warning(_) | GlobalServerResponse::Error(_) | GlobalServerResponse::Info(_) => (
                phase,
                MirrorStep::Log,
            ),
            _ => match phase {
                MirrorPhase::AwaitingAuthentication => match response {
                    GlobalServerResponse::Authenticated(Authenticated::Success) => (
                        MirrorPhase::AwaitingInitialization,
                        MirrorStep::SendInitialGame,
                    ),
                    _ => (MirrorPhase::Aborted, MirrorStep::Abort),
                },
                MirrorPhase::AwaitingInitialization => match response {
                    GlobalServerResponse::Initialized(Initialized::Success { .. }) => (
                        MirrorPhase::Streaming { sent: 0 },
                        MirrorStep::AnnounceGame,
                    ),
                    _ => (MirrorPhase::Aborted, MirrorStep::Abort),
                },
                _ => (phase, MirrorStep::Log),
            },
        },
    }
}

/// Counts one more update sent; updates are numbered from one, so the number
/// of the update just sent is the new count. `None` once the count is full
/// or before streaming.
pub fn on_update_sent(phase: MirrorPhase) -> (r: Option<(MirrorPhase, usize)>)
    ensures
        match phase {
            MirrorPhase::Streaming { sent } => if sent < usize::MAX {
                r == Some((MirrorPhase::Streaming { sent: (sent + 1) as usize }, (sent + 1) as usize))
            } else {
                r.is_none()
            },
            _ => r.is_none(),
        },
{
    match phase {
        MirrorPhase::Streaming { sent } => {
            if sent < usize::MAX {
                Some((MirrorPhase::Streaming { sent: sent + 1 }, sent + 1))
            } else {
                None
            }
        },
        _ => None,
    }
}

} // verus!
