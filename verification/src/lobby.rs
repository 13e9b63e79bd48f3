//! The matchmaking coordinator's decision rules. The coordinator itself is
//! an actor around a single optional waiting slot; every decision it takes
//! is a pure function of whether the slot is occupied and which of its two
//! awaited events fired first.
use vstd::prelude::*;
use crate::codec::Command;

verus! {

/// Which of the coordinator's two awaited events fired.
#[derive(Copy, Clone, Debug)]
pub enum LobbyEvent {
    /// A new session submitted a queue request.
    Arrival,
    /// The waiting session sent something (or disconnected) before a partner
    /// arrived.
    WaitingSpoke,
}

/// What the coordinator does next.
#[derive(Copy, Clone, Debug)]
pub enum LobbyStep {
    /// Store the arriving session in the waiting slot.
    Store,
    /// Reply "no match" to the waiting session's caller and clear the slot.
    DismissWaiting,
    /// Pair the waiting session with the arrival, spawn a match for the two,
    /// and clear the slot; the coordinator does not wait for the match.
    StartMatch,
}

/// One pairing decision: an empty slot stores the next arrival; an occupied
/// slot is cleared either by dismissing the waiting session when it spoke
/// first, or by pairing it with an arrival.
pub fn lobby_step(waiting: bool, event: LobbyEvent) -> (r: LobbyStep)
    ensures
        !waiting ==> r is Store,
        waiting && event is WaitingSpoke ==> r is DismissWaiting,
        waiting && event is Arrival ==> r is StartMatch,
        slot_occupied_after(r) <==> !waiting,
{
    if !waiting {
        LobbyStep::Store
    } else {
        match event {
            LobbyEvent::WaitingSpoke => LobbyStep::DismissWaiting,
            LobbyEvent::Arrival => LobbyStep::StartMatch,
        }
    }
}

/// Whether the waiting slot is occupied after the step.
pub open spec fn slot_occupied_after(r: LobbyStep) -> bool {
    r is Store
}

/// The join loop's decision on one decoded command: only a queue request
/// enters matchmaking; anything else ends the client's service.
pub fn join_decision(cmd: &Command) -> (r: bool)
    ensures
        r <==> *cmd is Queue,
{
    matches!(cmd, Command::Queue)
}

} // verus!
