use vstd::prelude::*;

verus! {

/// Where one synchronization round stands.
#[derive(Debug, Clone, Copy, PartialEq, Eq, Structural)]
pub enum RoundState {
    /// No round is running.
    Idle,
    /// Choosing what to ask the chain source.
    Planning,
    /// Waiting for the chain source's answers.
    Querying,
    /// Fetching the transaction bodies the answers lack.
    Finalizing,
    /// Applying the update to the stores and writing the changeset durably.
    Committing,
    /// The durable write failed after the stores had moved: no new round may start until the
    /// operator has made durable and in-memory state agree.
    Halted,
}

/// What happened in the current step of a round.
#[derive(Debug, Clone, Copy, PartialEq, Eq, Structural)]
pub enum RoundEvent {
    /// A caller starts a round.
    Start,
    /// The queries have been chosen.
    Planned,
    /// The chain source answered every query.
    Answered,
    /// Every missing transaction body was fetched.
    Finalized,
    /// The chain source could not be reached or answered badly.
    NetworkFailed,
    /// A transaction body could not be fetched.
    FetchFailed,
    /// The update conflicts with the local chain; nothing was applied.
    ReorgFailed,
    /// The changeset was written durably.
    Committed,
    /// The durable write failed.
    CommitFailed,
    /// The caller gives up on the round.
    Abandon,
}

/// An event that cannot happen in the state the round is in.
#[derive(Debug, Clone, Copy, PartialEq, Eq, Structural)]
pub struct InvalidTransition {
    pub state: RoundState,
    pub event: RoundEvent,
}

/// The state a round moves to on `e` in state `s`, or `None` where `e` cannot happen in `s`.
///
/// Network and fetch failures send the round back to planning, to be retried; a round may be
/// abandoned at any point before it commits; a failed durable write halts the wallet.
pub open spec fn next_state(s: RoundState, e: RoundEvent) -> Option<RoundState> {
    match (s, e) {
        (RoundState::Idle, RoundEvent::Start) => Some(RoundState::Planning),
        (RoundState::Planning, RoundEvent::Planned) => Some(RoundState::Querying),
        (RoundState::Querying, RoundEvent::Answered) => Some(RoundState::Finalizing),
        (RoundState::Querying, RoundEvent::NetworkFailed) => Some(RoundState::Planning),
        (RoundState::Finalizing, RoundEvent::Finalized) => Some(RoundState::Committing),
        (RoundState::Finalizing, RoundEvent::NetworkFailed) => Some(RoundState::Planning),
        (RoundState::Finalizing, RoundEvent::FetchFailed) => Some(RoundState::Planning),
        (RoundState::Committing, RoundEvent::Committed) => Some(RoundState::Idle),
        (RoundState::Committing, RoundEvent::ReorgFailed) => Some(RoundState::Idle),
        (RoundState::Committing, RoundEvent::CommitFailed) => Some(RoundState::Halted),
        (RoundState::Planning, RoundEvent::Abandon) => Some(RoundState::Idle),
        (RoundState::Querying, RoundEvent::Abandon) => Some(RoundState::Idle),
        (RoundState::Finalizing, RoundEvent::Abandon) => Some(RoundState::Idle),
        _ => None,
    }
}

/// Moves a round on by one event.
pub fn advance(s: RoundState, e: RoundEvent) -> (r: Result<RoundState, InvalidTransition>)
    ensures
        match next_state(s, e) {
            Some(n) => r == Ok::<RoundState, InvalidTransition>(n),
            None => r == Err::<RoundState, InvalidTransition>(InvalidTransition { state: s, event: e }),
        },
{
    match (s, e) {
        (RoundState::Idle, RoundEvent::Start) => Ok(RoundState::Planning),
        (RoundState::Planning, RoundEvent::Planned) => Ok(RoundState::Querying),
        (RoundState::Querying, RoundEvent::Answered) => Ok(RoundState::Finalizing),
        (RoundState::Querying, RoundEvent::NetworkFailed) => Ok(RoundState::Planning),
        (RoundState::Finalizing, RoundEvent::Finalized) => Ok(RoundState::Committing),
        (RoundState::Finalizing, RoundEvent::NetworkFailed) => Ok(RoundState::Planning),
        (RoundState::Finalizing, RoundEvent::FetchFailed) => Ok(RoundState::Planning),
        (RoundState::Committing, RoundEvent::Committed) => Ok(RoundState::Idle),
        (RoundState::Committing, RoundEvent::ReorgFailed) => Ok(RoundState::Idle),
        (RoundState::Committing, RoundEvent::CommitFailed) => Ok(RoundState::Halted),
        (RoundState::Planning, RoundEvent::Abandon) => Ok(RoundState::Idle),
        (RoundState::Querying, RoundEvent::Abandon) => Ok(RoundState::Idle),
        (RoundState::Finalizing, RoundEvent::Abandon) => Ok(RoundState::Idle),
        _ => Err(InvalidTransition { state: s, event: e }),
    }
}

/// Only a round that is committing can halt the wallet, and a halted wallet starts no round.
pub proof fn lemma_only_commit_halts(s: RoundState, e: RoundEvent)
    ensures
        next_state(s, e) == Some(RoundState::Halted) ==> s == RoundState::Committing,
        s == RoundState::Halted ==> next_state(s, e) is None,
{
}

} // verus!
