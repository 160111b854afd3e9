use keychain_sync::round::{advance, InvalidTransition, RoundEvent, RoundState};

#[test]
fn full_round_returns_to_idle() {
    let mut s = RoundState::Idle;
    for e in [
        RoundEvent::Start,
        RoundEvent::Planned,
        RoundEvent::Answered,
        RoundEvent::Finalized,
        RoundEvent::Committed,
    ] {
        s = advance(s, e).unwrap();
    }
    assert_eq!(s, RoundState::Idle);
}

#[test]
fn network_failure_retries_from_planning() {
    assert_eq!(advance(RoundState::Querying, RoundEvent::NetworkFailed), Ok(RoundState::Planning));
    assert_eq!(advance(RoundState::Finalizing, RoundEvent::FetchFailed), Ok(RoundState::Planning));
}

#[test]
fn commit_failure_halts() {
    assert_eq!(advance(RoundState::Committing, RoundEvent::CommitFailed), Ok(RoundState::Halted));
    assert_eq!(
        advance(RoundState::Halted, RoundEvent::Start),
        Err(InvalidTransition { state: RoundState::Halted, event: RoundEvent::Start })
    );
}

#[test]
fn commit_cannot_be_abandoned() {
    assert!(advance(RoundState::Committing, RoundEvent::Abandon).is_err());
    assert_eq!(advance(RoundState::Querying, RoundEvent::Abandon), Ok(RoundState::Idle));
}
