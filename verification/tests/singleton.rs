use bela::error::Error;
use bela::singleton::{Claim, ClaimState};

#[test]
fn only_one_claim_exists_at_a_time() {
    let mut state = ClaimState::new();

    let first = Claim::take(&mut state).expect("the claim should be free");
    assert_eq!(
        Claim::take(&mut state).unwrap_err(),
        Error::AudioSystemExists,
        "a second audio system must be refused"
    );

    state.release(first);
    Claim::take(&mut state).expect("dropping the first should have freed the claim");
}

#[test]
fn a_poisoned_claim_is_never_free_again() {
    let mut state = ClaimState::new();

    let mut claim = Claim::take(&mut state).expect("the claim should be free");
    claim.poison();
    state.release(claim);

    assert_eq!(
        Claim::take(&mut state).unwrap_err(),
        Error::AudioSystemPoisoned,
        "a poisoned audio system must not be handed out again"
    );
    assert_eq!(
        Claim::take(&mut state).unwrap_err(),
        Error::AudioSystemPoisoned,
        "and must stay refused however many times it is asked for"
    );
}

#[test]
fn an_unpoisoned_claim_still_frees() {
    let mut state = ClaimState::new();

    let claim = Claim::take(&mut state).expect("the claim should be free");
    state.release(claim);

    Claim::take(&mut state).expect("only a poisoned claim should refuse the next one");
}

#[test]
fn a_fresh_claim_is_not_poisoned() {
    let mut state = ClaimState::new();
    let claim = Claim::take(&mut state).expect("the claim should be free");
    assert!(!claim.is_poisoned());
    assert_eq!(state, ClaimState::Taken);
}
