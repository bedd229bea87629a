use bela::error::Error;
use bela::singleton::{Claim, ClaimState};
use bela::settings::{InitSettings, ResolvedSettings};
use bela::system::{begin_init, init_result, resolve_init, run_result, start_result, Started};

#[test]
fn a_failed_initialisation_poisons_the_claim() {
    let mut state = ClaimState::new();
    let mut claim = Claim::take(&mut state).expect("the claim should be free");
    assert_eq!(init_result(-3, &mut claim), Err(Error::Init(-3)));
    assert!(claim.is_poisoned());
    state.release(claim);
    assert_eq!(Claim::take(&mut state).unwrap_err(), Error::AudioSystemPoisoned);
}

#[test]
fn a_successful_initialisation_leaves_the_claim_alone() {
    let mut state = ClaimState::new();
    let mut claim = Claim::take(&mut state).expect("the claim should be free");
    assert_eq!(init_result(0, &mut claim), Ok(()));
    assert!(!claim.is_poisoned());
}

#[test]
fn a_run_with_faults_ends_in_an_error() {
    assert_eq!(run_result(0), Ok(()));
    assert_eq!(run_result(2), Err(Error::CallbackFaults(2)));
}

#[test]
fn starting_twice_asks_once() {
    let mut started = Started::new();
    assert_eq!(start_result(5), Err(Error::Start(5)));
    assert_eq!(started.start(7), Err(Error::Start(7)));
    assert!(!started.is_started());
    assert_eq!(started.start(0), Ok(()));
    assert!(started.is_started());
    assert_eq!(started.start(9), Ok(()), "a running system is not started again");
    assert!(started.stop());
    assert!(!started.stop(), "and there is nothing left to stop");
}

fn resolved() -> InitSettings {
    InitSettings {
        audio_sample_rate: 44100,
        period_size: 16,
        pru_number: 1,
        ..InitSettings::default()
    }
}

fn anything(_: &ResolvedSettings) -> Result<(), &'static str> {
    Ok(())
}

fn nothing(_: &ResolvedSettings) -> Result<(), &'static str> {
    Err("not here")
}

#[test]
fn the_claim_is_taken_before_anything_else_is_looked_at() {
    let mut state = ClaimState::new();
    let first = begin_init(&mut state, None).expect("the claim should be free");
    assert_eq!(state, ClaimState::Taken);
    assert_eq!(
        begin_init(&mut state, Some(u32::MAX)).unwrap_err(),
        Error::AudioSystemExists,
        "a second audio system is refused before its cycle is looked at"
    );
    state.release(first);
    assert_eq!(state, ClaimState::Free);
}

#[test]
fn a_cycle_libbela_cannot_take_is_refused_and_frees_the_claim() {
    let mut state = ClaimState::new();
    let cycle = i32::MAX as u32 + 1;
    assert_eq!(begin_init(&mut state, Some(cycle)).unwrap_err(), Error::CpuMonitoringCycle(cycle));
    assert_eq!(state, ClaimState::Free);
    assert!(begin_init(&mut state, Some(2000)).is_ok());
}

#[test]
fn a_refused_resolution_frees_the_claim_in_the_documented_order() {
    let mut state = ClaimState::new();
    let claim = begin_init(&mut state, Some(2000)).expect("free");
    assert_eq!(
        resolve_init(claim, &mut state, &resolved(), Some(2000), Err(Error::CommandLine(63)), nothing)
            .unwrap_err(),
        Error::CommandLine(63),
        "the command line's own error comes first"
    );
    assert_eq!(state, ClaimState::Free);

    let claim = begin_init(&mut state, Some(2000)).expect("free again");
    let mut long = resolved();
    long.period_size = 256;
    assert_eq!(
        resolve_init(claim, &mut state, &long, Some(2000), Ok(()), nothing).unwrap_err(),
        Error::CpuMonitoringPeriodSize(256),
        "the crate's checks come before the application's"
    );
    assert_eq!(state, ClaimState::Free);

    let claim = begin_init(&mut state, None).expect("free again");
    assert_eq!(
        resolve_init(claim, &mut state, &long, None, Ok(()), nothing).unwrap_err(),
        Error::SettingsRefused("not here")
    );
    assert_eq!(state, ClaimState::Free);
}

#[test]
fn an_accepted_resolution_keeps_the_claim() {
    let mut state = ClaimState::new();
    let claim = begin_init(&mut state, None).expect("free");
    let mut claim = resolve_init(claim, &mut state, &resolved(), None, Ok(()), anything)
        .expect("nothing refuses these settings");
    assert_eq!(state, ClaimState::Taken);
    assert_eq!(init_result(-1, &mut claim), Err(Error::Init(-1)));
    state.release(claim);
    assert_eq!(state, ClaimState::Poisoned, "only a failed Bela_initAudio poisons");
}
