//! The decisions around an audio system's lifecycle: what each of
//! libbela's answers becomes.

use vstd::prelude::*;

use crate::cpu::check_cycle;
use crate::error::Error;
use crate::settings::{check_supported, spec_crate_checks, spec_verdict, InitSettings, ResolvedSettings};
use crate::singleton::{Claim, ClaimState};

verus! {

/// The first step of building an audio system: take the claim, since
/// everything after it reaches into libbela's globals, then refuse a
/// CPU monitoring cycle of `cycle` measurements that libbela cannot be
/// given, before anything is allocated. A refused cycle gives the claim
/// back, so the state is free again.
///
/// # Errors
/// [`Error::AudioSystemExists`] or [`Error::AudioSystemPoisoned`] when
/// the claim cannot be taken, with the state left as it was; then
/// [`Error::CpuMonitoringCycle`] for a cycle above `i32::MAX`.
pub fn begin_init(state: &mut ClaimState, cycle: Option<u32>) -> (r: Result<Claim, Error>)
    ensures
        *old(state) == ClaimState::Taken ==> r == Err::<Claim, Error>(Error::AudioSystemExists)
            && *final(state) == ClaimState::Taken,
        *old(state) == ClaimState::Poisoned ==> r == Err::<Claim, Error>(Error::AudioSystemPoisoned)
            && *final(state) == ClaimState::Poisoned,
        *old(state) == ClaimState::Free ==> match cycle {
            Some(c) if c > i32::MAX => r == Err::<Claim, Error>(Error::CpuMonitoringCycle(c))
                && *final(state) == ClaimState::Free,
            _ => r is Ok && *final(state) == ClaimState::Taken,
        },
        r matches Ok(claim) ==> !claim.spec_poisoned(),
{
    let claim = match Claim::take(state) {
        Ok(claim) => claim,
        Err(refusal) => return Err(refusal),
    };
    if let Some(c) = cycle {
        if let Err(refusal) = check_cycle(c) {
            state.release(claim);
            return Err(refusal);
        }
    }
    Ok(claim)
}

/// The step between taking the claim and `Bela_initAudio`, once the
/// settings are resolved: `raw` is Bela's defaults with the program's
/// [`Settings`](crate::settings::Settings) applied over them and then
/// the command line, whose parse answered `parsed`. In this order: the
/// command line's own error, the crate's checks of what was resolved
/// ([`spec_crate_checks`], the CPU monitoring period among them), then
/// the application's verdict from `validate`. Every refusal gives the
/// claim back unpoisoned, so the state is free again; nothing here has
/// touched libbela's audio system yet.
pub fn resolve_init<F>(
    claim: Claim,
    state: &mut ClaimState,
    raw: &InitSettings,
    cycle: Option<u32>,
    parsed: Result<(), Error>,
    validate: F,
) -> (r: Result<Claim, Error>)
    where
        F: FnOnce(&ResolvedSettings) -> Result<(), &'static str>,
    requires
        *old(state) == ClaimState::Taken,
        !claim.spec_poisoned(),
        forall|s: &ResolvedSettings| validate.requires((s,)),
    ensures
        r is Err ==> *final(state) == ClaimState::Free,
        r matches Ok(c) ==> *final(state) == ClaimState::Taken && !c.spec_poisoned(),
        parsed is Err ==> r == Err::<Claim, Error>(parsed->Err_0),
        parsed is Ok && spec_crate_checks(*raw, cycle) is Err ==> r == Err::<Claim, Error>(
            spec_crate_checks(*raw, cycle)->Err_0,
        ),
        parsed is Ok && spec_crate_checks(*raw, cycle) is Ok ==> exists|verdict: Result<(), &'static str>| {
            &&& validate.ensures((&ResolvedSettings::spec_new(*raw, cycle),), verdict)
            &&& match spec_verdict(verdict) {
                Ok(()) => r is Ok,
                Err(e) => r == Err::<Claim, Error>(e),
            }
        },
{
    if let Err(refusal) = parsed {
        state.release(claim);
        return Err(refusal);
    }
    match check_supported(raw, cycle, validate) {
        Ok(()) => Ok(claim),
        Err(refusal) => {
            state.release(claim);
            Err(refusal)
        },
    }
}

/// What `Bela_initAudio` answering `ret` becomes. A failure leaves
/// libbela holding what it managed to take, so the claim is poisoned:
/// no later audio system in the process may be built.
pub fn init_result(ret: i32, claim: &mut Claim) -> (result: Result<(), Error>)
    ensures
        ret == 0 ==> result == Ok::<(), Error>(()) && final(claim).spec_poisoned() == old(
            claim,
        ).spec_poisoned(),
        ret != 0 ==> result == Err::<(), Error>(Error::Init(ret)) && final(claim).spec_poisoned(),
{
    if ret != 0 {
        claim.poison();
        return Err(Error::Init(ret));
    }
    Ok(())
}

/// What `Bela_startAudio` answering `ret` becomes.
pub fn start_result(ret: i32) -> (result: Result<(), Error>)
    ensures
        ret == 0 ==> result == Ok::<(), Error>(()),
        ret != 0 ==> result == Err::<(), Error>(Error::Start(ret)),
{
    if ret != 0 {
        Err(Error::Start(ret))
    } else {
        Ok(())
    }
}

/// What a run that refused `faults` callbacks while it was live ends in.
pub fn run_result(faults: u32) -> (result: Result<(), Error>)
    ensures
        faults == 0 ==> result == Ok::<(), Error>(()),
        faults != 0 ==> result == Err::<(), Error>(Error::CallbackFaults(faults)),
{
    if faults == 0 {
        Ok(())
    } else {
        Err(Error::CallbackFaults(faults))
    }
}

/// Whether the audio system has been started, which decides what
/// starting and stopping it do.
#[derive(Debug)]
pub struct Started {
    started: bool,
}

impl Started {
    /// Whether the audio system is running.
    pub closed spec fn spec_started(&self) -> bool {
        self.started
    }

    /// An audio system that has been built but not started.
    pub fn new() -> (state: Self)
        ensures
            !state.spec_started(),
    {
        Self { started: false }
    }

    /// Whether the audio system is running.
    pub fn is_started(&self) -> (started: bool)
        ensures
            started == self.spec_started(),
    {
        self.started
    }

    /// Records what asking libbela to start answered, `ret`: starting a
    /// running system asks nothing and succeeds.
    pub fn start(&mut self, ret: i32) -> (result: Result<(), Error>)
        ensures
            old(self).spec_started() ==> result == Ok::<(), Error>(()) && final(self).spec_started(),
            !old(self).spec_started() && ret == 0 ==> result == Ok::<(), Error>(())
                && final(self).spec_started(),
            !old(self).spec_started() && ret != 0 ==> result == Err::<(), Error>(Error::Start(ret))
                && !final(self).spec_started(),
    {
        if self.started {
            return Ok(());
        }
        let result = start_result(ret);
        if ret == 0 {
            self.started = true;
        }
        result
    }

    /// Records that the audio system was stopped, returning whether there
    /// was anything to stop.
    pub fn stop(&mut self) -> (was_running: bool)
        ensures
            was_running == old(self).spec_started(),
            !final(self).spec_started(),
    {
        let was = self.started;
        self.started = false;
        was
    }
}

} // verus!
