//! The claim on the Bela audio system.
//!
//! libbela keeps the audio system in globals, so there may only ever be
//! one at a time. The claim is taken first, and everything that touches
//! those globals happens behind it.
//!
//! The claim has a third state, because a failed `Bela_initAudio`
//! leaves libbela believing an audio system is up and offers no way to
//! put that back. A claim released as poisoned is never free again, so
//! a second attempt is refused here instead of failing inside libbela.
//!
//! [`ClaimState`] is the state that the process keeps once; a
//! [`Claim`] is what taking it hands out, and what
//! [`ClaimState::release`] gives back.

use vstd::prelude::*;

use crate::error::Error;

verus! {

/// What the audio system in a process is currently doing.
#[derive(Debug, Clone, Copy, PartialEq, Eq, Structural)]
pub enum ClaimState {
    /// No audio system exists and one may be built.
    Free,
    /// An audio system exists.
    Taken,
    /// An initialisation failed partway through and libbela cannot be
    /// asked again. Terminal: nothing sets the state back from here.
    Poisoned,
}

/// Proof that this is the only audio system in the process.
///
/// Give it back with [`ClaimState::release`]. A claim
/// [poisoned](Claim::poison) first releases into
/// [`ClaimState::Poisoned`] instead, which no later claim can take.
#[derive(Debug)]
pub struct Claim {
    poisoned: bool,
}

/// What taking the claim leaves behind, and what it hands out.
pub open spec fn spec_after_take(state: ClaimState) -> ClaimState {
    match state {
        ClaimState::Free => ClaimState::Taken,
        other => other,
    }
}

/// What the state becomes when a claim is given back.
pub open spec fn spec_after_release(poisoned: bool) -> ClaimState {
    if poisoned {
        ClaimState::Poisoned
    } else {
        ClaimState::Free
    }
}

impl Claim {
    /// Whether releasing this claim leaves the audio system unusable
    /// rather than free.
    pub closed spec fn spec_poisoned(&self) -> bool {
        self.poisoned
    }

    /// Takes the claim, or reports why it cannot be taken.
    ///
    /// # Errors
    /// Returns [`Error::AudioSystemExists`] when an audio system already
    /// exists, and [`Error::AudioSystemPoisoned`] when an initialisation
    /// failed earlier in this process.
    pub fn take(state: &mut ClaimState) -> (claim: Result<Claim, Error>)
        ensures
            *final(state) == spec_after_take(*old(state)),
            *old(state) == ClaimState::Free <==> claim is Ok,
            claim matches Ok(c) ==> !c.spec_poisoned(),
            *old(state) == ClaimState::Taken ==> claim == Err::<Claim, Error>(Error::AudioSystemExists),
            *old(state) == ClaimState::Poisoned ==> claim == Err::<Claim, Error>(
                Error::AudioSystemPoisoned,
            ),
    {
        match *state {
            ClaimState::Free => {
                *state = ClaimState::Taken;
                Ok(Claim { poisoned: false })
            },
            ClaimState::Poisoned => Err(Error::AudioSystemPoisoned),
            ClaimState::Taken => Err(Error::AudioSystemExists),
        }
    }

    /// Gives up on the audio system for the rest of the process: for
    /// the one case that cannot be undone, a `Bela_initAudio` that failed
    /// partway through.
    pub fn poison(&mut self)
        ensures
            final(self).spec_poisoned(),
    {
        self.poisoned = true;
    }

    /// Whether this claim was poisoned.
    pub fn is_poisoned(&self) -> (poisoned: bool)
        ensures
            poisoned == self.spec_poisoned(),
    {
        self.poisoned
    }
}

impl ClaimState {
    /// The state of a process in which no audio system was ever built.
    pub fn new() -> (state: Self)
        ensures
            state == ClaimState::Free,
    {
        ClaimState::Free
    }

    /// Gives `claim` back: the state becomes free, or poisoned if the
    /// claim was.
    pub fn release(&mut self, claim: Claim)
        ensures
            *final(self) == spec_after_release(claim.spec_poisoned()),
    {
        *self = if claim.poisoned { ClaimState::Poisoned } else { ClaimState::Free };
    }
}

/// Only one claim exists at a time: whatever the state, once the claim
/// has been asked for it is not free, so no second claim can be taken
/// until one is given back.
pub proof fn lemma_only_one_claim_at_a_time(state: ClaimState)
    ensures
        spec_after_take(state) != ClaimState::Free,
        spec_take_times(state, 2) == spec_after_take(state),
{
    reveal_with_fuel(spec_take_times, 3);
}

/// A poisoned state is never free again: taking is refused and leaves it
/// poisoned, however many times it is asked.
pub proof fn lemma_poison_is_terminal(times: nat)
    ensures
        spec_take_times(ClaimState::Poisoned, times) == ClaimState::Poisoned,
    decreases times,
{
    if times > 0 {
        lemma_poison_is_terminal((times - 1) as nat);
    }
}

/// The state after asking for the claim `times` times, none of which is
/// given back.
pub open spec fn spec_take_times(state: ClaimState, times: nat) -> ClaimState
    decreases times,
{
    if times == 0 {
        state
    } else {
        spec_take_times(spec_after_take(state), (times - 1) as nat)
    }
}

/// A claim given back unpoisoned leaves the state free, so the next one
/// can be taken; one given back poisoned leaves it refused.
pub proof fn lemma_an_unpoisoned_claim_frees(poisoned: bool)
    ensures
        !poisoned ==> spec_after_take(spec_after_release(poisoned)) == ClaimState::Taken,
        poisoned ==> spec_after_take(spec_after_release(poisoned)) == ClaimState::Poisoned,
{
}

} // verus!
