//! Safe model of the Bela core API's logic: settings, partitioning,
//! MIDI, and the protocol checks around the audio callbacks.

use vstd::prelude::*;

pub mod application;
pub mod text;
pub mod error;
pub mod midi;
pub mod fft;
pub mod settings;
pub mod runtime;
pub mod singleton;
pub mod task;
pub mod hardware;
pub mod version;
pub mod print;
pub mod digital;
pub mod level;
pub mod cpu;
pub mod vendor;
pub mod cmdline;
pub mod generate;
pub mod system;
pub mod midi_out;
pub mod link_args;

verus! {

/// Whether a stop of the audio system has been asked for. Away from a
/// board there is no audio system, so nothing has ever asked.
pub open spec fn spec_stop_requested() -> bool {
    false
}

/// Whether a stop has already been asked for, by anyone.
///
/// Callback code that reacts to a pending stop can call this on any
/// target; away from a board it is always `false`.
pub fn stop_requested() -> (requested: bool)
    ensures
        requested == spec_stop_requested(),
{
    false
}

} // verus!
