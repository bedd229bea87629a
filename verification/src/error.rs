//! Errors returned by the crate, and the messages that describe them.

use vstd::prelude::*;

use crate::text::{push_decimal, push_signed_decimal, decimal, signed_decimal};
use crate::cpu::MAX_MONITORED_PERIOD_SIZE;

verus! {

/// What `getopt` returns for an option it does not know, or one whose
/// value is missing: `'?'`.
pub const UNRECOGNISED_OPTION: i32 = 63;

/// What the MIDI shim reports for a port name that no port has. Kept
/// apart from every negative `errno` ALSA can report.
pub const MIDI_NO_SUCH_PORT: i32 = -1000;

/// What the MIDI shim reports for a direction of a port that is
/// already open on the same object.
pub const MIDI_ALREADY_OPEN: i32 = -1001;

/// Errors returned by the Bela audio system lifecycle and by the checks
/// the crate makes on its way there.
#[derive(Debug, Clone, Copy, PartialEq, Eq, Hash)]
#[non_exhaustive]
#[allow(inconsistent_fields)]
pub enum Error {
    /// `Bela_initAudio` failed with the contained return code.
    ///
    /// The initialisation it failed partway through is not undone, so this
    /// is fatal to the process rather than to the one attempt: every later
    /// attempt is refused with [`AudioSystemPoisoned`](Self::AudioSystemPoisoned).
    Init(i32),
    /// `Bela_startAudio` failed with the contained return code.
    Start(i32),
    /// The run ended with the contained number of callbacks refused for
    /// breaking the protocol the render states rely on.
    CallbackFaults(u32),
    /// An auxiliary task name contained a NUL byte.
    TaskName,
    /// `Bela_createAuxiliaryTask` failed, or the crate was built for a target
    /// with no audio system to create the task in.
    TaskCreate,
    /// An auxiliary task was created while an audio system was being torn
    /// down, which would have deleted it again immediately.
    TaskCreateWhileStopping,
    /// `Bela_cpuMonitoringInit` failed, or there is no audio thread to monitor.
    CpuMonitoring,
    /// The requested CPU monitoring acquisition cycle does not fit in a C
    /// `int`, which is how libbela takes it.
    CpuMonitoringCycle(u32),
    /// CPU monitoring was requested with a period size big enough that
    /// libbela runs `render` on a different thread from the one it measures.
    CpuMonitoringPeriodSize(u32),
    /// Another audio system already exists in this process.
    AudioSystemExists,
    /// An earlier `Bela_initAudio` in this process failed partway through,
    /// and no audio system can be built after that.
    AudioSystemPoisoned,
    /// An argument was not one of Bela's standard command-line options.
    ///
    /// Carries what `Bela_getopt_long` returned: `'?'` for an unrecognised
    /// option or one missing its value, or an internal option code.
    CommandLine(i32),
    /// A command-line argument contained a NUL byte, which a C string cannot
    /// carry.
    CommandLineNul,
    /// The settings resolved to an audio sample rate of zero, which libbela
    /// reports as a codec that is not enabled.
    SampleRate,
    /// The settings named a PRU other than 0 or 1.
    PruNumber(i32),
    /// The settings asked for a number of multiplexer channels libbela does
    /// not take: it accepts 0, which is off, and 2, 4 or 8.
    MultiplexerChannels(i32),
    /// The multiplexer was asked for while the audio code was pointed at a
    /// PRU other than 1, carried here.
    MultiplexerPru(i32),
    /// The multiplexer was asked for with the analog inputs disabled.
    MultiplexerWithoutAnalog,
    /// The multiplexer was asked for with a number of analog input channels
    /// other than the 8 it needs, carried here.
    MultiplexerAnalogChannels(i32),
    /// The application refused the resolved settings, for the reason it
    /// gave.
    SettingsRefused(&'static str),
    /// `Bela_setLineOutLevel` failed with the contained return code.
    LineOutLevel(i32),
    /// `Bela_setHpLevel` failed with the contained return code.
    HeadphoneLevel(i32),
    /// `Bela_setAudioInputGain` failed with the contained return code.
    AudioInputGain(i32),
    /// `Bela_muteSpeakers` failed with the contained return code.
    MuteSpeakers(i32),
    /// A MIDI port name contained a NUL byte.
    MidiPortName,
    /// A `Midi` object could not be created, or the crate was built for a
    /// target with no `libbelaextra` to create one in.
    MidiCreate,
    /// A MIDI port could not be opened, with what the shim reported:
    /// [`MIDI_NO_SUCH_PORT`] for a name no port has, or a negative `errno`
    /// when ALSA refused the device itself.
    MidiOpen(i32),
    /// A MIDI value did not fit the type it was converted into: what was
    /// given, the largest that type takes, and what the type is.
    MidiValue {
        /// What was given.
        value: u16,
        /// The largest the type takes.
        max: u16,
        /// What the type holds, as it reads in a sentence.
        kind: &'static str,
    },
    /// A render thread queued more MIDI messages between drains than the
    /// output's capacity allows.
    MidiQueueFull,
    /// MIDI was sent from a thread that cannot send it.
    MidiThread,
    /// A level or gain was not a number of decibels libbela can convert into
    /// register values.
    Decibels,
    /// A transform length was not a power of two from 8 to 65536.
    FftLength {
        /// What was given.
        value: usize,
    },
    /// A signal buffer was not the length the transform takes.
    FftSignalLen {
        /// What the plan transforms.
        expected: usize,
        /// What was given.
        actual: usize,
    },
    /// A spectrum buffer was not the length the transform takes.
    FftSpectrumLen {
        /// What the plan transforms.
        expected: usize,
        /// What was given.
        actual: usize,
    },
    /// NE10 refused to plan a transform of the contained length.
    FftCreate {
        /// The length it was asked for.
        length: usize,
    },
    /// There is no NE10 to plan a transform with on this target.
    FftUnavailable,
}

/// The sentence an error reads as.
pub open spec fn spec_message(e: Error) -> Seq<char> {
    match e {
        Error::Init(code) => "Bela_initAudio failed with code "@ + signed_decimal(code as int),
        Error::Start(code) => "Bela_startAudio failed with code "@ + signed_decimal(code as int),
        Error::CallbackFaults(faults) => decimal(faults as nat) + " callback(s) were refused for breaking the protocol the render states rely on, and the audio system was asked to stop"@,
        Error::TaskName => "the auxiliary task name contains a NUL byte"@,
        Error::TaskCreate => "Bela_createAuxiliaryTask failed"@,
        Error::TaskCreateWhileStopping => "auxiliary tasks cannot be created while the audio system is stopping"@,
        Error::CpuMonitoring => "Bela_cpuMonitoringInit failed"@,
        Error::CpuMonitoringCycle(count) => "the CPU monitoring cycle is "@ + decimal(count as nat) + " measurements, which does not fit in the C int libbela takes"@,
        Error::CpuMonitoringPeriodSize(frames) => "CPU monitoring needs a period size of at most "@ + decimal(MAX_MONITORED_PERIOD_SIZE as nat) + " frames, not "@ + decimal(frames as nat) + ": above that libbela renders on a separate thread from the one it measures"@,
        Error::AudioSystemExists => "a Bela audio system already exists in this process; the C API is a singleton"@,
        Error::AudioSystemPoisoned => "an earlier Bela_initAudio failed in this process, leaving libbela with an audio system it will not give back; start a new process"@,
        Error::CommandLine(code) => if code == UNRECOGNISED_OPTION { "an argument is not one of Bela's standard options, or is missing its value"@ } else { "the command line was rejected by Bela_getopt_long, which returned "@ + signed_decimal(code as int) },
        Error::CommandLineNul => "a command-line argument contains a NUL byte"@,
        Error::SampleRate => "the audio sample rate is 0, which libbela reports as a codec that is not enabled"@,
        Error::PruNumber(number) => "the audio code runs on PRU 0 or PRU 1, not PRU "@ + signed_decimal(number as int),
        Error::MultiplexerChannels(channels) => signed_decimal(channels as int) + " is not a number of multiplexer channels; the options are 0 for off, 2, 4 and 8"@,
        Error::MultiplexerPru(number) => "the multiplexer runs on PRU 1, and the audio code was pointed at PRU "@ + signed_decimal(number as int),
        Error::MultiplexerWithoutAnalog => "the multiplexer needs the analog inputs, which are disabled; libbela checks neither and the PRU firmware ends the process"@,
        Error::MultiplexerAnalogChannels(channels) => "the multiplexer needs 8 analog input channels, not "@ + signed_decimal(channels as int),
        Error::SettingsRefused(reason) => "the application refused the resolved settings: "@ + reason@,
        Error::LineOutLevel(code) => "Bela_setLineOutLevel failed with code "@ + signed_decimal(code as int),
        Error::HeadphoneLevel(code) => "Bela_setHpLevel failed with code "@ + signed_decimal(code as int),
        Error::AudioInputGain(code) => "Bela_setAudioInputGain failed with code "@ + signed_decimal(code as int),
        Error::MuteSpeakers(code) => "Bela_muteSpeakers failed with code "@ + signed_decimal(code as int),
        Error::MidiPortName => "the MIDI port name contains a NUL byte"@,
        Error::MidiCreate => "a Bela Midi object could not be created"@,
        Error::MidiOpen(code) => if code == MIDI_NO_SUCH_PORT { "no MIDI port has that name; it has to be one of those listed by midi_ports, which carry the subdevice, as in hw:0,0,0"@ } else if code == MIDI_ALREADY_OPEN { "that direction of this MIDI port is already open"@ } else { "the MIDI port could not be opened ("@ + signed_decimal(code as int) + "), which is -errno as ALSA reported it"@ },
        Error::MidiValue{ value, max, kind } => decimal(value as nat) + " is more than the "@ + decimal(max as nat) + " a "@ + kind@ + " carries"@,
        Error::MidiQueueFull => "this render thread's MIDI output queue is full; it holds what the program asked MidiOutput::open for, per drain"@,
        Error::MidiThread => "MIDI can only be sent from the thread that opened the port; a write from any other thread is lost and misaligns the output stream"@,
        Error::Decibels => "a level must be a finite number of decibels, no larger in magnitude than libbela can convert into register values"@,
        Error::FftLength{ value } => decimal(value as nat) + " is not a transform length; a length is a power of two from 8 to 65536"@,
        Error::FftSignalLen{ expected, actual } => "the signal buffer holds "@ + decimal(actual as nat) + " samples, and the transform takes "@ + decimal(expected as nat),
        Error::FftSpectrumLen{ expected, actual } => "the spectrum buffer holds "@ + decimal(actual as nat) + " bins, and the transform takes "@ + decimal(expected as nat),
        Error::FftCreate{ length } => "NE10 could not plan a transform of length "@ + decimal(length as nat),
        Error::FftUnavailable => "there is no NE10 to plan a transform with on this target"@,
    }
}

impl Error {
    /// The sentence this error reads as.
    pub fn to_string(&self) -> (text: String)
        ensures
            text@ == spec_message(*self),
    {
        let mut s = String::new();
        match *self {
            Error::Init(code) => {
                s.append("Bela_initAudio failed with code ");
                push_signed_decimal(&mut s, code as i64);
            },
            Error::Start(code) => {
                s.append("Bela_startAudio failed with code ");
                push_signed_decimal(&mut s, code as i64);
            },
            Error::CallbackFaults(faults) => {
                push_decimal(&mut s, faults as u64);
                s.append(" callback(s) were refused for breaking the protocol the render states rely on, and the audio system was asked to stop");
            },
            Error::TaskName => {
                s.append("the auxiliary task name contains a NUL byte");
            },
            Error::TaskCreate => {
                s.append("Bela_createAuxiliaryTask failed");
            },
            Error::TaskCreateWhileStopping => {
                s.append("auxiliary tasks cannot be created while the audio system is stopping");
            },
            Error::CpuMonitoring => {
                s.append("Bela_cpuMonitoringInit failed");
            },
            Error::CpuMonitoringCycle(count) => {
                s.append("the CPU monitoring cycle is ");
                push_decimal(&mut s, count as u64);
                s.append(" measurements, which does not fit in the C int libbela takes");
            },
            Error::CpuMonitoringPeriodSize(frames) => {
                s.append("CPU monitoring needs a period size of at most ");
                push_decimal(&mut s, MAX_MONITORED_PERIOD_SIZE as u64);
                s.append(" frames, not ");
                push_decimal(&mut s, frames as u64);
                s.append(": above that libbela renders on a separate thread from the one it measures");
            },
            Error::AudioSystemExists => {
                s.append("a Bela audio system already exists in this process; the C API is a singleton");
            },
            Error::AudioSystemPoisoned => {
                s.append("an earlier Bela_initAudio failed in this process, leaving libbela with an audio system it will not give back; start a new process");
            },
            Error::CommandLine(code) => {
                if code == UNRECOGNISED_OPTION {
                    s.append("an argument is not one of Bela's standard options, or is missing its value");
                }
                else {
                    s.append("the command line was rejected by Bela_getopt_long, which returned ");
                    push_signed_decimal(&mut s, code as i64);
                }
            },
            Error::CommandLineNul => {
                s.append("a command-line argument contains a NUL byte");
            },
            Error::SampleRate => {
                s.append("the audio sample rate is 0, which libbela reports as a codec that is not enabled");
            },
            Error::PruNumber(number) => {
                s.append("the audio code runs on PRU 0 or PRU 1, not PRU ");
                push_signed_decimal(&mut s, number as i64);
            },
            Error::MultiplexerChannels(channels) => {
                push_signed_decimal(&mut s, channels as i64);
                s.append(" is not a number of multiplexer channels; the options are 0 for off, 2, 4 and 8");
            },
            Error::MultiplexerPru(number) => {
                s.append("the multiplexer runs on PRU 1, and the audio code was pointed at PRU ");
                push_signed_decimal(&mut s, number as i64);
            },
            Error::MultiplexerWithoutAnalog => {
                s.append("the multiplexer needs the analog inputs, which are disabled; libbela checks neither and the PRU firmware ends the process");
            },
            Error::MultiplexerAnalogChannels(channels) => {
                s.append("the multiplexer needs 8 analog input channels, not ");
                push_signed_decimal(&mut s, channels as i64);
            },
            Error::SettingsRefused(reason) => {
                s.append("the application refused the resolved settings: ");
                s.append(reason);
            },
            Error::LineOutLevel(code) => {
                s.append("Bela_setLineOutLevel failed with code ");
                push_signed_decimal(&mut s, code as i64);
            },
            Error::HeadphoneLevel(code) => {
                s.append("Bela_setHpLevel failed with code ");
                push_signed_decimal(&mut s, code as i64);
            },
            Error::AudioInputGain(code) => {
                s.append("Bela_setAudioInputGain failed with code ");
                push_signed_decimal(&mut s, code as i64);
            },
            Error::MuteSpeakers(code) => {
                s.append("Bela_muteSpeakers failed with code ");
                push_signed_decimal(&mut s, code as i64);
            },
            Error::MidiPortName => {
                s.append("the MIDI port name contains a NUL byte");
            },
            Error::MidiCreate => {
                s.append("a Bela Midi object could not be created");
            },
            Error::MidiOpen(code) => {
                if code == MIDI_NO_SUCH_PORT {
                    s.append("no MIDI port has that name; it has to be one of those listed by midi_ports, which carry the subdevice, as in hw:0,0,0");
                }
                else if code == MIDI_ALREADY_OPEN {
                    s.append("that direction of this MIDI port is already open");
                }
                else {
                    s.append("the MIDI port could not be opened (");
                    push_signed_decimal(&mut s, code as i64);
                    s.append("), which is -errno as ALSA reported it");
                }
            },
            Error::MidiValue{ value, max, kind } => {
                push_decimal(&mut s, value as u64);
                s.append(" is more than the ");
                push_decimal(&mut s, max as u64);
                s.append(" a ");
                s.append(kind);
                s.append(" carries");
            },
            Error::MidiQueueFull => {
                s.append("this render thread's MIDI output queue is full; it holds what the program asked MidiOutput::open for, per drain");
            },
            Error::MidiThread => {
                s.append("MIDI can only be sent from the thread that opened the port; a write from any other thread is lost and misaligns the output stream");
            },
            Error::Decibels => {
                s.append("a level must be a finite number of decibels, no larger in magnitude than libbela can convert into register values");
            },
            Error::FftLength{ value } => {
                push_decimal(&mut s, value as u64);
                s.append(" is not a transform length; a length is a power of two from 8 to 65536");
            },
            Error::FftSignalLen{ expected, actual } => {
                s.append("the signal buffer holds ");
                push_decimal(&mut s, actual as u64);
                s.append(" samples, and the transform takes ");
                push_decimal(&mut s, expected as u64);
            },
            Error::FftSpectrumLen{ expected, actual } => {
                s.append("the spectrum buffer holds ");
                push_decimal(&mut s, actual as u64);
                s.append(" bins, and the transform takes ");
                push_decimal(&mut s, expected as u64);
            },
            Error::FftCreate{ length } => {
                s.append("NE10 could not plan a transform of length ");
                push_decimal(&mut s, length as u64);
            },
            Error::FftUnavailable => {
                s.append("there is no NE10 to plan a transform with on this target");
            },
        }
        proof {
            assert(s@ =~= spec_message(*self));
        }
        s
    }
}

} // verus!
