//! Audio system configuration: the overrides an application builds,
//! the settings they resolve to, and the checks made on those before
//! the audio system is brought up.

use vstd::prelude::*;

use crate::error::Error;
use crate::cpu::{check_period_size, spec_check_period_size};

verus! {

/// The settings libbela initialises the audio system with, as plain
/// values: what `Bela_defaultSettings` produced, with [`Settings`] and
/// the command line applied on top.
#[derive(Debug, Clone, Copy, PartialEq, Eq, Hash, Default)]
pub struct InitSettings {
    /// Audio frames per block.
    pub period_size: i32,
    /// The audio sample rate in whole Hz; zero is a codec that is not enabled.
    pub audio_sample_rate: u32,
    /// Non-zero when analog I/O is enabled.
    pub use_analog: i32,
    /// Non-zero when digital I/O is enabled.
    pub use_digital: i32,
    /// Analog input channels.
    pub num_analog_in_channels: i32,
    /// Analog output channels.
    pub num_analog_out_channels: i32,
    /// Digital channels.
    pub num_digital_channels: i32,
    /// Non-zero when underruns are detected.
    pub detect_underruns: i32,
    /// Non-zero for verbose diagnostics.
    pub verbose: i32,
    /// Non-zero for high-performance mode.
    pub high_performance_mode: i32,
    /// Non-zero when analog and digital I/O run at the audio rate.
    pub uniform_sample_rate: i32,
    /// The GPIO the stop button is read from, or negative for none.
    pub stop_button_pin: i32,
    /// Render threads, where 0 is another spelling of 1.
    pub thread_count: u32,
    /// Non-zero when the speaker amplifier starts muted.
    pub begin_muted: i32,
    /// Multiplexer channels, 0 for off.
    pub num_mux_channels: i32,
    /// The PRU the audio code runs on.
    pub pru_number: i32,
}

/// Whether the stop button is read from a pin or not at all.
#[derive(Debug, Clone, Copy, PartialEq, Eq, Hash)]
pub enum StopButtonPin {
    /// Read from this GPIO.
    Gpio(u32),
    /// Not read at all.
    Disabled,
}

/// The overrides a [`Settings`] carries, each `None` when Bela's
/// default is kept.
pub struct SettingsModel {
    /// The override of `period_size`.
    pub period_size: Option<u32>,
    /// The override of `audio_sample_rate`.
    pub audio_sample_rate: Option<u32>,
    /// The override of `use_analog`.
    pub use_analog: Option<bool>,
    /// The override of `use_digital`.
    pub use_digital: Option<bool>,
    /// The override of `num_analog_in_channels`.
    pub num_analog_in_channels: Option<u32>,
    /// The override of `num_analog_out_channels`.
    pub num_analog_out_channels: Option<u32>,
    /// The override of `num_digital_channels`.
    pub num_digital_channels: Option<u32>,
    /// The override of `detect_underruns`.
    pub detect_underruns: Option<bool>,
    /// The override of `verbose`.
    pub verbose: Option<bool>,
    /// The override of `high_performance_mode`.
    pub high_performance_mode: Option<bool>,
    /// The override of `uniform_sample_rate`.
    pub uniform_sample_rate: Option<bool>,
    /// The override of `stop_button_pin`.
    pub stop_button_pin: Option<StopButtonPin>,
    /// The override of `thread_count`.
    pub thread_count: Option<u32>,
    /// The override of `cpu_monitoring`.
    pub cpu_monitoring: Option<u32>,
    /// The override of `begin_muted`.
    pub begin_muted: Option<bool>,
}

/// A C `int` for a count that is unsigned here, saturating at the
/// largest one rather than wrapping to a negative number.
pub open spec fn spec_to_c_int(value: u32) -> i32 {
    if value <= i32::MAX { value as i32 } else { i32::MAX }
}

/// A C `int` for a flag.
pub open spec fn spec_flag(value: bool) -> i32 {
    if value { 1 } else { 0 }
}

/// `raw` with every override in `s` written over it.
pub open spec fn spec_apply(s: SettingsModel, raw: InitSettings) -> InitSettings {
    InitSettings {
        period_size: match s.period_size { Some(v) => spec_to_c_int(v), None => raw.period_size },
        audio_sample_rate: match s.audio_sample_rate { Some(v) => v, None => raw.audio_sample_rate },
        use_analog: match s.use_analog { Some(v) => spec_flag(v), None => raw.use_analog },
        use_digital: match s.use_digital { Some(v) => spec_flag(v), None => raw.use_digital },
        num_analog_in_channels: match s.num_analog_in_channels { Some(v) => spec_to_c_int(v), None => raw.num_analog_in_channels },
        num_analog_out_channels: match s.num_analog_out_channels { Some(v) => spec_to_c_int(v), None => raw.num_analog_out_channels },
        num_digital_channels: match s.num_digital_channels { Some(v) => spec_to_c_int(v), None => raw.num_digital_channels },
        detect_underruns: match s.detect_underruns { Some(v) => spec_flag(v), None => raw.detect_underruns },
        verbose: match s.verbose { Some(v) => spec_flag(v), None => raw.verbose },
        high_performance_mode: match s.high_performance_mode { Some(v) => spec_flag(v), None => raw.high_performance_mode },
        uniform_sample_rate: match s.uniform_sample_rate { Some(v) => spec_flag(v), None => raw.uniform_sample_rate },
        stop_button_pin: match s.stop_button_pin {
            Some(StopButtonPin::Gpio(pin)) => spec_to_c_int(pin),
            Some(StopButtonPin::Disabled) => -1i32,
            None => raw.stop_button_pin,
        },
        thread_count: match s.thread_count { Some(v) => v, None => raw.thread_count },
        begin_muted: match s.begin_muted { Some(v) => spec_flag(v), None => raw.begin_muted },
        num_mux_channels: raw.num_mux_channels,
        pru_number: raw.pru_number,
    }
}

/// The overrides an application applies on top of Bela's defaults.
///
/// Every field starts unset, which keeps whatever
/// `Bela_defaultSettings()` chose; the builder methods override one
/// each.
#[derive(Debug, Clone, Copy, PartialEq, Eq, Hash)]
pub struct Settings {
    period_size: Option<u32>,
    audio_sample_rate: Option<u32>,
    use_analog: Option<bool>,
    use_digital: Option<bool>,
    num_analog_in_channels: Option<u32>,
    num_analog_out_channels: Option<u32>,
    num_digital_channels: Option<u32>,
    detect_underruns: Option<bool>,
    verbose: Option<bool>,
    high_performance_mode: Option<bool>,
    uniform_sample_rate: Option<bool>,
    stop_button_pin: Option<StopButtonPin>,
    thread_count: Option<u32>,
    cpu_monitoring: Option<u32>,
    begin_muted: Option<bool>,
}

impl View for Settings {
    type V = SettingsModel;

    closed spec fn view(&self) -> SettingsModel {
        SettingsModel {
            period_size: self.period_size,
            audio_sample_rate: self.audio_sample_rate,
            use_analog: self.use_analog,
            use_digital: self.use_digital,
            num_analog_in_channels: self.num_analog_in_channels,
            num_analog_out_channels: self.num_analog_out_channels,
            num_digital_channels: self.num_digital_channels,
            detect_underruns: self.detect_underruns,
            verbose: self.verbose,
            high_performance_mode: self.high_performance_mode,
            uniform_sample_rate: self.uniform_sample_rate,
            stop_button_pin: self.stop_button_pin,
            thread_count: self.thread_count,
            cpu_monitoring: self.cpu_monitoring,
            begin_muted: self.begin_muted,
        }
    }
}

/// The empty set of overrides.
pub open spec fn spec_no_overrides() -> SettingsModel {
    SettingsModel {
        period_size: None,
        audio_sample_rate: None,
        use_analog: None,
        use_digital: None,
        num_analog_in_channels: None,
        num_analog_out_channels: None,
        num_digital_channels: None,
        detect_underruns: None,
        verbose: None,
        high_performance_mode: None,
        uniform_sample_rate: None,
        stop_button_pin: None,
        thread_count: None,
        cpu_monitoring: None,
        begin_muted: None,
    }
}

/// Whether the overrides that stand for a non-zero count are non-zero.
pub open spec fn spec_settings_wf(s: SettingsModel) -> bool {
    &&& (s.audio_sample_rate matches Some(v) ==> v > 0)
    &&& (s.thread_count matches Some(v) ==> v > 0)
    &&& (s.cpu_monitoring matches Some(v) ==> v > 0)
}

impl Default for Settings {
    /// The same empty set of overrides as [`Settings::new`].
    fn default() -> (settings: Self)
        ensures
            settings@ == spec_no_overrides(),
    {
        Self::new()
    }
}

impl Settings {
    #[verifier::type_invariant]
    closed spec fn inv(self) -> bool {
        spec_settings_wf(self@)
    }

    /// An empty set of overrides: everything is left at Bela's
    /// defaults.
    pub fn new() -> (settings: Self)
        ensures
            settings@ == spec_no_overrides(),
    {
        Self {
            period_size: None,
            audio_sample_rate: None,
            use_analog: None,
            use_digital: None,
            num_analog_in_channels: None,
            num_analog_out_channels: None,
            num_digital_channels: None,
            detect_underruns: None,
            verbose: None,
            high_performance_mode: None,
            uniform_sample_rate: None,
            stop_button_pin: None,
            thread_count: None,
            cpu_monitoring: None,
            begin_muted: None,
        }
    }

    /// The number of audio frames per block.
    pub fn period_size(self, frames: u32) -> (settings: Self)
        ensures
            settings@ == (SettingsModel { period_size: Some(frames), ..self@ }),
    {
        proof { use_type_invariant(&self); }
        Self { period_size: Some(frames), ..self }
    }

    /// The audio sample rate in Hz.
    ///
    /// A rate the codec cannot run at is still accepted here; what the
    /// board makes of it is the codec's business.
    pub fn audio_sample_rate(self, hz: u32) -> (settings: Self)
        requires
            hz > 0,
        ensures
            settings@ == (SettingsModel { audio_sample_rate: Some(hz), ..self@ }),
    {
        proof { use_type_invariant(&self); }
        Self { audio_sample_rate: Some(hz), ..self }
    }

    /// Whether analog I/O is enabled.
    pub fn use_analog(self, enabled: bool) -> (settings: Self)
        ensures
            settings@ == (SettingsModel { use_analog: Some(enabled), ..self@ }),
    {
        proof { use_type_invariant(&self); }
        Self { use_analog: Some(enabled), ..self }
    }

    /// Whether digital (GPIO) I/O is enabled.
    pub fn use_digital(self, enabled: bool) -> (settings: Self)
        ensures
            settings@ == (SettingsModel { use_digital: Some(enabled), ..self@ }),
    {
        proof { use_type_invariant(&self); }
        Self { use_digital: Some(enabled), ..self }
    }

    /// The number of analog input channels.
    pub fn num_analog_in_channels(self, channels: u32) -> (settings: Self)
        ensures
            settings@ == (SettingsModel { num_analog_in_channels: Some(channels), ..self@ }),
    {
        proof { use_type_invariant(&self); }
        Self { num_analog_in_channels: Some(channels), ..self }
    }

    /// The number of analog output channels.
    pub fn num_analog_out_channels(self, channels: u32) -> (settings: Self)
        ensures
            settings@ == (SettingsModel { num_analog_out_channels: Some(channels), ..self@ }),
    {
        proof { use_type_invariant(&self); }
        Self { num_analog_out_channels: Some(channels), ..self }
    }

    /// The number of digital channels.
    pub fn num_digital_channels(self, channels: u32) -> (settings: Self)
        ensures
            settings@ == (SettingsModel { num_digital_channels: Some(channels), ..self@ }),
    {
        proof { use_type_invariant(&self); }
        Self { num_digital_channels: Some(channels), ..self }
    }

    /// Whether underruns are detected and reported.
    pub fn detect_underruns(self, enabled: bool) -> (settings: Self)
        ensures
            settings@ == (SettingsModel { detect_underruns: Some(enabled), ..self@ }),
    {
        proof { use_type_invariant(&self); }
        Self { detect_underruns: Some(enabled), ..self }
    }

    /// Whether libbela prints verbose diagnostics.
    pub fn verbose(self, enabled: bool) -> (settings: Self)
        ensures
            settings@ == (SettingsModel { verbose: Some(enabled), ..self@ }),
    {
        proof { use_type_invariant(&self); }
        Self { verbose: Some(enabled), ..self }
    }

    /// Whether high-performance mode is enabled, which gives the audio
    /// thread more of the CPU at the expense of the rest of the system.
    pub fn high_performance_mode(self, enabled: bool) -> (settings: Self)
        ensures
            settings@ == (SettingsModel { high_performance_mode: Some(enabled), ..self@ }),
    {
        proof { use_type_invariant(&self); }
        Self { high_performance_mode: Some(enabled), ..self }
    }

    /// Whether analog and digital I/O run at the audio sample rate.
    pub fn uniform_sample_rate(self, enabled: bool) -> (settings: Self)
        ensures
            settings@ == (SettingsModel { uniform_sample_rate: Some(enabled), ..self@ }),
    {
        proof { use_type_invariant(&self); }
        Self { uniform_sample_rate: Some(enabled), ..self }
    }

    /// The GPIO the stop button is read from, or `None` to not read
    /// one at all.
    pub fn stop_button_pin(self, pin: Option<u32>) -> (settings: Self)
        ensures
            settings@ == (SettingsModel {
                stop_button_pin: Some(match pin {
                    Some(pin) => StopButtonPin::Gpio(pin),
                    None => StopButtonPin::Disabled,
                }),
                ..self@
            }),
    {
        proof { use_type_invariant(&self); }
        let choice = match pin {
            Some(pin) => StopButtonPin::Gpio(pin),
            None => StopButtonPin::Disabled,
        };
        Self { stop_button_pin: Some(choice), ..self }
    }

    /// How many threads render each block.
    pub fn thread_count(self, threads: u32) -> (settings: Self)
        requires
            threads > 0,
        ensures
            settings@ == (SettingsModel { thread_count: Some(threads), ..self@ }),
    {
        proof { use_type_invariant(&self); }
        Self { thread_count: Some(threads), ..self }
    }

    /// Turns on libbela's CPU monitoring of the audio thread, averaged over
    /// `measurements_per_cycle` blocks.
    ///
    /// This is not an init setting: the audio system applies it with a
    /// call of its own, so `apply_to` leaves it alone.
    pub fn cpu_monitoring(self, measurements_per_cycle: u32) -> (settings: Self)
        requires
            measurements_per_cycle > 0,
        ensures
            settings@ == (SettingsModel { cpu_monitoring: Some(measurements_per_cycle), ..self@ }),
    {
        proof { use_type_invariant(&self); }
        Self { cpu_monitoring: Some(measurements_per_cycle), ..self }
    }

    /// Whether the speaker amplifier starts muted.
    pub fn begin_muted(self, muted: bool) -> (settings: Self)
        ensures
            settings@ == (SettingsModel { begin_muted: Some(muted), ..self@ }),
    {
        proof { use_type_invariant(&self); }
        Self { begin_muted: Some(muted), ..self }
    }

    /// The CPU monitoring cycle asked for, if monitoring was.
    pub fn cpu_monitoring_cycle(&self) -> (cycle: Option<u32>)
        ensures
            cycle == self@.cpu_monitoring,
            cycle matches Some(c) ==> c > 0,
    {
        proof { use_type_invariant(self); }
        self.cpu_monitoring
    }

    /// Writes every override into `raw`, leaving the fields that have
    /// none as they were. CPU monitoring is not among them: it is a
    /// separate call, made by the audio system.
    pub fn apply_to(&self, raw: &mut InitSettings)
        ensures
            *final(raw) == spec_apply(self@, *old(raw)),
    {
        if let Some(v) = self.period_size {
            raw.period_size = to_c_int(v);
        }
        if let Some(v) = self.audio_sample_rate {
            raw.audio_sample_rate = v;
        }
        if let Some(v) = self.use_analog {
            raw.use_analog = flag(v);
        }
        if let Some(v) = self.use_digital {
            raw.use_digital = flag(v);
        }
        if let Some(v) = self.num_analog_in_channels {
            raw.num_analog_in_channels = to_c_int(v);
        }
        if let Some(v) = self.num_analog_out_channels {
            raw.num_analog_out_channels = to_c_int(v);
        }
        if let Some(v) = self.num_digital_channels {
            raw.num_digital_channels = to_c_int(v);
        }
        if let Some(v) = self.detect_underruns {
            raw.detect_underruns = flag(v);
        }
        if let Some(v) = self.verbose {
            raw.verbose = flag(v);
        }
        if let Some(v) = self.high_performance_mode {
            raw.high_performance_mode = flag(v);
        }
        if let Some(v) = self.uniform_sample_rate {
            raw.uniform_sample_rate = flag(v);
        }
        if let Some(stop_button_pin) = self.stop_button_pin {
            raw.stop_button_pin = match stop_button_pin {
                StopButtonPin::Gpio(pin) => to_c_int(pin),
                StopButtonPin::Disabled => -1,
            };
        }
        if let Some(v) = self.thread_count {
            raw.thread_count = v;
        }
        if let Some(v) = self.begin_muted {
            raw.begin_muted = flag(v);
        }
    }
}

/// A C `int` for a count that is unsigned here: settings values far
/// exceed `c_int::MAX` in no realistic configuration, so saturate
/// rather than wrap if one ever does.
pub fn to_c_int(value: u32) -> (c: i32)
    ensures
        c == spec_to_c_int(value),
{
    if value <= 2147483647u32 { value as i32 } else { 2147483647i32 }
}

/// A C `int` for a flag: 1 for true, 0 for false.
pub fn flag(value: bool) -> (c: i32)
    ensures
        c == spec_flag(value),
{
    if value { 1 } else { 0 }
}


/// Applying no overrides leaves the settings as they were.
pub proof fn lemma_no_overrides_change_nothing(raw: InitSettings)
    ensures
        spec_apply(spec_no_overrides(), raw) == raw,
{
}

/// Applying the same overrides twice is applying them once.
pub proof fn lemma_apply_is_idempotent(s: SettingsModel, raw: InitSettings)
    ensures
        spec_apply(s, spec_apply(s, raw)) == spec_apply(s, raw),
{
}

/// Every override is written into its own field, as the C field holds
/// it: a count as that number (saturated at the largest C `int`), a flag
/// as 1 or 0, a rate and a thread count as they are, a stop-button pin as
/// its number or -1 for none; a field with no override keeps the value
/// it had.
pub proof fn lemma_each_override_is_written(s: SettingsModel, raw: InitSettings)
    ensures
        s.period_size matches Some(v) ==> spec_apply(s, raw).period_size as int == if v <= i32::MAX { v as int } else { i32::MAX as int },
        s.period_size is None ==> spec_apply(s, raw).period_size == raw.period_size,
        s.num_analog_in_channels matches Some(v) ==> spec_apply(s, raw).num_analog_in_channels as int == if v <= i32::MAX { v as int } else { i32::MAX as int },
        s.num_analog_in_channels is None ==> spec_apply(s, raw).num_analog_in_channels == raw.num_analog_in_channels,
        s.num_analog_out_channels matches Some(v) ==> spec_apply(s, raw).num_analog_out_channels as int == if v <= i32::MAX { v as int } else { i32::MAX as int },
        s.num_analog_out_channels is None ==> spec_apply(s, raw).num_analog_out_channels == raw.num_analog_out_channels,
        s.num_digital_channels matches Some(v) ==> spec_apply(s, raw).num_digital_channels as int == if v <= i32::MAX { v as int } else { i32::MAX as int },
        s.num_digital_channels is None ==> spec_apply(s, raw).num_digital_channels == raw.num_digital_channels,
        s.use_analog matches Some(on) ==> spec_apply(s, raw).use_analog == if on { 1i32 } else { 0i32 },
        s.use_analog is None ==> spec_apply(s, raw).use_analog == raw.use_analog,
        s.use_digital matches Some(on) ==> spec_apply(s, raw).use_digital == if on { 1i32 } else { 0i32 },
        s.use_digital is None ==> spec_apply(s, raw).use_digital == raw.use_digital,
        s.detect_underruns matches Some(on) ==> spec_apply(s, raw).detect_underruns == if on { 1i32 } else { 0i32 },
        s.detect_underruns is None ==> spec_apply(s, raw).detect_underruns == raw.detect_underruns,
        s.verbose matches Some(on) ==> spec_apply(s, raw).verbose == if on { 1i32 } else { 0i32 },
        s.verbose is None ==> spec_apply(s, raw).verbose == raw.verbose,
        s.high_performance_mode matches Some(on) ==> spec_apply(s, raw).high_performance_mode == if on { 1i32 } else { 0i32 },
        s.high_performance_mode is None ==> spec_apply(s, raw).high_performance_mode == raw.high_performance_mode,
        s.uniform_sample_rate matches Some(on) ==> spec_apply(s, raw).uniform_sample_rate == if on { 1i32 } else { 0i32 },
        s.uniform_sample_rate is None ==> spec_apply(s, raw).uniform_sample_rate == raw.uniform_sample_rate,
        s.begin_muted matches Some(on) ==> spec_apply(s, raw).begin_muted == if on { 1i32 } else { 0i32 },
        s.begin_muted is None ==> spec_apply(s, raw).begin_muted == raw.begin_muted,
        s.audio_sample_rate matches Some(v) ==> spec_apply(s, raw).audio_sample_rate == v,
        s.audio_sample_rate is None ==> spec_apply(s, raw).audio_sample_rate == raw.audio_sample_rate,
        s.thread_count matches Some(v) ==> spec_apply(s, raw).thread_count == v,
        s.thread_count is None ==> spec_apply(s, raw).thread_count == raw.thread_count,
        s.stop_button_pin matches Some(StopButtonPin::Gpio(pin)) ==> spec_apply(s, raw).stop_button_pin as int == if pin <= i32::MAX { pin as int } else { i32::MAX as int },
        s.stop_button_pin == Some(StopButtonPin::Disabled) ==> spec_apply(s, raw).stop_button_pin == -1i32,
        s.stop_button_pin is None ==> spec_apply(s, raw).stop_button_pin == raw.stop_button_pin,
{
}

/// Overrides never touch what they have no field for: the multiplexer
/// and the PRU are the defaults' and the command line's alone.
pub proof fn lemma_apply_keeps_the_rest(s: SettingsModel, raw: InitSettings)
    ensures
        spec_apply(s, raw).num_mux_channels == raw.num_mux_channels,
        spec_apply(s, raw).pru_number == raw.pru_number,
{
}

/// The analog input channels the multiplexer needs.
pub const MULTIPLEXER_ANALOG_CHANNELS: i32 = 8;

/// What the crate refuses of resolved settings, in the order it checks:
/// a sample rate of zero, a PRU other than 0 or 1, and — only when a
/// multiplexer is asked for — a channel count other than 2, 4 or 8, a
/// PRU other than 1, the analog inputs disabled, or other than 8 of
/// them.
pub open spec fn spec_check_resolved(raw: InitSettings) -> Result<(), Error> {
    if raw.audio_sample_rate == 0 {
        Err(Error::SampleRate)
    } else if raw.pru_number < 0 || raw.pru_number > 1 {
        Err(Error::PruNumber(raw.pru_number))
    } else if raw.num_mux_channels == 0 {
        Ok(())
    } else if !(raw.num_mux_channels == 2 || raw.num_mux_channels == 4 || raw.num_mux_channels == 8) {
        Err(Error::MultiplexerChannels(raw.num_mux_channels))
    } else if raw.pru_number != 1 {
        Err(Error::MultiplexerPru(raw.pru_number))
    } else if raw.use_analog == 0 {
        Err(Error::MultiplexerWithoutAnalog)
    } else if raw.num_analog_in_channels != MULTIPLEXER_ANALOG_CHANNELS {
        Err(Error::MultiplexerAnalogChannels(raw.num_analog_in_channels))
    } else {
        Ok(())
    }
}

/// Checks the resolved settings for what would fail inside
/// `Bela_initAudio`, or after it in the PRU firmware, where nothing is
/// left to report with and the process cannot build another audio
/// system.
pub fn check_resolved(raw: &InitSettings) -> (result: Result<(), Error>)
    ensures
        result == spec_check_resolved(*raw),
{
    if raw.audio_sample_rate == 0 {
        return Err(Error::SampleRate);
    }
    if raw.pru_number < 0 || raw.pru_number > 1 {
        return Err(Error::PruNumber(raw.pru_number));
    }
    if raw.num_mux_channels == 0 {
        return Ok(());
    }
    if !(raw.num_mux_channels == 2 || raw.num_mux_channels == 4 || raw.num_mux_channels == 8) {
        return Err(Error::MultiplexerChannels(raw.num_mux_channels));
    }
    if raw.pru_number != 1 {
        return Err(Error::MultiplexerPru(raw.pru_number));
    }
    if raw.use_analog == 0 {
        return Err(Error::MultiplexerWithoutAnalog);
    }
    if raw.num_analog_in_channels != MULTIPLEXER_ANALOG_CHANNELS {
        return Err(Error::MultiplexerAnalogChannels(raw.num_analog_in_channels));
    }
    Ok(())
}

/// How many threads render a block: a thread count of zero is
/// libbela's other spelling of one.
pub open spec fn spec_render_threads(raw: InitSettings) -> nat {
    if raw.thread_count == 0 { 1 } else { raw.thread_count as nat }
}

/// How many threads render a block under these settings.
pub fn render_threads(raw: &InitSettings) -> (threads: usize)
    ensures
        threads == spec_render_threads(*raw),
        threads >= 1,
{
    let count = raw.thread_count as usize;
    if count == 0 { 1 } else { count }
}

/// The settings an audio system is about to be built with, as an
/// application sees them: every layer applied, the command line
/// included, and CPU monitoring, which is not part of the C settings.
#[derive(Debug, Clone, Copy)]
pub struct ResolvedSettings {
    raw: InitSettings,
    cpu_monitoring: Option<u32>,
}

impl ResolvedSettings {
    /// The view of `raw` with `cpu_monitoring` as the cycle asked for.
    pub closed spec fn spec_new(raw: InitSettings, cpu_monitoring: Option<u32>) -> Self {
        ResolvedSettings { raw, cpu_monitoring }
    }

    /// The resolved settings this view is of.
    pub closed spec fn spec_raw(&self) -> InitSettings {
        self.raw
    }

    /// The CPU monitoring cycle this view carries.
    pub closed spec fn spec_cpu_monitoring(&self) -> Option<u32> {
        self.cpu_monitoring
    }

    /// A view of `raw`, with `cpu_monitoring` as the cycle asked for.
    pub fn new(raw: &InitSettings, cpu_monitoring: Option<u32>) -> (settings: Self)
        ensures
            settings == Self::spec_new(*raw, cpu_monitoring),
            settings.spec_raw() == *raw,
            settings.spec_cpu_monitoring() == cpu_monitoring,
    {
        Self { raw: *raw, cpu_monitoring }
    }

    /// The whole structure, for what has no accessor here.
    pub fn as_sys(&self) -> (raw: &InitSettings)
        ensures
            *raw == self.spec_raw(),
    {
        &self.raw
    }

    /// Audio frames per block.
    pub fn period_size(&self) -> (frames: i32)
        ensures
            frames == self.spec_raw().period_size,
    {
        self.raw.period_size
    }

    /// The audio sample rate, in whole Hz.
    pub fn audio_sample_rate(&self) -> (hz: u32)
        ensures
            hz == self.spec_raw().audio_sample_rate,
    {
        self.raw.audio_sample_rate
    }

    /// Whether analog I/O is enabled.
    pub fn use_analog(&self) -> (enabled: bool)
        ensures
            enabled == (self.spec_raw().use_analog != 0),
    {
        self.raw.use_analog != 0
    }

    /// Analog input channels.
    pub fn num_analog_in_channels(&self) -> (channels: i32)
        ensures
            channels == self.spec_raw().num_analog_in_channels,
    {
        self.raw.num_analog_in_channels
    }

    /// Analog output channels.
    pub fn num_analog_out_channels(&self) -> (channels: i32)
        ensures
            channels == self.spec_raw().num_analog_out_channels,
    {
        self.raw.num_analog_out_channels
    }

    /// Whether digital I/O is enabled.
    pub fn use_digital(&self) -> (enabled: bool)
        ensures
            enabled == (self.spec_raw().use_digital != 0),
    {
        self.raw.use_digital != 0
    }

    /// Digital channels.
    pub fn num_digital_channels(&self) -> (channels: i32)
        ensures
            channels == self.spec_raw().num_digital_channels,
    {
        self.raw.num_digital_channels
    }

    /// How many threads render a block, with zero read as one.
    pub fn thread_count(&self) -> (threads: usize)
        ensures
            threads == spec_render_threads(self.spec_raw()),
    {
        render_threads(&self.raw)
    }

    /// Whether analog and digital I/O run at the audio rate.
    pub fn uniform_sample_rate(&self) -> (uniform: bool)
        ensures
            uniform == (self.spec_raw().uniform_sample_rate != 0),
    {
        self.raw.uniform_sample_rate != 0
    }

    /// Whether high-performance mode is on.
    pub fn high_performance_mode(&self) -> (on: bool)
        ensures
            on == (self.spec_raw().high_performance_mode != 0),
    {
        self.raw.high_performance_mode != 0
    }

    /// Whether underruns are detected.
    pub fn detect_underruns(&self) -> (on: bool)
        ensures
            on == (self.spec_raw().detect_underruns != 0),
    {
        self.raw.detect_underruns != 0
    }

    /// Whether libbela prints verbose diagnostics.
    pub fn verbose(&self) -> (on: bool)
        ensures
            on == (self.spec_raw().verbose != 0),
    {
        self.raw.verbose != 0
    }

    /// Whether the speaker amplifier starts muted.
    pub fn begin_muted(&self) -> (muted: bool)
        ensures
            muted == (self.spec_raw().begin_muted != 0),
    {
        self.raw.begin_muted != 0
    }

    /// The CPU monitoring cycle, if monitoring was asked for.
    pub fn cpu_monitoring(&self) -> (cycle: Option<u32>)
        ensures
            cycle == self.spec_cpu_monitoring(),
    {
        self.cpu_monitoring
    }

    /// The GPIO the stop button is read from, or `None` for a negative
    /// pin, which is how it is turned off.
    pub fn stop_button_pin(&self) -> (pin: Option<u32>)
        ensures
            self.spec_raw().stop_button_pin < 0 ==> pin is None,
            self.spec_raw().stop_button_pin >= 0 ==> pin == Some(self.spec_raw().stop_button_pin as u32),
    {
        let pin = self.raw.stop_button_pin;
        if pin < 0 { None } else { Some(pin as u32) }
    }
}

/// An application's answer about the resolved settings, as the error
/// it becomes.
pub open spec fn spec_verdict(verdict: Result<(), &'static str>) -> Result<(), Error> {
    match verdict {
        Ok(()) => Ok(()),
        Err(reason) => Err(Error::SettingsRefused(reason)),
    }
}

/// The period size CPU monitoring is checked against: the resolved
/// one, with a negative period (which the C field can hold and no period
/// is) read as larger than any limit.
pub open spec fn spec_monitored_period(raw: InitSettings) -> u32 {
    if raw.period_size < 0 { u32::MAX } else { raw.period_size as u32 }
}

/// What the crate itself refuses in the resolved settings: what
/// [`check_resolved`] refuses, then, when CPU monitoring is on, a period
/// too long to be monitored.
pub open spec fn spec_crate_checks(raw: InitSettings, cpu_monitoring: Option<u32>) -> Result<(), Error> {
    if spec_check_resolved(raw) is Err {
        spec_check_resolved(raw)
    } else if cpu_monitoring is Some {
        spec_check_period_size(spec_monitored_period(raw))
    } else {
        Ok(())
    }
}

/// The crate's own checks on the resolved settings, then the
/// application's: [`check_resolved`], then, with CPU monitoring on, the
/// period size against
/// [`MAX_MONITORED_PERIOD_SIZE`](crate::cpu::MAX_MONITORED_PERIOD_SIZE), and only once the
/// crate has nothing to refuse is `validate` asked; what it refuses
/// comes back as [`Error::SettingsRefused`] carrying its reason.
pub fn check_supported<F>(raw: &InitSettings, cpu_monitoring: Option<u32>, validate: F) -> (result: Result<(), Error>)
    where
        F: FnOnce(&ResolvedSettings) -> Result<(), &'static str>,
    requires
        forall|s: &ResolvedSettings| validate.requires((s,)),
    ensures
        spec_crate_checks(*raw, cpu_monitoring) is Err ==> result == spec_crate_checks(*raw, cpu_monitoring),
        spec_crate_checks(*raw, cpu_monitoring) is Ok ==> exists|verdict: Result<(), &'static str>| {
            &&& validate.ensures((&ResolvedSettings::spec_new(*raw, cpu_monitoring),), verdict)
            &&& result == spec_verdict(verdict)
        },
{
    if let Err(refusal) = check_resolved(raw) {
        return Err(refusal);
    }
    if cpu_monitoring.is_some() {
        let period_size: u32 = if raw.period_size < 0 { u32::MAX } else { raw.period_size as u32 };
        if let Err(refusal) = check_period_size(period_size) {
            return Err(refusal);
        }
    }
    let resolved = ResolvedSettings::new(raw, cpu_monitoring);
    let verdict = validate(&resolved);
    proof {
        assert(validate.ensures((&ResolvedSettings::spec_new(*raw, cpu_monitoring),), verdict));
    }
    let result = match verdict {
        Ok(()) => Ok(()),
        Err(reason) => Err(Error::SettingsRefused(reason)),
    };
    proof {
        assert(result == spec_verdict(verdict));
    }
    result
}

} // verus!
