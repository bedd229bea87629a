use bela::error::Error;
use bela::cpu::MAX_MONITORED_PERIOD_SIZE;
use bela::settings::{check_resolved, check_supported, render_threads, InitSettings, ResolvedSettings, Settings};

const NEEDS_EIGHT: &str = "this application reads eight analog inputs";
const NEEDS_ONE_THREAD: &str = "this application renders on one thread";
const NEEDS_MONITORING: &str = "this application reports the CPU usage of every block";

fn needs_eight(settings: &ResolvedSettings) -> Result<(), &'static str> {
    if settings.num_analog_in_channels() < 8 {
        return Err(NEEDS_EIGHT);
    }
    Ok(())
}

fn needs_monitoring(settings: &ResolvedSettings) -> Result<(), &'static str> {
    if settings.cpu_monitoring().is_some() {
        Ok(())
    } else {
        Err(NEEDS_MONITORING)
    }
}

fn single_threaded(settings: &ResolvedSettings) -> Result<(), &'static str> {
    if settings.thread_count() == 1 {
        Ok(())
    } else {
        Err(NEEDS_ONE_THREAD)
    }
}

fn anything(_settings: &ResolvedSettings) -> Result<(), &'static str> {
    Ok(())
}

/// What `Bela_defaultSettings` sets, the fields that matter here.
fn fake_defaults() -> InitSettings {
    InitSettings {
        audio_sample_rate: 44100,
        period_size: 16,
        use_analog: 1,
        num_analog_in_channels: 8,
        num_analog_out_channels: 8,
        num_mux_channels: 0,
        pru_number: 1,
        uniform_sample_rate: 1,
        stop_button_pin: 115,
        verbose: 0,
        ..InitSettings::default()
    }
}

fn with_multiplexer(channels: i32) -> InitSettings {
    let mut raw = fake_defaults();
    raw.num_mux_channels = channels;
    raw
}

#[test]
fn default_is_the_same_empty_set_of_overrides_as_new() {
    assert_eq!(Settings::default(), Settings::new());
}

#[test]
fn a_whole_configuration_can_be_a_const() {
    let settings = Settings::new().period_size(64).thread_count(4);

    let mut raw = fake_defaults();
    settings.apply_to(&mut raw);

    assert_eq!(raw.period_size, 64);
    assert_eq!(raw.thread_count, 4);
}

#[test]
fn empty_settings_leave_defaults_untouched() {
    let mut raw = fake_defaults();
    Settings::new().apply_to(&mut raw);

    assert_eq!(raw.period_size, 16);
    assert_eq!(raw.audio_sample_rate, 44100);
    assert_eq!(raw.use_analog, 1);
    assert_eq!(raw.uniform_sample_rate, 1);
    assert_eq!(raw.stop_button_pin, 115);
}

#[test]
fn an_audio_sample_rate_is_written_to_the_c_field() {
    let mut raw = fake_defaults();
    Settings::new().audio_sample_rate(48000).apply_to(&mut raw);

    assert_eq!(raw.audio_sample_rate, 48000);
}

#[test]
fn the_command_line_overrides_a_configured_sample_rate() {
    let mut raw = fake_defaults();
    Settings::new().audio_sample_rate(48000).apply_to(&mut raw);
    assert_eq!(raw.audio_sample_rate, 48000);

    raw.audio_sample_rate = 96000;
    assert_eq!(raw.audio_sample_rate, 96000);
}

#[test]
fn set_fields_override_defaults() {
    let mut raw = fake_defaults();
    Settings::new()
        .period_size(64)
        .use_analog(false)
        .verbose(true)
        .stop_button_pin(None)
        .thread_count(4)
        .apply_to(&mut raw);

    assert_eq!(raw.period_size, 64);
    assert_eq!(raw.use_analog, 0);
    assert_eq!(raw.verbose, 1);
    assert_eq!(raw.stop_button_pin, -1);
    assert_eq!(raw.thread_count, 4);
    assert_eq!(raw.uniform_sample_rate, 1);
}

#[test]
fn a_stop_button_pin_is_an_unsigned_gpio_number() {
    let mut raw = fake_defaults();
    Settings::new().stop_button_pin(Some(27)).apply_to(&mut raw);
    assert_eq!(raw.stop_button_pin, 27);

    Settings::new().stop_button_pin(Some(u32::MAX)).apply_to(&mut raw);
    assert_eq!(raw.stop_button_pin, i32::MAX);
}

#[test]
fn bools_map_to_c_ints() {
    let mut raw = fake_defaults();
    Settings::new()
        .use_digital(true)
        .detect_underruns(false)
        .high_performance_mode(true)
        .uniform_sample_rate(false)
        .begin_muted(true)
        .apply_to(&mut raw);

    assert_eq!(raw.use_digital, 1);
    assert_eq!(raw.detect_underruns, 0);
    assert_eq!(raw.high_performance_mode, 1);
    assert_eq!(raw.uniform_sample_rate, 0);
    assert_eq!(raw.begin_muted, 1);
}

#[test]
fn coming_up_unmuted_is_still_said_out_loud() {
    let mut raw = fake_defaults();
    raw.begin_muted = 1;

    Settings::new().begin_muted(false).apply_to(&mut raw);

    assert_eq!(raw.begin_muted, 0);
}

#[test]
fn cpu_monitoring_is_recorded_but_not_an_init_setting() {
    let settings = Settings::new().cpu_monitoring(2000);
    assert_eq!(settings.cpu_monitoring_cycle(), Some(2000));
    assert_eq!(
        Settings::new().cpu_monitoring_cycle(),
        None,
        "monitoring should be off unless it was asked for"
    );

    let mut raw = fake_defaults();
    let untouched = fake_defaults();
    settings.apply_to(&mut raw);
    assert_eq!(raw, untouched);
}

#[test]
fn both_spellings_of_one_render_thread_count_as_one() {
    for spelling in [0, 1] {
        let raw = InitSettings { thread_count: spelling, ..InitSettings::default() };
        assert_eq!(render_threads(&raw), 1, "threadCount {spelling}");
    }
}

#[test]
fn extra_render_threads_are_counted_as_asked_for() {
    let raw = InitSettings { thread_count: 4, ..InitSettings::default() };
    assert_eq!(render_threads(&raw), 4);
}

#[test]
fn belas_own_defaults_are_accepted() {
    assert_eq!(check_resolved(&fake_defaults()), Ok(()));
}

#[test]
fn a_sample_rate_of_zero_is_refused() {
    let mut raw = fake_defaults();
    raw.audio_sample_rate = 0;

    assert_eq!(check_resolved(&raw), Err(Error::SampleRate));
}

#[test]
fn both_prus_are_accepted() {
    for number in [0, 1] {
        let mut raw = fake_defaults();
        raw.pru_number = number;

        assert_eq!(check_resolved(&raw), Ok(()), "PRU {number}");
    }
}

#[test]
fn a_pru_the_board_does_not_have_is_refused() {
    for number in [-1, 2, 5] {
        let mut raw = fake_defaults();
        raw.pru_number = number;

        assert_eq!(check_resolved(&raw), Err(Error::PruNumber(number)), "PRU {number}");
    }
}

#[test]
fn the_multiplexer_channel_counts_libbela_takes_are_accepted() {
    for channels in [0, 2, 4, 8] {
        assert_eq!(check_resolved(&with_multiplexer(channels)), Ok(()), "{channels} multiplexer channels");
    }
}

#[test]
fn any_other_multiplexer_channel_count_is_refused() {
    for channels in [-1, 1, 3, 16] {
        assert_eq!(
            check_resolved(&with_multiplexer(channels)),
            Err(Error::MultiplexerChannels(channels)),
            "{channels} multiplexer channels"
        );
    }
}

#[test]
fn the_multiplexer_is_refused_on_the_wrong_pru() {
    let mut raw = with_multiplexer(8);
    raw.pru_number = 0;

    assert_eq!(check_resolved(&raw), Err(Error::MultiplexerPru(0)));
}

#[test]
fn the_multiplexer_is_refused_without_the_analog_inputs() {
    let mut raw = with_multiplexer(8);
    raw.use_analog = 0;

    assert_eq!(check_resolved(&raw), Err(Error::MultiplexerWithoutAnalog));
}

#[test]
fn the_multiplexer_is_refused_with_any_other_number_of_analog_inputs() {
    for channels in [2, 4, 16] {
        let mut raw = with_multiplexer(8);
        raw.num_analog_in_channels = channels;

        assert_eq!(
            check_resolved(&raw),
            Err(Error::MultiplexerAnalogChannels(channels)),
            "{channels} analog input channels"
        );
    }
}

#[test]
fn the_multiplexer_rules_only_apply_when_it_is_on() {
    let mut raw = fake_defaults();
    raw.pru_number = 0;
    raw.use_analog = 0;
    raw.num_analog_in_channels = 2;

    assert_eq!(check_resolved(&raw), Ok(()));
}

#[test]
fn the_view_reports_the_settings_as_they_resolved() {
    let mut raw = fake_defaults();
    Settings::new()
        .period_size(64)
        .num_analog_in_channels(4)
        .use_digital(false)
        .verbose(true)
        .begin_muted(true)
        .stop_button_pin(Some(27))
        .apply_to(&mut raw);
    raw.audio_sample_rate = 48000;
    raw.thread_count = 4;

    let settings = ResolvedSettings::new(&raw, None);

    assert_eq!(settings.period_size(), 64);
    assert_eq!(settings.audio_sample_rate(), 48000);
    assert!(settings.use_analog());
    assert_eq!(settings.num_analog_in_channels(), 4);
    assert_eq!(settings.num_analog_out_channels(), 8);
    assert!(!settings.use_digital());
    assert_eq!(settings.thread_count(), 4);
    assert!(settings.uniform_sample_rate());
    assert!(!settings.high_performance_mode());
    assert!(settings.verbose());
    assert!(settings.begin_muted());
    assert_eq!(settings.stop_button_pin(), Some(27));
    assert_eq!(settings.as_sys().num_mux_channels, 0);
}

#[test]
fn the_view_spells_one_render_thread_and_no_stop_button_the_way_the_rest_of_the_crate_does() {
    let mut raw = fake_defaults();
    raw.thread_count = 0;
    raw.stop_button_pin = -1;

    let settings = ResolvedSettings::new(&raw, None);

    assert_eq!(settings.thread_count(), 1);
    assert_eq!(settings.stop_button_pin(), None);
}

#[test]
fn an_application_that_says_nothing_accepts_every_configuration() {
    assert_eq!(
        check_supported(&fake_defaults(), None, anything),
        Ok(()),
        "an application with nothing to say should accept Bela's own defaults"
    );
}

#[test]
fn an_application_can_refuse_the_resolved_settings() {
    let mut raw = fake_defaults();
    Settings::new().num_analog_in_channels(4).apply_to(&mut raw);

    assert_eq!(check_supported(&raw, None, needs_eight), Err(Error::SettingsRefused(NEEDS_EIGHT)));
    assert_eq!(check_supported(&fake_defaults(), None, needs_eight), Ok(()));
}

#[test]
fn an_application_can_refuse_a_resolved_thread_count() {
    let mut raw = fake_defaults();
    raw.thread_count = 4;

    assert_eq!(
        check_supported(&raw, None, single_threaded),
        Err(Error::SettingsRefused(NEEDS_ONE_THREAD))
    );

    for spelling in [0, 1] {
        raw.thread_count = spelling;

        assert_eq!(check_supported(&raw, None, single_threaded), Ok(()), "threadCount {spelling}");
    }
}

#[test]
fn an_application_sees_the_cpu_monitoring_that_is_not_in_the_c_settings() {
    let raw = fake_defaults();

    assert_eq!(check_supported(&raw, Some(2000), needs_monitoring), Ok(()));
    assert_eq!(
        check_supported(&raw, None, needs_monitoring),
        Err(Error::SettingsRefused(NEEDS_MONITORING))
    );
    assert_eq!(ResolvedSettings::new(&raw, Some(2000)).cpu_monitoring(), Some(2000));
    assert_eq!(ResolvedSettings::new(&raw, None).cpu_monitoring(), None);
}

#[test]
fn the_crates_own_checks_are_made_before_the_applications() {
    let mut raw = fake_defaults();
    raw.audio_sample_rate = 0;
    raw.num_analog_in_channels = 4;

    assert_eq!(check_supported(&raw, None, needs_eight), Err(Error::SampleRate));
}

#[test]
fn the_cpu_monitoring_period_size_is_checked_before_the_application_is_asked() {
    let mut raw = fake_defaults();
    raw.period_size = i32::try_from(MAX_MONITORED_PERIOD_SIZE)
        .expect("the monitored period size limit fits in a C int")
        + 1;
    raw.num_analog_in_channels = 4;

    let period_size = u32::try_from(raw.period_size).expect("the period size above is positive");
    assert_eq!(
        check_supported(&raw, Some(2000), needs_eight),
        Err(Error::CpuMonitoringPeriodSize(period_size))
    );
    assert_eq!(
        check_supported(&raw, None, needs_eight),
        Err(Error::SettingsRefused(NEEDS_EIGHT))
    );
}

#[test]
fn a_monitored_period_at_the_limit_goes_on_to_the_application() {
    let mut raw = fake_defaults();
    raw.period_size = i32::try_from(MAX_MONITORED_PERIOD_SIZE).expect("fits in a C int");
    assert_eq!(check_supported(&raw, Some(2000), needs_monitoring), Ok(()));
    raw.period_size = -1;
    assert_eq!(
        check_supported(&raw, Some(2000), needs_monitoring),
        Err(Error::CpuMonitoringPeriodSize(u32::MAX)),
        "a negative period is no period and cannot be monitored"
    );
}

#[test]
fn a_settings_and_a_command_line_half_make_the_same_refusal() {
    let mut from_settings = fake_defaults();
    Settings::new().num_analog_in_channels(4).apply_to(&mut from_settings);
    from_settings.num_mux_channels = 8;

    assert_eq!(check_resolved(&from_settings), Err(Error::MultiplexerAnalogChannels(4)));
}
