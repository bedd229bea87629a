use bela::cpu::{check_cycle, check_period_size, monitoring_count, CpuMonitor, MAX_MONITORED_PERIOD_SIZE};
use bela::error::Error;

#[test]
fn monitoring_cannot_be_enabled_off_device() {
    let error = CpuMonitor::enable(1000).unwrap_err();
    assert_eq!(
        error,
        Error::CpuMonitoring,
        "off-device there is no audio thread to monitor"
    );
}

#[test]
fn a_cycle_too_long_for_a_c_int_saturates() {
    assert_eq!(monitoring_count(1000), 1000);
    assert_eq!(monitoring_count(i32::MAX as u32), i32::MAX);
    assert_eq!(monitoring_count(u32::MAX), i32::MAX);
}

#[test]
fn a_cycle_that_does_not_fit_a_c_int_is_refused() {
    assert_eq!(check_cycle(2000), Ok(2000));
    assert_eq!(check_cycle(i32::MAX as u32), Ok(i32::MAX));
    assert_eq!(
        check_cycle(i32::MAX as u32 + 1),
        Err(Error::CpuMonitoringCycle(i32::MAX as u32 + 1))
    );
}

#[test]
fn a_period_above_the_monitored_limit_is_refused() {
    assert_eq!(check_period_size(MAX_MONITORED_PERIOD_SIZE), Ok(()));
    assert_eq!(
        check_period_size(MAX_MONITORED_PERIOD_SIZE + 1),
        Err(Error::CpuMonitoringPeriodSize(MAX_MONITORED_PERIOD_SIZE + 1))
    );
    assert_eq!(
        Error::CpuMonitoringPeriodSize(256).to_string(),
        "CPU monitoring needs a period size of at most 128 frames, not 256: above that libbela renders on a separate thread from the one it measures"
    );
}
