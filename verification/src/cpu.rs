//! CPU monitoring: how much of the block deadline is actually used.

use vstd::prelude::*;

use crate::error::Error;

verus! {

/// The largest period size, in frames, that libbela renders on the
/// thread it measures. Above it the application callback runs behind
/// libbela's context FIFO, on a thread of its own, and the monitoring
/// would measure a thread that does not render.
pub const MAX_MONITORED_PERIOD_SIZE: u32 = 128;

/// Why an acquisition cycle of `cycle` measurements cannot be handed to
/// libbela, if it cannot: it has to fit the C `int` libbela takes.
pub open spec fn spec_check_cycle(cycle: u32) -> Result<i32, Error> {
    if cycle > i32::MAX {
        Err(Error::CpuMonitoringCycle(cycle))
    } else {
        Ok(cycle as i32)
    }
}

/// The acquisition cycle as the C `int` libbela takes it.
///
/// # Errors
/// Returns [`Error::CpuMonitoringCycle`] for a cycle above `i32::MAX`.
pub fn check_cycle(cycle: u32) -> (count: Result<i32, Error>)
    ensures
        count == spec_check_cycle(cycle),
{
    if cycle > i32::MAX as u32 {
        Err(Error::CpuMonitoringCycle(cycle))
    } else {
        Ok(cycle as i32)
    }
}

/// Whether a period of `period_size` frames can be monitored.
pub open spec fn spec_check_period_size(period_size: u32) -> Result<(), Error> {
    if period_size > MAX_MONITORED_PERIOD_SIZE {
        Err(Error::CpuMonitoringPeriodSize(period_size))
    } else {
        Ok(())
    }
}

/// Refuses monitoring a period libbela renders on another thread.
///
/// # Errors
/// Returns [`Error::CpuMonitoringPeriodSize`] for a period above
/// [`MAX_MONITORED_PERIOD_SIZE`].
pub fn check_period_size(period_size: u32) -> (result: Result<(), Error>)
    ensures
        result == spec_check_period_size(period_size),
{
    if period_size > MAX_MONITORED_PERIOD_SIZE {
        Err(Error::CpuMonitoringPeriodSize(period_size))
    } else {
        Ok(())
    }
}

/// The acquisition cycle libbela is given: the number of measurements
/// asked for, or `i32::MAX` for one that does not fit in the C `int` it
/// takes, which would come out as something else entirely.
pub open spec fn spec_monitoring_count(measurements_per_cycle: u32) -> i32 {
    if measurements_per_cycle <= i32::MAX { measurements_per_cycle as i32 } else { i32::MAX }
}

/// The acquisition cycle libbela is given for `measurements_per_cycle`.
pub fn monitoring_count(measurements_per_cycle: u32) -> (count: i32)
    ensures
        count == spec_monitoring_count(measurements_per_cycle),
{
    if measurements_per_cycle <= i32::MAX as u32 {
        measurements_per_cycle as i32
    } else {
        i32::MAX
    }
}

/// Proof that libbela's own monitoring of the audio thread is on.
#[derive(Debug, Clone, Copy)]
pub struct CpuMonitor {
    enabled: (),
}

impl CpuMonitor {
    /// Turns on the monitoring libbela does of the whole audio thread,
    /// publishing the busy share every `measurements_per_cycle` blocks.
    ///
    /// # Errors
    /// Returns [`Error::CpuMonitoring`] when libbela cannot set the
    /// monitoring up, which is what always happens away from a board,
    /// where there is no audio thread to monitor.
    pub fn enable(measurements_per_cycle: u32) -> (monitor: Result<Self, Error>)
        requires
            measurements_per_cycle > 0,
        ensures
            monitor == Err::<Self, Error>(Error::CpuMonitoring),
    {
        let count = monitoring_count(measurements_per_cycle);
        Self::init(count)
    }

    /// Sets libbela's monitoring up for a cycle of `count` measurements;
    /// away from a board there is nothing to set up.
    fn init(count: i32) -> (monitor: Result<Self, Error>)
        ensures
            monitor == Err::<Self, Error>(Error::CpuMonitoring),
    {
        Err(Error::CpuMonitoring)
    }
}

} // verus!
