//! A connectivity watchdog: a failure-counting state machine that probes a
//! target at a fixed interval and escalates to a host reboot after a run of
//! consecutive probe failures.

pub mod monitor;
pub mod probe;
