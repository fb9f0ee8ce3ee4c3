use net_watchdog::monitor::{
    run_script, step, MonitorState, Observation, StepResult, FAILURE_THRESHOLD,
};
use net_watchdog::probe::{command_succeeded, CommandResult};

#[test]
fn counter_tracks_consecutive_failures() {
    let report = run_script(&vec![false, true, false, false, true]);
    assert_eq!(report.counters, vec![1, 0, 1, 2, 0]);
    assert_eq!(report.final_state, MonitorState::Healthy);
    assert_eq!(report.reboots, 0);
    assert_eq!(report.probes, 5);
}

#[test]
fn success_resets_counter_immediately() {
    let report = run_script(&vec![false, false, true, false]);
    assert_eq!(report.counters, vec![1, 2, 0, 1]);
    assert_eq!(report.reboots, 0);
}

#[test]
fn no_reboot_below_threshold() {
    let report = run_script(&vec![false, false]);
    assert_eq!(report.counters, vec![1, 2]);
    assert_eq!(report.reboots, 0);
    assert_eq!(report.final_state, MonitorState::Degraded { failures: 2 });
}

#[test]
fn reboot_exactly_at_threshold() {
    assert_eq!(FAILURE_THRESHOLD, 3);
    let below = step(MonitorState::Healthy, false);
    assert!(!below.reboot);
    let still_below = step(MonitorState::Degraded { failures: 1 }, false);
    assert!(!still_below.reboot);
    let at_threshold = step(MonitorState::Degraded { failures: 2 }, false);
    assert!(at_threshold.reboot);
    assert_eq!(at_threshold.next, MonitorState::Rebooting);
}

#[test]
fn scenario_two_failures_then_recovery() {
    let report = run_script(&vec![false, false, true]);
    assert_eq!(report.counters, vec![1, 2, 0]);
    assert_eq!(report.reboots, 0);
    assert_eq!(report.probes, 3);
    assert_eq!(report.final_state, MonitorState::Healthy);
    assert_eq!(
        report.observations,
        vec![
            Observation::ProbeFailed { failures: 1, threshold: 3 },
            Observation::ProbeFailed { failures: 2, threshold: 3 },
            Observation::Recovered { failures: 2 },
            Observation::ProbeSucceeded,
        ]
    );
}

#[test]
fn scenario_three_failures_reboot_once() {
    let report = run_script(&vec![false, false, false]);
    assert_eq!(report.counters, vec![1, 2, 3]);
    assert_eq!(report.reboots, 1);
    assert_eq!(report.probes, 3);
    assert_eq!(report.final_state, MonitorState::Rebooting);
    assert_eq!(
        report.observations,
        vec![
            Observation::ProbeFailed { failures: 1, threshold: 3 },
            Observation::ProbeFailed { failures: 2, threshold: 3 },
            Observation::ProbeFailed { failures: 3, threshold: 3 },
            Observation::RebootInitiated { threshold: 3 },
        ]
    );
}

#[test]
fn no_probes_after_reboot() {
    let terminated = run_script(&vec![false, false, false]);
    let with_more = run_script(&vec![false, false, false, true, false, true]);
    assert_eq!(with_more.probes, 3);
    assert_eq!(with_more.counters, terminated.counters);
    assert_eq!(with_more.observations, terminated.observations);
    assert_eq!(with_more.reboots, 1);
    assert_eq!(with_more.final_state, MonitorState::Rebooting);
}

#[test]
fn recovery_notice_only_after_failures() {
    let healthy_success = step(MonitorState::Healthy, true);
    assert_eq!(healthy_success.observations, vec![Observation::ProbeSucceeded]);
    let degraded_success = step(MonitorState::Degraded { failures: 1 }, true);
    assert_eq!(
        degraded_success.observations,
        vec![Observation::Recovered { failures: 1 }, Observation::ProbeSucceeded]
    );
    let all_good = run_script(&vec![true, true]);
    assert_eq!(
        all_good.observations,
        vec![Observation::ProbeSucceeded, Observation::ProbeSucceeded]
    );
}

#[test]
fn probe_tool_error_counts_as_plain_failure() {
    assert!(!command_succeeded(&CommandResult::NotLaunched));
    assert!(!command_succeeded(&CommandResult::Exited { success: false }));
    assert!(command_succeeded(&CommandResult::Exited { success: true }));

    let from_tool_error: StepResult = step(
        MonitorState::Healthy,
        command_succeeded(&CommandResult::NotLaunched),
    );
    let from_failed_probe: StepResult = step(
        MonitorState::Healthy,
        command_succeeded(&CommandResult::Exited { success: false }),
    );
    assert_eq!(from_tool_error.next, from_failed_probe.next);
    assert_eq!(from_tool_error.observations, from_failed_probe.observations);
    assert_eq!(from_tool_error.reboot, from_failed_probe.reboot);
}

#[test]
fn failed_reboot_action_still_terminates() {
    // The reboot action's own failure changes nothing in the monitor: the
    // run has already ended, with no retry and no further probes.
    let report = run_script(&vec![false, false, false, false]);
    assert!(!command_succeeded(&CommandResult::Exited { success: false }));
    assert!(!command_succeeded(&CommandResult::NotLaunched));
    assert_eq!(report.reboots, 1);
    assert_eq!(report.probes, 3);
    assert_eq!(report.final_state, MonitorState::Rebooting);
}
