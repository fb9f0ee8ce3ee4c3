//! The monitor's failure-counting state machine.
//!
//! The monitor owns a single piece of state, the consecutive-failure streak.
//! Each probe outcome drives one transition: any success resets the streak to
//! zero, any failure lengthens it by one, and the streak reaching the
//! threshold escalates to the terminal `Rebooting` state, after which no
//! further probes are taken.

use vstd::prelude::*;

verus! {

/// Number of consecutive probe failures that triggers the reboot.
pub const FAILURE_THRESHOLD: u32 = 3;

/// The monitor's state: healthy, part-way into a failure streak, or
/// escalated (terminal).
#[derive(Clone, Copy, Debug, PartialEq, Eq, Structural)]
pub enum MonitorState {
    /// The last probe (if any) succeeded; the streak is zero.
    Healthy,
    /// `failures` consecutive probes have failed, still below the threshold.
    Degraded { failures: u32 },
    /// The threshold was reached and the reboot was invoked; terminal.
    Rebooting,
}

impl MonitorState {
    /// The consecutive-failure streak this state records.
    pub open spec fn counter(self) -> nat {
        match self {
            MonitorState::Healthy => 0,
            MonitorState::Degraded { failures } => failures as nat,
            MonitorState::Rebooting => FAILURE_THRESHOLD as nat,
        }
    }

    /// A degraded state records a streak strictly between zero and the
    /// threshold; the other states carry no field to constrain.
    pub open spec fn wf(self) -> bool {
        match self {
            MonitorState::Degraded { failures } => 1 <= failures < FAILURE_THRESHOLD,
            _ => true,
        }
    }

    /// The streak as a run-time value.
    pub fn counter_value(&self) -> (c: u32)
        ensures
            c == self.counter(),
    {
        match self {
            MonitorState::Healthy => 0,
            MonitorState::Degraded { failures } => *failures,
            MonitorState::Rebooting => FAILURE_THRESHOLD,
        }
    }
}

/// One entry of the log stream that a probe cycle emits.
#[derive(Clone, Copy, Debug, PartialEq, Eq, Structural)]
pub enum Observation {
    /// A success ended a streak of `failures` consecutive failures.
    Recovered { failures: u32 },
    /// The probe succeeded.
    ProbeSucceeded,
    /// The probe failed; the streak now stands at `failures` of `threshold`.
    ProbeFailed { failures: u32, threshold: u32 },
    /// The streak reached `threshold`: the reboot is being invoked.
    RebootInitiated { threshold: u32 },
}

/// The state after one probe outcome: a success makes the monitor healthy
/// again, a failure lengthens the streak, and a streak that reaches the
/// threshold escalates to the terminal state.
pub open spec fn spec_step(s: MonitorState, success: bool) -> MonitorState {
    if success {
        MonitorState::Healthy
    } else if s.counter() + 1 < FAILURE_THRESHOLD {
        MonitorState::Degraded { failures: (s.counter() + 1) as u32 }
    } else {
        MonitorState::Rebooting
    }
}

/// Whether this probe outcome invokes the reboot: exactly when a failure
/// brings the streak up to the threshold.
pub open spec fn spec_reboots(s: MonitorState, success: bool) -> bool {
    !success && s.counter() + 1 >= FAILURE_THRESHOLD
}

/// The observations one probe outcome emits: a recovery notice when a
/// success ends a non-empty streak, then the success itself; or the failure
/// with the new streak, followed by the reboot notice when the threshold is
/// reached.
pub open spec fn spec_observations(s: MonitorState, success: bool) -> Seq<Observation> {
    if success {
        if s.counter() == 0 {
            seq![Observation::ProbeSucceeded]
        } else {
            seq![
                (Observation::Recovered { failures: s.counter() as u32 }),
                Observation::ProbeSucceeded,
            ]
        }
    } else {
        if s.counter() + 1 < FAILURE_THRESHOLD {
            seq![
                (Observation::ProbeFailed {
                    failures: (s.counter() + 1) as u32,
                    threshold: FAILURE_THRESHOLD,
                }),
            ]
        } else {
            seq![
                (Observation::ProbeFailed {
                    failures: (s.counter() + 1) as u32,
                    threshold: FAILURE_THRESHOLD,
                }),
                (Observation::RebootInitiated { threshold: FAILURE_THRESHOLD }),
            ]
        }
    }
}

/// Everything one probe cycle decides: the next state, the log entries to
/// emit, and whether to invoke the reboot now.
pub struct StepResult {
    pub next: MonitorState,
    pub observations: Vec<Observation>,
    pub reboot: bool,
}

/// Apply one probe outcome to the monitor. Only a live (non-terminal) state
/// takes a probe: after the reboot transition no further probes occur.
pub fn step(s: MonitorState, success: bool) -> (r: StepResult)
    requires
        s.wf(),
        s !is Rebooting,
    ensures
        r.next == spec_step(s, success),
        r.next.wf(),
        r.observations@ == spec_observations(s, success),
        r.reboot == spec_reboots(s, success),
        r.reboot <==> r.next is Rebooting,
{
    let k = s.counter_value();
    if success {
        let mut observations: Vec<Observation> = Vec::new();
        if k > 0 {
            observations.push(Observation::Recovered { failures: k });
        }
        observations.push(Observation::ProbeSucceeded);
        proof {
            assert(observations@ =~= spec_observations(s, true));
        }
        StepResult { next: MonitorState::Healthy, observations, reboot: false }
    } else {
        let streak = k + 1;
        let mut observations: Vec<Observation> = Vec::new();
        observations.push(Observation::ProbeFailed {
            failures: streak,
            threshold: FAILURE_THRESHOLD,
        });
        if streak < FAILURE_THRESHOLD {
            proof {
                assert(observations@ =~= spec_observations(s, false));
            }
            StepResult {
                next: MonitorState::Degraded { failures: streak },
                observations,
                reboot: false,
            }
        } else {
            observations.push(Observation::RebootInitiated { threshold: FAILURE_THRESHOLD });
            proof {
                assert(observations@ =~= spec_observations(s, false));
            }
            StepResult { next: MonitorState::Rebooting, observations, reboot: true }
        }
    }
}

/// The state the monitor is in after a sequence of probe outcomes, starting
/// healthy. The terminal state absorbs: outcomes after it are never probed
/// and change nothing.
pub open spec fn run(outcomes: Seq<bool>) -> MonitorState
    decreases outcomes.len(),
{
    if outcomes.len() == 0 {
        MonitorState::Healthy
    } else {
        let prev = run(outcomes.drop_last());
        if prev is Rebooting {
            prev
        } else {
            spec_step(prev, outcomes.last())
        }
    }
}

/// All observations emitted over a sequence of probe outcomes, in order.
pub open spec fn run_observations(outcomes: Seq<bool>) -> Seq<Observation>
    decreases outcomes.len(),
{
    if outcomes.len() == 0 {
        Seq::<Observation>::empty()
    } else {
        let prev = run(outcomes.drop_last());
        if prev is Rebooting {
            run_observations(outcomes.drop_last())
        } else {
            run_observations(outcomes.drop_last()) + spec_observations(prev, outcomes.last())
        }
    }
}

/// How many of the outcomes are actually probed: all of them until the
/// terminal state is reached, none after.
pub open spec fn probes_taken(outcomes: Seq<bool>) -> nat
    decreases outcomes.len(),
{
    if outcomes.len() == 0 {
        0
    } else if run(outcomes.drop_last()) is Rebooting {
        probes_taken(outcomes.drop_last())
    } else {
        probes_taken(outcomes.drop_last()) + 1
    }
}

/// How many times the reboot is invoked over a sequence of probe outcomes.
pub open spec fn reboot_invocations(outcomes: Seq<bool>) -> nat
    decreases outcomes.len(),
{
    if outcomes.len() == 0 {
        0
    } else {
        let prev = run(outcomes.drop_last());
        if prev !is Rebooting && spec_reboots(prev, outcomes.last()) {
            reboot_invocations(outcomes.drop_last()) + 1
        } else {
            reboot_invocations(outcomes.drop_last())
        }
    }
}

/// The number of consecutive failures at the end of a sequence of outcomes,
/// counted back from the end to the last success.
pub open spec fn trailing_failures(outcomes: Seq<bool>) -> nat
    decreases outcomes.len(),
{
    if outcomes.len() == 0 {
        0
    } else if outcomes.last() {
        0
    } else {
        trailing_failures(outcomes.drop_last()) + 1
    }
}

/// Every reachable state is well-formed.
pub proof fn lemma_run_wf(outcomes: Seq<bool>)
    ensures
        run(outcomes).wf(),
    decreases outcomes.len(),
{
    if outcomes.len() > 0 {
        lemma_run_wf(outcomes.drop_last());
    }
}

/// The failure counter equals the number of consecutive failures since the
/// last success, for as long as the monitor is still probing; in particular
/// it is reset to zero by any success.
pub proof fn lemma_counter_is_failure_streak(outcomes: Seq<bool>)
    ensures
        run(outcomes) !is Rebooting ==> run(outcomes).counter() == trailing_failures(outcomes),
        run(outcomes) !is Rebooting && outcomes.len() > 0 && outcomes.last()
            ==> run(outcomes).counter() == 0,
    decreases outcomes.len(),
{
    if outcomes.len() > 0 {
        lemma_counter_is_failure_streak(outcomes.drop_last());
        lemma_run_wf(outcomes.drop_last());
    }
}

/// The reboot is invoked at most once, and exactly when the monitor has
/// reached the terminal state; a single transition invokes it exactly when a
/// failure brings the counter to the threshold, never below it.
pub proof fn lemma_reboot_exactly_at_threshold(outcomes: Seq<bool>)
    ensures
        reboot_invocations(outcomes) <= 1,
        reboot_invocations(outcomes) == 1 <==> run(outcomes) is Rebooting,
    decreases outcomes.len(),
{
    if outcomes.len() > 0 {
        lemma_reboot_exactly_at_threshold(outcomes.drop_last());
        lemma_run_wf(outcomes.drop_last());
    }
}

/// A single transition invokes the reboot exactly when a failure brings the
/// counter to the threshold value; at any lower counter it is not invoked,
/// and the monitor escalates exactly when the reboot is invoked.
pub proof fn lemma_reboot_iff_counter_at_threshold(s: MonitorState, success: bool)
    requires
        s.wf(),
        s !is Rebooting,
    ensures
        spec_reboots(s, success) <==> (!success && s.counter() + 1 == FAILURE_THRESHOLD),
        spec_reboots(s, success) <==> spec_step(s, success) is Rebooting,
{
}

/// After the reboot transition no further probes are taken: whatever
/// outcomes would have followed, the state, the observations and the probe
/// count stay as they were.
pub proof fn lemma_no_probes_after_reboot(outcomes: Seq<bool>, more: Seq<bool>)
    requires
        run(outcomes) is Rebooting,
    ensures
        run(outcomes + more) == run(outcomes),
        run_observations(outcomes + more) == run_observations(outcomes),
        probes_taken(outcomes + more) == probes_taken(outcomes),
        reboot_invocations(outcomes + more) == reboot_invocations(outcomes),
    decreases more.len(),
{
    if more.len() == 0 {
        assert(outcomes + more =~= outcomes);
    } else {
        assert((outcomes + more).drop_last() =~= outcomes + more.drop_last());
        lemma_no_probes_after_reboot(outcomes, more.drop_last());
    }
}

/// A success after zero failures emits no recovery notice, only the success;
/// a success after a streak of k >= 1 failures emits exactly one recovery
/// notice, citing k, before the success.
pub proof fn lemma_recovery_emitted_once(s: MonitorState, k: nat)
    requires
        s.wf(),
        s !is Rebooting,
        k == s.counter(),
    ensures
        k == 0 ==> spec_observations(s, true) =~= seq![Observation::ProbeSucceeded],
        k >= 1 ==> spec_observations(s, true) =~= seq![
            (Observation::Recovered { failures: k as u32 }),
            Observation::ProbeSucceeded,
        ],
{
}

/// The record of a whole monitoring run over a fixed list of probe
/// outcomes: the state it ended in, the counter after each probe taken, all
/// observations in order, how often the reboot was invoked, and how many of
/// the outcomes were actually probed.
pub struct ScriptReport {
    pub final_state: MonitorState,
    pub counters: Vec<u32>,
    pub observations: Vec<Observation>,
    pub reboots: u32,
    pub probes: usize,
}

/// Drive the monitor over a fixed list of probe outcomes, starting healthy:
/// the monitor loop with the probing and the suspension between cycles left
/// out. Probing stops at the terminal state; outcomes after that point are
/// never looked at.
pub fn run_script(outcomes: &Vec<bool>) -> (r: ScriptReport)
    ensures
        r.final_state == run(outcomes@),
        r.final_state.wf(),
        r.probes == probes_taken(outcomes@),
        r.probes <= outcomes@.len(),
        r.final_state == run(outcomes@.take(r.probes as int)),
        r.probes < outcomes@.len() ==> r.final_state is Rebooting,
        r.observations@ == run_observations(outcomes@),
        r.reboots == reboot_invocations(outcomes@),
        r.reboots <= 1,
        r.reboots == 1 <==> r.final_state is Rebooting,
        r.counters@.len() == r.probes,
        forall|j: int| 0 <= j < r.probes ==> r.counters@[j] == run(outcomes@.take(j + 1)).counter(),
{
    let mut state = MonitorState::Healthy;
    let mut counters: Vec<u32> = Vec::new();
    let mut observations: Vec<Observation> = Vec::new();
    let mut reboots: u32 = 0;
    let mut halted = false;
    let mut i: usize = 0;
    while i < outcomes.len() && !halted
        invariant
            i <= outcomes@.len(),
            state.wf(),
            state == run(outcomes@.take(i as int)),
            halted <==> state is Rebooting,
            reboots <= 1,
            reboots == 1 <==> halted,
            reboots == reboot_invocations(outcomes@.take(i as int)),
            i == probes_taken(outcomes@.take(i as int)),
            observations@ == run_observations(outcomes@.take(i as int)),
            counters@.len() == i,
            forall|j: int| 0 <= j < i ==> counters@[j] == run(outcomes@.take(j + 1)).counter(),
        decreases outcomes@.len() - i,
    {
        let success = outcomes[i];
        proof {
            assert(outcomes@.take(i + 1).drop_last() =~= outcomes@.take(i as int));
            assert(outcomes@.take(i + 1).last() == outcomes@[i as int]);
        }
        let res = step(state, success);
        state = res.next;
        let c = state.counter_value();
        counters.push(c);
        let mut fresh = res.observations;
        observations.append(&mut fresh);
        if res.reboot {
            reboots = reboots + 1;
            halted = true;
        }
        i = i + 1;
    }
    proof {
        if i == outcomes@.len() {
            assert(outcomes@.take(i as int) =~= outcomes@);
        } else {
            assert(outcomes@.take(i as int) + outcomes@.skip(i as int) =~= outcomes@);
            lemma_no_probes_after_reboot(outcomes@.take(i as int), outcomes@.skip(i as int));
        }
    }
    ScriptReport { final_state: state, counters, observations, reboots, probes: i }
}

} // verus!
