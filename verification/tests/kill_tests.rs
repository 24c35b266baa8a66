use portkiller::kill::{
    classify_probe, classify_signal, final_outcome, outcome_for, terminate_pid, KillTranscript,
    ProbeOutcome, SigFailure, SignalOutcome, WaitOutcome,
};
use portkiller::model::KillOutcome;

// A pid far above the kernel's pid range: no process ever has it, so the
// engine's probe reports it gone and nothing is signaled.
const NO_SUCH_PID: i32 = 2_000_000_000;

fn blank() -> KillTranscript {
    KillTranscript {
        initial_probe: ProbeOutcome::Alive,
        group_lookup: None,
        group_graceful: None,
        group_graceful_wait: None,
        group_forceful: None,
        group_forceful_wait: None,
        pid_graceful: None,
        pid_graceful_wait: None,
        pid_forceful: None,
        pid_forceful_wait: None,
    }
}

#[test]
fn missing_pid_is_already_exited() {
    assert_eq!(terminate_pid(NO_SUCH_PID), KillOutcome::AlreadyExited);
}

#[test]
fn second_call_is_already_exited_too() {
    assert_eq!(terminate_pid(NO_SUCH_PID), KillOutcome::AlreadyExited);
    assert_eq!(terminate_pid(NO_SUCH_PID), KillOutcome::AlreadyExited);
}

#[test]
fn probe_classification() {
    assert_eq!(classify_probe(Ok(())), ProbeOutcome::Alive);
    assert_eq!(
        classify_probe(Err(SigFailure::NoSuchProcess)),
        ProbeOutcome::Gone
    );
    assert_eq!(
        classify_probe(Err(SigFailure::PermissionDenied(1))),
        ProbeOutcome::Error(1)
    );
    assert_eq!(
        classify_probe(Err(SigFailure::Other(22))),
        ProbeOutcome::Error(22)
    );
}

#[test]
fn signal_classification() {
    assert_eq!(classify_signal(Ok(())), SignalOutcome::Delivered);
    assert_eq!(
        classify_signal(Err(SigFailure::NoSuchProcess)),
        SignalOutcome::Gone
    );
    assert_eq!(
        classify_signal(Err(SigFailure::PermissionDenied(1))),
        SignalOutcome::Denied
    );
    assert_eq!(
        classify_signal(Err(SigFailure::Other(5))),
        SignalOutcome::Error(5)
    );
}

#[test]
fn final_outcome_needs_group_phase_for_denial() {
    assert_eq!(final_outcome(true, true), KillOutcome::PermissionDenied);
    assert_eq!(final_outcome(true, false), KillOutcome::TimedOut);
    assert_eq!(final_outcome(false, true), KillOutcome::TimedOut);
    assert_eq!(final_outcome(false, false), KillOutcome::TimedOut);
}

#[test]
fn gone_probe_decides_already_exited() {
    let mut t = blank();
    t.initial_probe = ProbeOutcome::Gone;
    assert_eq!(outcome_for(&t), KillOutcome::AlreadyExited);
}

#[test]
fn probe_error_decides_failed() {
    let mut t = blank();
    t.initial_probe = ProbeOutcome::Error(13);
    assert_eq!(outcome_for(&t), KillOutcome::Failed(13));
}

#[test]
fn graceful_group_exit_is_success() {
    let mut t = blank();
    t.group_lookup = Some(Some(500));
    t.group_graceful = Some(SignalOutcome::Delivered);
    t.group_graceful_wait = Some(WaitOutcome::Exited);
    assert_eq!(outcome_for(&t), KillOutcome::Success);
}

// The group leader 4821 ignores the graceful signal and exits during the
// forceful group wait: success, with the individual phase never reached.
#[test]
fn group_leader_dies_on_forceful_group_signal() {
    let mut t = blank();
    t.group_lookup = Some(Some(4821));
    t.group_graceful = Some(SignalOutcome::Delivered);
    t.group_graceful_wait = Some(WaitOutcome::Survived);
    t.group_forceful = Some(SignalOutcome::Delivered);
    t.group_forceful_wait = Some(WaitOutcome::Exited);
    assert_eq!(outcome_for(&t), KillOutcome::Success);
    assert!(t.pid_graceful.is_none());
}

// Pid 9010 has no usable group: the lookup fails, the graceful individual
// signal is ignored, and the target dies shortly after the forceful one.
#[test]
fn groupless_pid_dies_on_forceful_individual_signal() {
    let mut t = blank();
    t.group_lookup = Some(None);
    t.pid_graceful = Some(SignalOutcome::Delivered);
    t.pid_graceful_wait = Some(WaitOutcome::Survived);
    t.pid_forceful = Some(SignalOutcome::Delivered);
    t.pid_forceful_wait = Some(WaitOutcome::Exited);
    assert_eq!(outcome_for(&t), KillOutcome::Success);
}

#[test]
fn nonpositive_group_id_skips_group_phase() {
    let mut t = blank();
    t.group_lookup = Some(Some(0));
    t.pid_graceful = Some(SignalOutcome::Delivered);
    t.pid_graceful_wait = Some(WaitOutcome::Exited);
    assert_eq!(outcome_for(&t), KillOutcome::Success);
}

#[test]
fn forceful_signal_finding_target_gone_is_success() {
    let mut t = blank();
    t.group_lookup = Some(None);
    t.pid_graceful = Some(SignalOutcome::Delivered);
    t.pid_graceful_wait = Some(WaitOutcome::Survived);
    t.pid_forceful = Some(SignalOutcome::Gone);
    assert_eq!(outcome_for(&t), KillOutcome::Success);
}

#[test]
fn graceful_signal_finding_target_gone_is_already_exited() {
    let mut t = blank();
    t.group_lookup = Some(None);
    t.pid_graceful = Some(SignalOutcome::Gone);
    assert_eq!(outcome_for(&t), KillOutcome::AlreadyExited);
}

#[test]
fn full_survivor_without_denial_times_out() {
    let mut t = blank();
    t.group_lookup = Some(Some(77));
    t.group_graceful = Some(SignalOutcome::Delivered);
    t.group_graceful_wait = Some(WaitOutcome::Survived);
    t.group_forceful = Some(SignalOutcome::Delivered);
    t.group_forceful_wait = Some(WaitOutcome::Survived);
    t.pid_graceful = Some(SignalOutcome::Delivered);
    t.pid_graceful_wait = Some(WaitOutcome::Survived);
    t.pid_forceful = Some(SignalOutcome::Delivered);
    t.pid_forceful_wait = Some(WaitOutcome::Survived);
    assert_eq!(outcome_for(&t), KillOutcome::TimedOut);
}

#[test]
fn group_denial_with_survivor_is_permission_denied() {
    let mut t = blank();
    t.group_lookup = Some(Some(77));
    t.group_graceful = Some(SignalOutcome::Denied);
    t.group_graceful_wait = Some(WaitOutcome::Survived);
    t.group_forceful = Some(SignalOutcome::Denied);
    t.group_forceful_wait = Some(WaitOutcome::Survived);
    t.pid_graceful = Some(SignalOutcome::Delivered);
    t.pid_graceful_wait = Some(WaitOutcome::Survived);
    t.pid_forceful = Some(SignalOutcome::Delivered);
    t.pid_forceful_wait = Some(WaitOutcome::Survived);
    assert_eq!(outcome_for(&t), KillOutcome::PermissionDenied);
}

#[test]
fn denial_without_group_phase_times_out() {
    let mut t = blank();
    t.group_lookup = Some(None);
    t.pid_graceful = Some(SignalOutcome::Denied);
    t.pid_graceful_wait = Some(WaitOutcome::Survived);
    t.pid_forceful = Some(SignalOutcome::Denied);
    t.pid_forceful_wait = Some(WaitOutcome::Survived);
    assert_eq!(outcome_for(&t), KillOutcome::TimedOut);
}

#[test]
fn group_signal_error_aborts_with_failed() {
    let mut t = blank();
    t.group_lookup = Some(Some(90));
    t.group_graceful = Some(SignalOutcome::Error(22));
    assert_eq!(outcome_for(&t), KillOutcome::Failed(22));
}

#[test]
fn wait_error_aborts_with_failed() {
    let mut t = blank();
    t.group_lookup = Some(None);
    t.pid_graceful = Some(SignalOutcome::Delivered);
    t.pid_graceful_wait = Some(WaitOutcome::Error(5));
    assert_eq!(outcome_for(&t), KillOutcome::Failed(5));
}
