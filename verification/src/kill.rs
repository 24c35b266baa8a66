use vstd::prelude::*;

verus! {

use crate::model::KillOutcome;

// Escalation timing: two seconds of graceful grace, one second of forceful
// grace, polling every 200 ms.
pub const GRACEFUL_POLLS: u32 = 10;
pub const FORCEFUL_POLLS: u32 = 5;
pub const POLL_INTERVAL_NANOS: i64 = 200_000_000;

/// What is asked of one signal delivery.
#[derive(Clone, Copy, Debug, PartialEq, Eq, Structural)]
pub enum SigRequest {
    /// The null signal: a liveness probe with no behavioral effect.
    Probe,
    /// Ask the target to terminate itself (SIGTERM).
    Graceful,
    /// Have the OS terminate the target at once (SIGKILL).
    Forceful,
}

/// How the OS rejected one signal delivery.
#[derive(Clone, Copy, Debug, PartialEq, Eq, Structural)]
pub enum SigFailure {
    NoSuchProcess,
    /// Carries the raw errno, for when the rejection must be surfaced.
    PermissionDenied(i32),
    Other(i32),
}

/// A liveness probe, classified.
#[derive(Clone, Copy, Debug, PartialEq, Eq, Structural)]
pub enum ProbeOutcome {
    Alive,
    Gone,
    Error(i32),
}

/// A termination signal delivery, classified.
#[derive(Clone, Copy, Debug, PartialEq, Eq, Structural)]
pub enum SignalOutcome {
    Delivered,
    Gone,
    Denied,
    Error(i32),
}

/// One grace-period wait, polling the target until it disappears or the
/// window closes.
#[derive(Clone, Copy, Debug, PartialEq, Eq, Structural)]
pub enum WaitOutcome {
    Exited,
    Survived,
    Error(i32),
}

// ---------------------------------------------------------------------------
// Trusted boundary: the host OS's signal-delivery and process-query calls.
// ---------------------------------------------------------------------------

/// Relies on nix::sys::signal::kill: delivers the requested signal (or the
/// null probe) to `target` — a pid, or a negated process-group id — and
/// reports the OS's errno, told apart by variant.
#[verifier::external_body]
fn send_signal_raw(target: i32, req: SigRequest) -> (r: Result<(), SigFailure>) {
    let sig = match req {
        SigRequest::Probe => None,
        SigRequest::Graceful => Some(nix::sys::signal::Signal::SIGTERM),
        SigRequest::Forceful => Some(nix::sys::signal::Signal::SIGKILL),
    };
    match nix::sys::signal::kill(nix::unistd::Pid::from_raw(target), sig) {
        Ok(()) => Ok(()),
        Err(nix::errno::Errno::ESRCH) => Err(SigFailure::NoSuchProcess),
        Err(e @ nix::errno::Errno::EPERM) => Err(SigFailure::PermissionDenied(e as i32)),
        Err(e) => Err(SigFailure::Other(e as i32)),
    }
}

/// Relies on nix::unistd::getpgid: the id of the process group `pid` belongs
/// to, or None when the lookup fails.
#[verifier::external_body]
fn group_of(pid: i32) -> (r: Option<i32>) {
    match nix::unistd::getpgid(Some(nix::unistd::Pid::from_raw(pid))) {
        Ok(g) => Some(g.as_raw()),
        Err(_) => None,
    }
}

/// Relies on nix::time::clock_nanosleep: suspends the calling thread for
/// about `nanos` nanoseconds (possibly less, if a signal interrupts it).
#[verifier::external_body]
fn sleep_nanos(nanos: i64)
    requires
        0 <= nanos < 1_000_000_000,
{
    let request = nix::sys::time::TimeSpec::new(0, nanos);
    let _ = nix::time::clock_nanosleep(
        nix::time::ClockId::CLOCK_MONOTONIC,
        nix::time::ClockNanosleepFlags::empty(),
        &request,
    );
}

// ---------------------------------------------------------------------------
// Verified classification: the engine's error taxonomy.
// ---------------------------------------------------------------------------

/// A liveness probe: only "no such process" means gone; every other
/// rejection, privilege included, is an unexpected error.
pub open spec fn spec_probe_outcome(r: Result<(), SigFailure>) -> ProbeOutcome {
    match r {
        Ok(()) => ProbeOutcome::Alive,
        Err(SigFailure::NoSuchProcess) => ProbeOutcome::Gone,
        Err(SigFailure::PermissionDenied(c)) => ProbeOutcome::Error(c),
        Err(SigFailure::Other(c)) => ProbeOutcome::Error(c),
    }
}

pub fn classify_probe(r: Result<(), SigFailure>) -> (o: ProbeOutcome)
    ensures
        o == spec_probe_outcome(r),
{
    match r {
        Ok(()) => ProbeOutcome::Alive,
        Err(SigFailure::NoSuchProcess) => ProbeOutcome::Gone,
        Err(SigFailure::PermissionDenied(c)) => ProbeOutcome::Error(c),
        Err(SigFailure::Other(c)) => ProbeOutcome::Error(c),
    }
}

/// A termination signal: "no such process" and "permission denied" are
/// absorbed into protocol continuation; everything else is unexpected.
pub open spec fn spec_signal_outcome(r: Result<(), SigFailure>) -> SignalOutcome {
    match r {
        Ok(()) => SignalOutcome::Delivered,
        Err(SigFailure::NoSuchProcess) => SignalOutcome::Gone,
        Err(SigFailure::PermissionDenied(_)) => SignalOutcome::Denied,
        Err(SigFailure::Other(c)) => SignalOutcome::Error(c),
    }
}

pub fn classify_signal(r: Result<(), SigFailure>) -> (o: SignalOutcome)
    ensures
        o == spec_signal_outcome(r),
{
    match r {
        Ok(()) => SignalOutcome::Delivered,
        Err(SigFailure::NoSuchProcess) => SignalOutcome::Gone,
        Err(SigFailure::PermissionDenied(_)) => SignalOutcome::Denied,
        Err(SigFailure::Other(c)) => SignalOutcome::Error(c),
    }
}

// ---------------------------------------------------------------------------
// The protocol, as a function of what the OS was observed to answer.
//
// A transcript records, step by step, what each probe, group lookup, signal
// and grace-period wait reported. A field is None when the protocol never
// reached that step. The engine returns exactly `transcript_outcome` of the
// transcript it observed, so every protocol decision is fixed by the
// observations alone.
// ---------------------------------------------------------------------------

#[derive(Clone, Copy, Debug, PartialEq, Eq, Structural)]
pub struct KillTranscript {
    /// The initial liveness probe of the target pid.
    pub initial_probe: ProbeOutcome,
    /// The group lookup: Some(answer) once asked, answer None when it failed.
    pub group_lookup: Option<Option<i32>>,
    pub group_graceful: Option<SignalOutcome>,
    pub group_graceful_wait: Option<WaitOutcome>,
    pub group_forceful: Option<SignalOutcome>,
    pub group_forceful_wait: Option<WaitOutcome>,
    pub pid_graceful: Option<SignalOutcome>,
    pub pid_graceful_wait: Option<WaitOutcome>,
    pub pid_forceful: Option<SignalOutcome>,
    pub pid_forceful_wait: Option<WaitOutcome>,
}

/// The group phase runs only for a resolvable, genuine (positive) group id.
pub open spec fn group_eligible(lookup: Option<Option<i32>>) -> bool {
    match lookup {
        Some(Some(g)) => g > 0,
        _ => false,
    }
}

pub open spec fn sig_or_delivered(s: Option<SignalOutcome>) -> SignalOutcome {
    match s {
        Some(x) => x,
        None => SignalOutcome::Delivered,
    }
}

pub open spec fn wait_or_survived(w: Option<WaitOutcome>) -> WaitOutcome {
    match w {
        Some(x) => x,
        None => WaitOutcome::Survived,
    }
}

/// Was a permission rejection recorded at any step of the transcript?
pub open spec fn perm_recorded(t: KillTranscript) -> bool {
    ||| t.group_graceful == Some(SignalOutcome::Denied)
    ||| t.group_forceful == Some(SignalOutcome::Denied)
    ||| t.pid_graceful == Some(SignalOutcome::Denied)
    ||| t.pid_forceful == Some(SignalOutcome::Denied)
}

/// Steps 3a-3d: signal the pid itself, escalating from graceful to forceful.
/// "No such process" on the graceful signal means the target was already
/// gone; on the forceful signal it means the kill found it gone: success.
pub open spec fn pid_phase_outcome(t: KillTranscript, tried_group: bool) -> KillOutcome {
    match sig_or_delivered(t.pid_graceful) {
        SignalOutcome::Gone => KillOutcome::AlreadyExited,
        SignalOutcome::Error(c) => KillOutcome::Failed(c),
        _ => match wait_or_survived(t.pid_graceful_wait) {
            WaitOutcome::Exited => KillOutcome::Success,
            WaitOutcome::Error(c) => KillOutcome::Failed(c),
            WaitOutcome::Survived => match sig_or_delivered(t.pid_forceful) {
                SignalOutcome::Gone => KillOutcome::Success,
                SignalOutcome::Error(c) => KillOutcome::Failed(c),
                _ => match wait_or_survived(t.pid_forceful_wait) {
                    WaitOutcome::Exited => KillOutcome::Success,
                    WaitOutcome::Error(c) => KillOutcome::Failed(c),
                    WaitOutcome::Survived => if tried_group && perm_recorded(t) {
                        KillOutcome::PermissionDenied
                    } else {
                        KillOutcome::TimedOut
                    },
                },
            },
        },
    }
}

/// Steps 2a-2e: signal the whole group, escalating from graceful to
/// forceful; fall through to the individual phase if the target survives.
pub open spec fn group_phase_outcome(t: KillTranscript) -> KillOutcome {
    match sig_or_delivered(t.group_graceful) {
        SignalOutcome::Error(c) => KillOutcome::Failed(c),
        _ => match wait_or_survived(t.group_graceful_wait) {
            WaitOutcome::Exited => KillOutcome::Success,
            WaitOutcome::Error(c) => KillOutcome::Failed(c),
            WaitOutcome::Survived => match sig_or_delivered(t.group_forceful) {
                SignalOutcome::Error(c) => KillOutcome::Failed(c),
                _ => match wait_or_survived(t.group_forceful_wait) {
                    WaitOutcome::Exited => KillOutcome::Success,
                    WaitOutcome::Error(c) => KillOutcome::Failed(c),
                    WaitOutcome::Survived => pid_phase_outcome(t, true),
                },
            },
        },
    }
}

/// The whole protocol: liveness probe, then the group phase where eligible,
/// then the individual phase.
pub open spec fn transcript_outcome(t: KillTranscript) -> KillOutcome {
    match t.initial_probe {
        ProbeOutcome::Gone => KillOutcome::AlreadyExited,
        ProbeOutcome::Error(c) => KillOutcome::Failed(c),
        ProbeOutcome::Alive => if group_eligible(t.group_lookup) {
            group_phase_outcome(t)
        } else {
            pid_phase_outcome(t, false)
        },
    }
}

/// Does the protocol reach the individual-process phase?
pub open spec fn reaches_pid_phase(t: KillTranscript) -> bool {
    &&& t.initial_probe == ProbeOutcome::Alive
    &&& (group_eligible(t.group_lookup) ==> t.group_forceful_wait == Some(WaitOutcome::Survived))
}

/// A transcript is well formed when each step is recorded exactly if the
/// protocol reaches it: nothing is observed past the step that decided the
/// outcome.
pub open spec fn transcript_wf(t: KillTranscript) -> bool {
    &&& (t.group_lookup is Some <==> t.initial_probe == ProbeOutcome::Alive)
    &&& (t.group_graceful is Some <==> t.initial_probe == ProbeOutcome::Alive
        && group_eligible(t.group_lookup))
    &&& (t.group_graceful_wait is Some <==> t.group_graceful is Some
        && !(sig_or_delivered(t.group_graceful) is Error))
    &&& (t.group_forceful is Some <==> t.group_graceful_wait == Some(WaitOutcome::Survived))
    &&& (t.group_forceful_wait is Some <==> t.group_forceful is Some
        && !(sig_or_delivered(t.group_forceful) is Error))
    &&& (t.pid_graceful is Some <==> reaches_pid_phase(t))
    &&& (t.pid_graceful_wait is Some <==> t.pid_graceful is Some
        && !(sig_or_delivered(t.pid_graceful) is Error)
        && !(sig_or_delivered(t.pid_graceful) is Gone))
    &&& (t.pid_forceful is Some <==> t.pid_graceful_wait == Some(WaitOutcome::Survived))
    &&& (t.pid_forceful_wait is Some <==> t.pid_forceful is Some
        && !(sig_or_delivered(t.pid_forceful) is Error)
        && !(sig_or_delivered(t.pid_forceful) is Gone))
}

/// The protocol decision, runnable on a recorded transcript: returns exactly
/// the outcome the engine reports after observing `t`.
pub fn outcome_for(t: &KillTranscript) -> (r: KillOutcome)
    ensures
        r == transcript_outcome(*t),
{
    match t.initial_probe {
        ProbeOutcome::Gone => KillOutcome::AlreadyExited,
        ProbeOutcome::Error(c) => KillOutcome::Failed(c),
        ProbeOutcome::Alive => {
            let eligible = match t.group_lookup {
                Some(Some(g)) => g > 0,
                _ => false,
            };
            if eligible {
                group_phase_for(t)
            } else {
                pid_phase_for(t, false)
            }
        },
    }
}

fn group_phase_for(t: &KillTranscript) -> (r: KillOutcome)
    ensures
        r == group_phase_outcome(*t),
{
    match t.group_graceful {
        Some(SignalOutcome::Error(c)) => KillOutcome::Failed(c),
        _ => match t.group_graceful_wait {
            Some(WaitOutcome::Exited) => KillOutcome::Success,
            Some(WaitOutcome::Error(c)) => KillOutcome::Failed(c),
            _ => match t.group_forceful {
                Some(SignalOutcome::Error(c)) => KillOutcome::Failed(c),
                _ => match t.group_forceful_wait {
                    Some(WaitOutcome::Exited) => KillOutcome::Success,
                    Some(WaitOutcome::Error(c)) => KillOutcome::Failed(c),
                    _ => pid_phase_for(t, true),
                },
            },
        },
    }
}

fn pid_phase_for(t: &KillTranscript, tried_group: bool) -> (r: KillOutcome)
    ensures
        r == pid_phase_outcome(*t, tried_group),
{
    let denied = matches!(t.group_graceful, Some(SignalOutcome::Denied))
        || matches!(t.group_forceful, Some(SignalOutcome::Denied))
        || matches!(t.pid_graceful, Some(SignalOutcome::Denied))
        || matches!(t.pid_forceful, Some(SignalOutcome::Denied));
    match t.pid_graceful {
        Some(SignalOutcome::Gone) => KillOutcome::AlreadyExited,
        Some(SignalOutcome::Error(c)) => KillOutcome::Failed(c),
        _ => match t.pid_graceful_wait {
            Some(WaitOutcome::Exited) => KillOutcome::Success,
            Some(WaitOutcome::Error(c)) => KillOutcome::Failed(c),
            _ => match t.pid_forceful {
                Some(SignalOutcome::Gone) => KillOutcome::Success,
                Some(SignalOutcome::Error(c)) => KillOutcome::Failed(c),
                _ => match t.pid_forceful_wait {
                    Some(WaitOutcome::Exited) => KillOutcome::Success,
                    Some(WaitOutcome::Error(c)) => KillOutcome::Failed(c),
                    _ => final_outcome(tried_group, denied),
                },
            },
        },
    }
}

/// Outcome selection once both phases have run out: a recorded permission
/// error counts only if the group phase was attempted.
pub fn final_outcome(tried_group: bool, perm_denied: bool) -> (r: KillOutcome)
    ensures
        r == (if tried_group && perm_denied {
            KillOutcome::PermissionDenied
        } else {
            KillOutcome::TimedOut
        }),
{
    if tried_group && perm_denied {
        KillOutcome::PermissionDenied
    } else {
        KillOutcome::TimedOut
    }
}

// ---------------------------------------------------------------------------
// The engine.
// ---------------------------------------------------------------------------

/// One grace-period wait: probe the pid, and while it is alive sleep one
/// poll interval and probe again, up to `polls` sleeps.
fn wait_for_exit(pid_raw: i32, polls: u32) -> (w: WaitOutcome) {
    let mut i: u32 = 0;
    loop
        invariant
            i <= polls,
        decreases polls - i,
    {
        match classify_probe(send_signal_raw(pid_raw, SigRequest::Probe)) {
            ProbeOutcome::Gone => {
                return WaitOutcome::Exited;
            },
            ProbeOutcome::Error(c) => {
                return WaitOutcome::Error(c);
            },
            ProbeOutcome::Alive => {},
        }
        if i >= polls {
            return WaitOutcome::Survived;
        }
        sleep_nanos(POLL_INTERVAL_NANOS);
        i = i + 1;
    }
}

/// The termination engine, with the transcript of what the OS answered: the
/// reported outcome is exactly the protocol's decision on that transcript.
pub fn terminate_pid_traced(pid_raw: i32) -> (r: (KillOutcome, Ghost<KillTranscript>))
    ensures
        transcript_wf(r.1@),
        r.0 == transcript_outcome(r.1@),
{
    let probe = classify_probe(send_signal_raw(pid_raw, SigRequest::Probe));
    let ghost mut t = KillTranscript {
        initial_probe: probe,
        group_lookup: None,
        group_graceful: None,
        group_graceful_wait: None,
        group_forceful: None,
        group_forceful_wait: None,
        pid_graceful: None,
        pid_graceful_wait: None,
        pid_forceful: None,
        pid_forceful_wait: None,
    };
    match probe {
        ProbeOutcome::Gone => {
            return (KillOutcome::AlreadyExited, Ghost(t));
        },
        ProbeOutcome::Error(c) => {
            return (KillOutcome::Failed(c), Ghost(t));
        },
        ProbeOutcome::Alive => {},
    }

    let mut perm_denied = false;
    let mut tried_group = false;

    let lookup = group_of(pid_raw);
    proof {
        t.group_lookup = Some(lookup);
    }
    match lookup {
        Some(g) if g > 0 => {
            tried_group = true;
            let gid = -g;

            let s1 = classify_signal(send_signal_raw(gid, SigRequest::Graceful));
            proof {
                t.group_graceful = Some(s1);
            }
            match s1 {
                SignalOutcome::Error(c) => {
                    return (KillOutcome::Failed(c), Ghost(t));
                },
                SignalOutcome::Denied => {
                    perm_denied = true;
                },
                _ => {},
            }
            let w1 = wait_for_exit(pid_raw, GRACEFUL_POLLS);
            proof {
                t.group_graceful_wait = Some(w1);
            }
            match w1 {
                WaitOutcome::Exited => {
                    return (KillOutcome::Success, Ghost(t));
                },
                WaitOutcome::Error(c) => {
                    return (KillOutcome::Failed(c), Ghost(t));
                },
                WaitOutcome::Survived => {},
            }

            let s2 = classify_signal(send_signal_raw(gid, SigRequest::Forceful));
            proof {
                t.group_forceful = Some(s2);
            }
            match s2 {
                SignalOutcome::Error(c) => {
                    return (KillOutcome::Failed(c), Ghost(t));
                },
                SignalOutcome::Denied => {
                    perm_denied = true;
                },
                _ => {},
            }
            let w2 = wait_for_exit(pid_raw, FORCEFUL_POLLS);
            proof {
                t.group_forceful_wait = Some(w2);
            }
            match w2 {
                WaitOutcome::Exited => {
                    return (KillOutcome::Success, Ghost(t));
                },
                WaitOutcome::Error(c) => {
                    return (KillOutcome::Failed(c), Ghost(t));
                },
                WaitOutcome::Survived => {},
            }
        },
        _ => {},
    }

    let s3 = classify_signal(send_signal_raw(pid_raw, SigRequest::Graceful));
    proof {
        t.pid_graceful = Some(s3);
    }
    match s3 {
        SignalOutcome::Gone => {
            return (KillOutcome::AlreadyExited, Ghost(t));
        },
        SignalOutcome::Error(c) => {
            return (KillOutcome::Failed(c), Ghost(t));
        },
        SignalOutcome::Denied => {
            perm_denied = true;
        },
        SignalOutcome::Delivered => {},
    }
    let w3 = wait_for_exit(pid_raw, GRACEFUL_POLLS);
    proof {
        t.pid_graceful_wait = Some(w3);
    }
    match w3 {
        WaitOutcome::Exited => {
            return (KillOutcome::Success, Ghost(t));
        },
        WaitOutcome::Error(c) => {
            return (KillOutcome::Failed(c), Ghost(t));
        },
        WaitOutcome::Survived => {},
    }

    let s4 = classify_signal(send_signal_raw(pid_raw, SigRequest::Forceful));
    proof {
        t.pid_forceful = Some(s4);
    }
    match s4 {
        SignalOutcome::Gone => {
            return (KillOutcome::Success, Ghost(t));
        },
        SignalOutcome::Error(c) => {
            return (KillOutcome::Failed(c), Ghost(t));
        },
        SignalOutcome::Denied => {
            perm_denied = true;
        },
        SignalOutcome::Delivered => {},
    }
    let w4 = wait_for_exit(pid_raw, FORCEFUL_POLLS);
    proof {
        t.pid_forceful_wait = Some(w4);
    }
    match w4 {
        WaitOutcome::Exited => (KillOutcome::Success, Ghost(t)),
        WaitOutcome::Error(c) => (KillOutcome::Failed(c), Ghost(t)),
        WaitOutcome::Survived => (final_outcome(tried_group, perm_denied), Ghost(t)),
    }
}

// ---------------------------------------------------------------------------
// Protocol laws: what holds of every well-formed transcript.
// ---------------------------------------------------------------------------

/// A pid that does not exist at call time is reported AlreadyExited, and the
/// engine observes nothing beyond the initial probe: no signal is sent. The
/// same holds of any later call that finds the target gone, which makes the
/// protocol idempotent under the target's own exit.
pub proof fn lemma_already_exited_probe_only(t: KillTranscript)
    requires
        transcript_wf(t),
        t.initial_probe == ProbeOutcome::Gone,
    ensures
        transcript_outcome(t) == KillOutcome::AlreadyExited,
        t.group_lookup is None,
        t.group_graceful is None,
        t.group_forceful is None,
        t.pid_graceful is None,
        t.pid_forceful is None,
{
}

/// A target that exits within the graceful window of the group phase is a
/// Success, and no forceful signal — indeed nothing past that wait — is sent.
pub proof fn lemma_group_graceful_exit(t: KillTranscript)
    requires
        transcript_wf(t),
        t.group_graceful_wait == Some(WaitOutcome::Exited),
    ensures
        transcript_outcome(t) == KillOutcome::Success,
        t.group_forceful is None,
        t.pid_graceful is None,
        t.pid_forceful is None,
{
}

/// A target with no eligible group that exits within the graceful window of
/// the individual phase is a Success, and no forceful signal is sent.
pub proof fn lemma_pid_graceful_exit(t: KillTranscript)
    requires
        transcript_wf(t),
        t.pid_graceful_wait == Some(WaitOutcome::Exited),
    ensures
        transcript_outcome(t) == KillOutcome::Success,
        t.pid_forceful is None,
{
}

/// A target that ignores the graceful signal but goes away upon the forceful
/// one — during either wait, or so soon that the forceful delivery itself
/// reports it gone — is a Success.
pub proof fn lemma_forceful_exit(t: KillTranscript)
    requires
        transcript_wf(t),
        t.group_forceful_wait == Some(WaitOutcome::Exited) || t.pid_forceful == Some(
            SignalOutcome::Gone,
        ) || t.pid_forceful_wait == Some(WaitOutcome::Exited),
    ensures
        transcript_outcome(t) == KillOutcome::Success,
{
}

/// A target that survives every signal to the very end, with no permission
/// rejection recorded anywhere, times out.
pub proof fn lemma_survivor_times_out(t: KillTranscript)
    requires
        transcript_wf(t),
        t.pid_forceful_wait == Some(WaitOutcome::Survived),
        !perm_recorded(t),
    ensures
        transcript_outcome(t) == KillOutcome::TimedOut,
{
}

/// A permission rejection during the group phase, with the target still
/// alive after both phases, is reported PermissionDenied — never TimedOut.
pub proof fn lemma_group_denial_reported(t: KillTranscript)
    requires
        transcript_wf(t),
        t.group_graceful == Some(SignalOutcome::Denied) || t.group_forceful == Some(
            SignalOutcome::Denied,
        ),
        t.pid_forceful_wait == Some(WaitOutcome::Survived),
    ensures
        transcript_outcome(t) == KillOutcome::PermissionDenied,
{
}

/// Success is never invented: the engine reports it only when some
/// observation showed the target gone — a wait saw it exit, or the forceful
/// individual signal found no such process.
pub proof fn lemma_success_needs_exit_observation(t: KillTranscript)
    requires
        transcript_wf(t),
        transcript_outcome(t) == KillOutcome::Success,
    ensures
        t.group_graceful_wait == Some(WaitOutcome::Exited) || t.group_forceful_wait == Some(
            WaitOutcome::Exited,
        ) || t.pid_graceful_wait == Some(WaitOutcome::Exited) || t.pid_forceful == Some(
            SignalOutcome::Gone,
        ) || t.pid_forceful_wait == Some(WaitOutcome::Exited),
{
}

/// Terminate `pid_raw`: probe it, then escalate graceful and forceful
/// signals over its process group and over the pid itself, waiting a grace
/// period after each signal. The outcome is the protocol's decision on some
/// well-formed transcript of OS answers.
pub fn terminate_pid(pid_raw: i32) -> (r: KillOutcome)
    ensures
        exists|t: KillTranscript| #[trigger] transcript_wf(t) && r == transcript_outcome(t),
{
    let (outcome, t) = terminate_pid_traced(pid_raw);
    proof {
        assert(transcript_wf(t@) && outcome == transcript_outcome(t@));
    }
    outcome
}

} // verus!
