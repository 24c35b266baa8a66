use vstd::prelude::*;

verus! {

/// Outcome of one termination attempt against a process identifier.
#[derive(Clone, Copy, Debug, PartialEq, Eq, Structural)]
pub enum KillOutcome {
    /// The target no longer exists when the engine returns.
    Success,
    /// The target did not exist before any signal was sent.
    AlreadyExited,
    /// Every escalation step ran and the target is still alive.
    TimedOut,
    /// A signal was rejected for lack of privilege and the target is still alive.
    PermissionDenied,
    /// An unexpected OS error (raw errno) while probing or signaling.
    Failed(i32),
}

/// One discovered listener: the process and the port it holds open.
#[derive(Clone, Debug)]
pub struct ProcessInfo {
    pub port: u16,
    pub pid: i32,
    pub command: String,
}

/// One entry of a "terminate all" request: a process and its display label.
#[derive(Clone, Debug)]
pub struct KillTarget {
    pub pid: i32,
    pub label: String,
}

/// The action a menu identifier stands for.
#[derive(Clone, Debug)]
pub enum MenuAction {
    KillAll,
    Quit,
    EditConfig,
    Snooze30m,
    DockerStop { container: String },
    BrewStop { service: String },
    KillPid { pid: i32 },
}

/// One entry of the tray menu, ready for a toolkit to render.
#[derive(Clone, Debug)]
pub struct MenuEntry {
    pub id: String,
    pub label: String,
    pub enabled: bool,
    pub is_separator: bool,
}

/// How a listener is stopped: through its container, through its package
/// manager's service, or by signaling the process itself.
#[derive(Clone, Debug)]
pub enum StopRoute {
    Docker { container: String },
    Brew { service: String },
    Process,
}

/// How prominently the feedback about the last action should be shown.
#[derive(Clone, Copy, Debug, PartialEq, Eq, Structural)]
pub enum FeedbackSeverity {
    Info,
    Warning,
    Error,
}

/// Feedback about the last termination action, shown in the tooltip.
#[derive(Clone, Debug)]
pub struct KillFeedback {
    pub severity: FeedbackSeverity,
    pub message: String,
}

} // verus!
