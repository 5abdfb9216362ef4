//! Lifecycle orchestration as a state machine. The outside work — creating
//! the plugin directory, deleting and renaming files, downloading,
//! rescanning — is performed by the caller; this module decides, from the
//! operation, the current state and the last outcome, what happens next.
//! Two rules are hard: an update never downloads after a failed delete of
//! the old file (two versions must never coexist), and the task registry
//! entry is cleared exactly when the operation reaches a terminal state,
//! success or failure alike.

use vstd::prelude::*;

verus! {

/// The operations the orchestrator drives.
#[derive(Debug, Clone, Copy, PartialEq, Eq, Structural)]
pub enum LifecycleOp {
    Install,
    Update,
    Enable,
    Disable,
}

/// Where an operation stands.
#[derive(Debug, Clone, Copy, PartialEq, Eq, Structural)]
pub enum LifecycleState {
    Started,
    DirReady,
    DeletingOld,
    Downloading,
    Renaming,
    Rescanning,
    Done,
    Failed,
}

/// What the caller reports back after performing an action.
#[derive(Debug, Clone, Copy, PartialEq, Eq, Structural)]
pub enum LifecycleEvent {
    DirCreated(bool),
    OldFileFound(bool),
    FileDeleted(bool),
    FileRenamed(bool),
    Downloaded(bool),
    Rescanned(bool),
}

/// What the caller must do next.
#[derive(Debug, Clone, Copy, PartialEq, Eq, Structural)]
pub enum LifecycleAction {
    EnsureDir,
    LookupOldFile,
    DeleteOldFile,
    RenameFile,
    Download,
    Rescan,
    ClearTask,
}

/// The first state and action of an operation. Install and update begin by
/// ensuring the plugin directory exists; enable and disable begin with the
/// rename itself.
pub open spec fn spec_lifecycle_start(op: LifecycleOp) -> (LifecycleState, LifecycleAction) {
    match op {
        LifecycleOp::Install => (LifecycleState::Started, LifecycleAction::EnsureDir),
        LifecycleOp::Update => (LifecycleState::Started, LifecycleAction::EnsureDir),
        LifecycleOp::Enable => (LifecycleState::Renaming, LifecycleAction::RenameFile),
        LifecycleOp::Disable => (LifecycleState::Renaming, LifecycleAction::RenameFile),
    }
}

/// The transition function. Any failure, and any event that the current
/// state does not expect, ends the operation with its task entry cleared.
pub open spec fn spec_lifecycle_step(
    op: LifecycleOp,
    state: LifecycleState,
    event: LifecycleEvent,
) -> (LifecycleState, LifecycleAction) {
    let fail = (LifecycleState::Failed, LifecycleAction::ClearTask);
    match (state, event) {
        (LifecycleState::Started, LifecycleEvent::DirCreated(true)) => {
            if op == LifecycleOp::Update {
                (LifecycleState::DirReady, LifecycleAction::LookupOldFile)
            } else {
                (LifecycleState::Downloading, LifecycleAction::Download)
            }
        },
        (LifecycleState::DirReady, LifecycleEvent::OldFileFound(true)) => (
            LifecycleState::DeletingOld,
            LifecycleAction::DeleteOldFile,
        ),
        (LifecycleState::DirReady, LifecycleEvent::OldFileFound(false)) => (
            LifecycleState::Downloading,
            LifecycleAction::Download,
        ),
        (LifecycleState::DeletingOld, LifecycleEvent::FileDeleted(true)) => (
            LifecycleState::Downloading,
            LifecycleAction::Download,
        ),
        (LifecycleState::Downloading, LifecycleEvent::Downloaded(true)) => (
            LifecycleState::Rescanning,
            LifecycleAction::Rescan,
        ),
        (LifecycleState::Renaming, LifecycleEvent::FileRenamed(true)) => (
            LifecycleState::Rescanning,
            LifecycleAction::Rescan,
        ),
        (LifecycleState::Rescanning, LifecycleEvent::Rescanned(_)) => (
            LifecycleState::Done,
            LifecycleAction::ClearTask,
        ),
        _ => fail,
    }
}

/// Starts an operation.
pub fn lifecycle_start(op: LifecycleOp) -> (r: (LifecycleState, LifecycleAction))
    ensures
        r == spec_lifecycle_start(op),
{
    match op {
        LifecycleOp::Install => (LifecycleState::Started, LifecycleAction::EnsureDir),
        LifecycleOp::Update => (LifecycleState::Started, LifecycleAction::EnsureDir),
        LifecycleOp::Enable => (LifecycleState::Renaming, LifecycleAction::RenameFile),
        LifecycleOp::Disable => (LifecycleState::Renaming, LifecycleAction::RenameFile),
    }
}

/// Advances an operation by one reported outcome.
pub fn lifecycle_step(op: LifecycleOp, state: LifecycleState, event: LifecycleEvent) -> (r: (
    LifecycleState,
    LifecycleAction,
))
    ensures
        r == spec_lifecycle_step(op, state, event),
        // An update downloads only once the old file is known to be gone:
        // either none was installed, or the delete succeeded. A failed
        // delete aborts before any download, so two versions never coexist.
        op == LifecycleOp::Update && r.1 == LifecycleAction::Download ==> (event
            == LifecycleEvent::OldFileFound(false) || event == LifecycleEvent::FileDeleted(true)),
        // The task entry is cleared exactly at a terminal state, success or
        // failure alike, and only then.
        (r.1 == LifecycleAction::ClearTask) <==> (r.0 == LifecycleState::Done || r.0
            == LifecycleState::Failed),
{
    match (state, event) {
        (LifecycleState::Started, LifecycleEvent::DirCreated(true)) => {
            if op == LifecycleOp::Update {
                (LifecycleState::DirReady, LifecycleAction::LookupOldFile)
            } else {
                (LifecycleState::Downloading, LifecycleAction::Download)
            }
        },
        (LifecycleState::DirReady, LifecycleEvent::OldFileFound(true)) => (
            LifecycleState::DeletingOld,
            LifecycleAction::DeleteOldFile,
        ),
        (LifecycleState::DirReady, LifecycleEvent::OldFileFound(false)) => (
            LifecycleState::Downloading,
            LifecycleAction::Download,
        ),
        (LifecycleState::DeletingOld, LifecycleEvent::FileDeleted(true)) => (
            LifecycleState::Downloading,
            LifecycleAction::Download,
        ),
        (LifecycleState::Downloading, LifecycleEvent::Downloaded(true)) => (
            LifecycleState::Rescanning,
            LifecycleAction::Rescan,
        ),
        (LifecycleState::Renaming, LifecycleEvent::FileRenamed(true)) => (
            LifecycleState::Rescanning,
            LifecycleAction::Rescan,
        ),
        (LifecycleState::Rescanning, LifecycleEvent::Rescanned(_)) => (
            LifecycleState::Done,
            LifecycleAction::ClearTask,
        ),
        _ => (LifecycleState::Failed, LifecycleAction::ClearTask),
    }
}

pub const MAX_PROBE_ATTEMPTS: u32 = 3;

pub const PROBE_TIMEOUT_SECS: u64 = 5;

pub const PROBE_RETRY_DELAY_SECS: u64 = 1;

/// What to do after one connectivity attempt.
#[derive(Debug, Clone, Copy, PartialEq, Eq, Structural)]
pub enum ProbeDecision {
    Succeed,
    RetryAfterDelay,
    Fail,
}

/// Decides the bounded connectivity retry: a successful attempt ends the
/// probe at once; a failed one is retried after a delay until the attempt
/// budget is spent, and exhausting it is terminal.
pub fn probe_step(attempts_done: u32, success: bool) -> (r: ProbeDecision)
    requires
        1 <= attempts_done <= MAX_PROBE_ATTEMPTS,
    ensures
        success ==> r == ProbeDecision::Succeed,
        !success && attempts_done < MAX_PROBE_ATTEMPTS ==> r == ProbeDecision::RetryAfterDelay,
        !success && attempts_done == MAX_PROBE_ATTEMPTS ==> r == ProbeDecision::Fail,
{
    if success {
        ProbeDecision::Succeed
    } else if attempts_done < MAX_PROBE_ATTEMPTS {
        ProbeDecision::RetryAfterDelay
    } else {
        ProbeDecision::Fail
    }
}

} // verus!
