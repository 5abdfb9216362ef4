use plugin_market::lifecycle::{
    lifecycle_start, lifecycle_step, probe_step, LifecycleOp, LifecycleState, LifecycleEvent,
    LifecycleAction, ProbeDecision, MAX_PROBE_ATTEMPTS,
};
use plugin_market::tasks::{TaskRegistry, OperationKind};

#[test]
fn duplicate_start_is_a_no_op() {
    let mut reg = TaskRegistry::new();
    assert!(reg.try_start("Tool_ann", OperationKind::Update));
    assert_eq!(reg.task_count(), 1);
    // A second update for the same identity is refused; the count stays 1.
    assert!(!reg.try_start("Tool_ann", OperationKind::Update));
    assert_eq!(reg.task_count(), 1);
    assert!(reg.is_in_flight("Tool_ann", OperationKind::Update));
}

#[test]
fn kinds_are_tracked_independently() {
    let mut reg = TaskRegistry::new();
    assert!(reg.try_start("Tool_ann", OperationKind::Update));
    assert!(reg.try_start("Tool_ann", OperationKind::Download));
    assert!(reg.try_start("Other_bob", OperationKind::Update));
    assert_eq!(reg.task_count(), 3);
}

#[test]
fn finishing_clears_only_its_key() {
    let mut reg = TaskRegistry::new();
    reg.try_start("Tool_ann", OperationKind::Install);
    reg.try_start("Other_bob", OperationKind::Install);
    reg.finish("Tool_ann", OperationKind::Install);
    assert!(!reg.is_in_flight("Tool_ann", OperationKind::Install));
    assert!(reg.is_in_flight("Other_bob", OperationKind::Install));
    assert_eq!(reg.task_count(), 1);
    // Finishing an absent key changes nothing.
    reg.finish("Tool_ann", OperationKind::Install);
    assert_eq!(reg.task_count(), 1);
    // After finishing, the same key may start again.
    assert!(reg.try_start("Tool_ann", OperationKind::Install));
}

#[test]
fn install_runs_dir_download_rescan_clear() {
    let (s, a) = lifecycle_start(LifecycleOp::Install);
    assert_eq!(a, LifecycleAction::EnsureDir);
    let (s, a) = lifecycle_step(LifecycleOp::Install, s, LifecycleEvent::DirCreated(true));
    assert_eq!(a, LifecycleAction::Download);
    let (s, a) = lifecycle_step(LifecycleOp::Install, s, LifecycleEvent::Downloaded(true));
    assert_eq!(a, LifecycleAction::Rescan);
    let (s, a) = lifecycle_step(LifecycleOp::Install, s, LifecycleEvent::Rescanned(true));
    assert_eq!(s, LifecycleState::Done);
    assert_eq!(a, LifecycleAction::ClearTask);
}

#[test]
fn update_deletes_the_old_file_before_downloading() {
    let (s, a) = lifecycle_start(LifecycleOp::Update);
    assert_eq!(a, LifecycleAction::EnsureDir);
    let (s, a) = lifecycle_step(LifecycleOp::Update, s, LifecycleEvent::DirCreated(true));
    assert_eq!(a, LifecycleAction::LookupOldFile);
    let (s, a) = lifecycle_step(LifecycleOp::Update, s, LifecycleEvent::OldFileFound(true));
    assert_eq!(a, LifecycleAction::DeleteOldFile);
    let (s, a) = lifecycle_step(LifecycleOp::Update, s, LifecycleEvent::FileDeleted(true));
    assert_eq!(a, LifecycleAction::Download);
    let (_, a) = lifecycle_step(LifecycleOp::Update, s, LifecycleEvent::Downloaded(true));
    assert_eq!(a, LifecycleAction::Rescan);
}

#[test]
fn update_aborts_when_the_delete_fails() {
    let (s, _) = lifecycle_start(LifecycleOp::Update);
    let (s, _) = lifecycle_step(LifecycleOp::Update, s, LifecycleEvent::DirCreated(true));
    let (s, _) = lifecycle_step(LifecycleOp::Update, s, LifecycleEvent::OldFileFound(true));
    // The old file could not be deleted: no download may follow.
    let (s, a) = lifecycle_step(LifecycleOp::Update, s, LifecycleEvent::FileDeleted(false));
    assert_eq!(s, LifecycleState::Failed);
    assert_eq!(a, LifecycleAction::ClearTask);
}

#[test]
fn update_without_an_old_file_downloads_directly() {
    let (s, _) = lifecycle_start(LifecycleOp::Update);
    let (s, _) = lifecycle_step(LifecycleOp::Update, s, LifecycleEvent::DirCreated(true));
    let (_, a) = lifecycle_step(LifecycleOp::Update, s, LifecycleEvent::OldFileFound(false));
    assert_eq!(a, LifecycleAction::Download);
}

#[test]
fn enable_renames_then_rescans() {
    let (s, a) = lifecycle_start(LifecycleOp::Enable);
    assert_eq!(a, LifecycleAction::RenameFile);
    let (s, a) = lifecycle_step(LifecycleOp::Enable, s, LifecycleEvent::FileRenamed(true));
    assert_eq!(a, LifecycleAction::Rescan);
    let (s, a) = lifecycle_step(LifecycleOp::Enable, s, LifecycleEvent::Rescanned(true));
    assert_eq!(s, LifecycleState::Done);
    assert_eq!(a, LifecycleAction::ClearTask);
}

#[test]
fn any_failure_clears_the_task() {
    let (s, _) = lifecycle_start(LifecycleOp::Install);
    let (s2, a) = lifecycle_step(LifecycleOp::Install, s, LifecycleEvent::DirCreated(false));
    assert_eq!(s2, LifecycleState::Failed);
    assert_eq!(a, LifecycleAction::ClearTask);

    let (s, _) = lifecycle_start(LifecycleOp::Disable);
    let (s2, a) = lifecycle_step(LifecycleOp::Disable, s, LifecycleEvent::FileRenamed(false));
    assert_eq!(s2, LifecycleState::Failed);
    assert_eq!(a, LifecycleAction::ClearTask);
}

#[test]
fn probe_retries_until_the_budget_is_spent() {
    assert_eq!(MAX_PROBE_ATTEMPTS, 3);
    assert_eq!(probe_step(1, true), ProbeDecision::Succeed);
    assert_eq!(probe_step(1, false), ProbeDecision::RetryAfterDelay);
    assert_eq!(probe_step(2, false), ProbeDecision::RetryAfterDelay);
    assert_eq!(probe_step(3, false), ProbeDecision::Fail);
    assert_eq!(probe_step(3, true), ProbeDecision::Succeed);
}
