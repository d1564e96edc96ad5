use latte_album::websocket::scan_state::{
    ProgressUpdate, ScanPhase, ScanState, ScanStateManager,
};

#[test]
fn test_scan_phase_variants() {
    assert_eq!(ScanPhase::Idle, ScanPhase::Idle);
    assert_eq!(ScanPhase::Collecting, ScanPhase::Collecting);
    assert_eq!(ScanPhase::Counting, ScanPhase::Counting);
    assert_eq!(ScanPhase::Processing, ScanPhase::Processing);
    assert_eq!(ScanPhase::Writing, ScanPhase::Writing);
    assert_eq!(ScanPhase::Deleting, ScanPhase::Deleting);
    assert_eq!(ScanPhase::Completed, ScanPhase::Completed);
    assert_eq!(ScanPhase::Error, ScanPhase::Error);
    assert_eq!(ScanPhase::Cancelled, ScanPhase::Cancelled);
}

#[test]
fn test_scan_phase_default() {
    assert_eq!(ScanPhase::default(), ScanPhase::Idle);
}

#[test]
fn test_scan_state_default() {
    let state = ScanState::default();
    assert_eq!(state.phase, ScanPhase::Idle);
    assert!(!state.scanning);
    assert_eq!(state.total_files, 0);
    assert_eq!(state.success_count, 0);
    assert_eq!(state.failure_count, 0);
}

#[test]
fn test_scan_state_with_values() {
    let mut state = ScanState::default();
    state.phase = ScanPhase::Processing;
    state.scanning = true;
    state.total_files = 100;
    state.success_count = 50;

    assert_eq!(state.phase, ScanPhase::Processing);
    assert!(state.scanning);
    assert_eq!(state.total_files, 100);
    assert_eq!(state.success_count, 50);
}

#[test]
fn test_scan_state_manager_new() {
    let manager = ScanStateManager::new();
    let state = manager.get_state();
    assert_eq!(state.phase, ScanPhase::Idle);
}

#[test]
fn test_scan_state_manager_new_with_interval() {
    let manager = ScanStateManager::new_with_interval(20);
    let state = manager.get_state();
    assert_eq!(state.phase, ScanPhase::Idle);
    assert_eq!(manager.broadcast_interval, 20);
}

#[test]
fn test_scan_state_manager_set_phase() {
    let mut manager = ScanStateManager::new_with_interval(10);
    manager.set_phase(ScanPhase::Collecting);
    let state = manager.get_state();
    assert_eq!(state.phase, ScanPhase::Collecting);
}

#[test]
fn test_scan_state_manager_set_total() {
    let mut manager = ScanStateManager::new_with_interval(10);
    manager.set_total(500);
    let state = manager.get_state();
    assert_eq!(state.total_files, 500);
}

#[test]
fn test_scan_state_manager_increment_success() {
    let mut manager = ScanStateManager::new_with_interval(10);
    manager.increment_success();
    manager.increment_success();
    let state = manager.get_state();
    assert_eq!(state.success_count, 2);
}

#[test]
fn test_scan_state_manager_increment_failure() {
    let mut manager = ScanStateManager::new_with_interval(10);
    manager.increment_failure();
    let state = manager.get_state();
    assert_eq!(state.failure_count, 1);
}

#[test]
fn test_scan_state_manager_set_file_counts() {
    let mut manager = ScanStateManager::new_with_interval(10);
    manager.set_file_counts(10, 5, 3);
    let state = manager.get_state();
    assert_eq!(state.files_to_add, 10);
    assert_eq!(state.files_to_update, 5);
    assert_eq!(state.files_to_delete, 3);
}

#[test]
fn test_scan_state_manager_reset_counters() {
    let mut manager = ScanStateManager::new_with_interval(10);
    manager.increment_success();
    manager.increment_failure();
    manager.reset_counters();
    let state = manager.get_state();
    assert_eq!(state.success_count, 0);
    assert_eq!(state.failure_count, 0);
}

#[test]
fn test_scan_state_manager_started() {
    let mut manager = ScanStateManager::new_with_interval(10);
    manager.started();
    let state = manager.get_state();
    assert!(state.scanning);
    assert!(state.start_time.is_some());
}

#[test]
fn test_scan_state_manager_completed() {
    let mut manager = ScanStateManager::new_with_interval(10);
    manager.completed();
    let state = manager.get_state();
    assert!(!state.scanning);
    assert_eq!(state.phase, ScanPhase::Idle);
}

#[test]
fn test_scan_state_manager_error() {
    let mut manager = ScanStateManager::new_with_interval(10);
    manager.error();
    let state = manager.get_state();
    assert!(!state.scanning);
    assert_eq!(state.phase, ScanPhase::Idle);
}

#[test]
fn test_scan_state_manager_cancelled() {
    let mut manager = ScanStateManager::new_with_interval(10);
    manager.cancelled();
    let state = manager.get_state();
    assert!(!state.scanning);
    assert_eq!(state.phase, ScanPhase::Idle);
}

#[test]
fn test_scan_state_manager_get_state() {
    let mut manager = ScanStateManager::new_with_interval(10);
    manager.set_phase(ScanPhase::Processing);
    manager.set_total(100);
    let state = manager.get_state();
    assert_eq!(state.phase, ScanPhase::Processing);
    assert_eq!(state.total_files, 100);
}

#[test]
fn test_scan_state_manager_to_progress_message() {
    let mut manager = ScanStateManager::new_with_interval(10);
    manager.set_phase(ScanPhase::Processing);
    manager.set_total(100);
    manager.increment_success();
    let msg = manager.to_progress_message();
    assert_eq!(msg.phase, Some("processing".to_string()));
    assert_eq!(msg.total_files, 100);
    assert_eq!(msg.success_count, 1);
    assert_eq!(msg.status, "progress");
    assert_eq!(msg.progress_percentage, "1.00");
    assert!(msg.scanning);
}

#[test]
fn test_status_from_phase() {
    assert_eq!(ScanStateManager::status_from_phase(ScanPhase::Idle), "idle");
    assert_eq!(ScanStateManager::status_from_phase(ScanPhase::Collecting), "progress");
    assert_eq!(ScanStateManager::status_from_phase(ScanPhase::Counting), "progress");
    assert_eq!(ScanStateManager::status_from_phase(ScanPhase::Processing), "progress");
    assert_eq!(ScanStateManager::status_from_phase(ScanPhase::Writing), "progress");
    assert_eq!(ScanStateManager::status_from_phase(ScanPhase::Deleting), "progress");
    assert_eq!(ScanStateManager::status_from_phase(ScanPhase::Completed), "completed");
    assert_eq!(ScanStateManager::status_from_phase(ScanPhase::Error), "error");
    assert_eq!(ScanStateManager::status_from_phase(ScanPhase::Cancelled), "cancelled");
}

#[test]
fn test_scan_state_manager_clone() {
    let mut manager1 = ScanStateManager::new_with_interval(10);
    manager1.set_phase(ScanPhase::Collecting);
    let manager2 = manager1.clone();
    assert_eq!(manager2.get_state().phase, ScanPhase::Collecting);
}

#[test]
fn test_scan_state_manager_broadcast_before_reset() {
    let mut manager = ScanStateManager::new_with_interval(10);
    let started = manager.started().expect("the start is announced");
    assert!(started.scanning);
    let msg = manager.completed().expect("Should receive completed message");
    assert_eq!(msg.status, "completed");
    assert!(!msg.scanning);
    assert!(msg.start_time.is_some());
    let state = manager.get_state();
    assert_eq!(state.phase, ScanPhase::Idle);
    assert!(!state.scanning);
    assert_eq!(state.start_time, None);
}

#[test]
fn progress_goes_out_every_interval_files() {
    let mut manager = ScanStateManager::new_with_interval(3);
    assert!(manager.set_phase(ScanPhase::Processing).is_some());
    assert!(manager.set_total(10).is_none());
    assert!(manager.increment_success().is_none());
    assert!(manager.increment_failure().is_none());
    let third = manager.increment_success().expect("third file is reported");
    assert_eq!(third.success_count, 2);
    assert_eq!(third.failure_count, 1);
    assert_eq!(third.progress_percentage, "30.00");
    assert_eq!(third.status, "progress");
    assert_eq!(third.phase, Some("processing".to_string()));
    assert!(manager.increment_success().is_none());
    assert_eq!(manager.last_progress_reported, 3);
    assert!(manager.set_file_counts(1, 2, 3).is_none());
}

#[test]
fn every_terminal_update_resets_to_idle() {
    for update in [
        ProgressUpdate::Completed,
        ProgressUpdate::Error,
        ProgressUpdate::Cancelled,
        ProgressUpdate::SetPhase(ScanPhase::Completed),
    ] {
        let mut manager = ScanStateManager::new();
        manager.apply(ProgressUpdate::Started, 1_700_000_000);
        manager.apply(ProgressUpdate::SetTotal(4), 0);
        manager.apply(ProgressUpdate::IncrementSuccess, 0);
        manager.apply(ProgressUpdate::SetFileCounts(1, 2, 3), 0);
        let msg = manager.apply(update, 0).expect("an end is always announced");
        assert!(!msg.scanning);
        assert_eq!(msg.total_files, 4);
        assert_eq!(msg.success_count, 1);
        assert_eq!(msg.files_to_delete, 3);
        assert_eq!(msg.progress_percentage, "25.00");
        assert_eq!(msg.start_time, Some("2023-11-14T22:13:20+00:00".to_string()));
        assert_eq!(manager.get_state(), ScanState::default());
        assert_eq!(manager.last_progress_reported, 0);
        let idle = manager.to_progress_message();
        assert_eq!(idle.status, "idle");
        assert_eq!(idle.phase, Some("idle".to_string()));
        assert_eq!(idle.progress_percentage, "0.00");
    }
}

#[test]
fn scanning_follows_the_phase() {
    let mut manager = ScanStateManager::new();
    for phase in [
        ScanPhase::Collecting,
        ScanPhase::Counting,
        ScanPhase::Processing,
        ScanPhase::Writing,
        ScanPhase::Deleting,
    ] {
        let msg = manager.set_phase(phase).unwrap();
        assert!(msg.scanning);
        assert!(manager.get_state().scanning);
        assert_eq!(msg.phase, Some(phase.as_str().to_string()));
    }
    let msg = manager.set_phase(ScanPhase::Idle).unwrap();
    assert!(!msg.scanning);
    assert_eq!(msg.status, "idle");
    manager.started();
    assert_eq!(manager.get_state().phase, ScanPhase::Collecting);
}

#[test]
fn counters_stay_at_the_largest_value() {
    let mut manager = ScanStateManager::new_with_interval(u64::MAX);
    manager.state.success_count = u64::MAX;
    manager.last_progress_reported = 0;
    manager.increment_success();
    assert_eq!(manager.get_state().success_count, u64::MAX);
    manager.set_broadcast_interval(5);
    assert_eq!(manager.broadcast_interval, 5);
}

#[test]
fn percentages_round_half_to_even() {
    let mut manager = ScanStateManager::new_with_interval(1000);
    manager.set_total(160);
    for _ in 0..23 {
        manager.increment_success();
    }
    assert_eq!(manager.to_progress_message().progress_percentage, "14.38");
    for _ in 0..26 {
        manager.increment_failure();
    }
    assert_eq!(manager.to_progress_message().progress_percentage, "30.62");
    manager.set_total(3);
    manager.reset_counters();
    manager.increment_success();
    assert_eq!(manager.to_progress_message().progress_percentage, "33.33");
    manager.increment_success();
    assert_eq!(manager.to_progress_message().progress_percentage, "66.67");
}
