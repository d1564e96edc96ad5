use latte_album::api::system::{cancel_scan, get_scan_progress, get_status, trigger_rescan};
use latte_album::websocket::broadcast::{ScanProgressBroadcaster, ScanProgressMessage};
use latte_album::websocket::progress::ScanProgressTracker;

#[test]
fn test_scan_progress_message_default() {
    let msg = ScanProgressMessage::default();
    assert!(!msg.scanning);
    assert!(msg.phase.is_none());
    assert_eq!(msg.total_files, 0);
    assert_eq!(msg.success_count, 0);
    assert_eq!(msg.failure_count, 0);
    assert_eq!(msg.progress_percentage, "0.00");
    assert_eq!(msg.status, "idle");
}

#[test]
fn test_scan_progress_broadcaster_new() {
    let broadcaster = ScanProgressBroadcaster::new();
    assert!(broadcaster.last.is_none());
}

#[test]
fn test_scan_progress_broadcaster_send_started() {
    let mut broadcaster = ScanProgressBroadcaster::new();
    let msg = broadcaster.send_started(10, 5, 2, 100, "processing");
    assert!(msg.scanning);
    assert_eq!(msg.status, "started");
    assert_eq!(msg.files_to_add, 10);
    assert_eq!(msg.files_to_update, 5);
    assert_eq!(msg.files_to_delete, 2);
    assert_eq!(msg.total_files, 100);
    assert_eq!(msg.phase, Some("processing".to_string()));
    assert_eq!(msg.success_count, 0);
    assert_eq!(msg.progress_percentage, "0.00");
    assert!(msg.start_time.is_some());
    assert_eq!(broadcaster.get_current_progress_sync().status, "started");
}

#[test]
fn test_scan_progress_broadcaster_send_cancelled() {
    let mut broadcaster = ScanProgressBroadcaster::new();
    let msg = broadcaster.send_cancelled();
    assert!(!msg.scanning);
    assert_eq!(msg.status, "cancelled");
}

#[test]
fn test_scan_progress_broadcaster_send_error() {
    let mut broadcaster = ScanProgressBroadcaster::new();
    let msg = broadcaster.send_error();
    assert!(!msg.scanning);
    assert_eq!(msg.status, "error");
}

#[test]
fn test_scan_progress_broadcaster_get_current_progress() {
    let broadcaster = ScanProgressBroadcaster::new();
    let progress = broadcaster.get_current_progress();
    assert!(!progress.scanning);
    assert_eq!(progress.status, "idle");
}

#[test]
fn test_scan_progress_broadcaster_update_phase() {
    let mut broadcaster = ScanProgressBroadcaster::new();
    let msg = broadcaster.update_phase("collecting");
    assert_eq!(msg.phase, Some("collecting".to_string()));
    assert!(msg.scanning);
    let msg = broadcaster.update_phase_with_total("counting", 9);
    assert_eq!(msg.phase, Some("counting".to_string()));
    assert_eq!(msg.total_files, 9);
}

#[test]
fn test_scan_progress_broadcaster_update_total() {
    let mut broadcaster = ScanProgressBroadcaster::new();
    let msg = broadcaster.update_total(500);
    assert_eq!(msg.total_files, 500);
    assert_eq!(msg.status, "idle");
}

#[test]
fn test_scan_progress_broadcaster_send_progress() {
    let mut broadcaster = ScanProgressBroadcaster::new();
    let msg = broadcaster.send_progress(50, 2, 100);
    assert_eq!(msg.success_count, 50);
    assert_eq!(msg.failure_count, 2);
    assert_eq!(msg.progress_percentage, "52.00");
    assert_eq!(msg.status, "progress");
    assert_eq!(broadcaster.send_progress(1, 0, 0).progress_percentage, "0.00");
}

#[test]
fn test_scan_progress_broadcaster_get_current_progress_sync() {
    let broadcaster = ScanProgressBroadcaster::new();
    let progress = broadcaster.get_current_progress_sync();
    assert!(!progress.scanning);
}

#[test]
fn each_message_builds_on_the_last() {
    let mut broadcaster = ScanProgressBroadcaster::default();
    broadcaster.send_started_at(1, 2, 3, 6, "processing", Some("2024-06-15T10:00:00Z".to_string()));
    broadcaster.send_progress(2, 1, 6);
    let done = broadcaster.send_completed();
    assert!(!done.scanning);
    assert_eq!(done.status, "completed");
    assert_eq!(done.phase, Some("processing".to_string()));
    assert_eq!(done.success_count, 2);
    assert_eq!(done.failure_count, 1);
    assert_eq!(done.progress_percentage, "50.00");
    assert_eq!(done.files_to_add, 1);
    assert_eq!(done.start_time, Some("2024-06-15T10:00:00Z".to_string()));
    assert_eq!(broadcaster.get_current_progress().status, "completed");
}

#[test]
fn the_tracker_reports_every_fifth_result_and_the_last() {
    let mut tracker = ScanProgressTracker::new();
    tracker.set_phase("processing", "Processing files");
    tracker.set_total(7);
    assert_eq!(tracker.get_total(), 7);
    assert_eq!(tracker.get_phase_info(), ("processing".to_string(), "Processing files".to_string()));
    let mut sent = Vec::new();
    for i in 0..7 {
        if let Some(m) = tracker.report_result(i % 3 != 0) {
            sent.push(m);
        }
    }
    assert_eq!(tracker.get_counts(), (4, 3));
    assert_eq!(sent.len(), 2);
    assert_eq!(sent[0].success_count + sent[0].failure_count, 5);
    assert_eq!(sent[0].progress_percentage, "71.43");
    assert_eq!(sent[0].status, "progress");
    assert_eq!(sent[0].phase, Some("processing".to_string()));
    assert!(sent[0].scanning);
    assert_eq!(sent[1].progress_percentage, "100.00");
    assert_eq!(sent[1].total_files, 7);
    assert_eq!(sent[1].start_time, None);
}

#[test]
fn system_answers() {
    let r = trigger_rescan();
    assert!(r.success);
    assert_eq!(r.message, "Scan started");
    let c = cancel_scan(true);
    assert!(c.success);
    assert_eq!(c.message, "Scan cancelled");
    let c = cancel_scan(false);
    assert!(!c.success);
    assert_eq!(c.message, "No scan in progress");
    let mut broadcaster = ScanProgressBroadcaster::new();
    broadcaster.send_started_at(1, 2, 3, 6, "processing", Some("t".to_string()));
    let p = get_scan_progress(broadcaster.send_progress(1, 1, 6));
    assert!(p.scanning);
    assert_eq!(p.phase, Some("processing".to_string()));
    assert_eq!((p.total_files, p.success_count, p.failure_count), (6, 1, 1));
    assert_eq!(p.progress_percentage, "33.33");
    assert_eq!((p.files_to_add, p.files_to_update, p.files_to_delete), (1, 2, 3));
    assert_eq!(p.start_time, Some("t".to_string()));
    let s = get_status(Some(10), Some(7), None, Some(2048), Some("2024-01-01".to_string()));
    assert_eq!(s.status, "running");
    assert_eq!((s.total_files, s.image_count, s.video_count), (10, 7, 0));
    assert_eq!(s.cache_size_bytes, 2048);
    assert_eq!(s.last_scan_time, Some("2024-01-01".to_string()));
    let s = get_status(None, None, None, None, None);
    assert_eq!((s.total_files, s.cache_size_bytes), (0, 0));
}
