use starla::cleanup::{CleanupCycle, CleanupStep};
use starla::queries::{expired_count, measurement_stats};
use starla::store::{
    find_queue_id, measurement_key, CleanupConfig, queue_item_expired, queue_stats, record_failure,
    scheduler_stats, select_pending, ScheduledMeasurement, StoredMeasurement, UploadQueueItem,
};

const NOW: i64 = 1_768_132_800;

fn stored(id: u64, msm_id: u64, msm_type: &str) -> StoredMeasurement {
    StoredMeasurement::completed(
        id,
        msm_id,
        msm_type.to_string(),
        "8.8.8.8".to_string(),
        NOW,
        NOW,
        "{\"result\": \"ok\"}".to_string(),
    )
}

fn count(v: &[(String, i64, i128)], key: &str) -> i64 {
    v.iter().find(|(k, _, _)| k == key).map(|(_, c, _)| *c).unwrap()
}

fn enqueued(id: u64, measurement_id: i64) -> UploadQueueItem {
    UploadQueueItem { id, measurement_id, queued_at: NOW, attempts: 0, last_attempt: None, error: None }
}

#[test]
fn test_measurement_stats() {
    let records = vec![stored(1, 1001, "ping"), stored(2, 1002, "ping"), stored(3, 1003, "dns")];
    let stats = measurement_stats(&records);
    assert_eq!(count(&stats.count_by_type, "ping"), 2);
    assert_eq!(count(&stats.count_by_type, "dns"), 1);
    assert_eq!(count(&stats.count_by_status, "completed"), 3);
}

#[test]
fn test_upload_queue() {
    let mut queue = vec![enqueued(7, 1)];
    let stats = queue_stats(&queue);
    assert_eq!(stats.total_items, 1);
    assert_eq!(stats.pending_items, 1);
    assert_eq!(stats.failed_items, 0);
    let pending = select_pending(&queue, 10);
    assert_eq!(pending.len(), 1);
    assert_eq!(pending[0].0, 7);
    // An upload that succeeded removes its entry.
    let at = find_queue_id(&queue, 7).unwrap();
    queue.remove(at);
    assert_eq!(queue_stats(&queue).total_items, 0);
}

#[test]
fn test_upload_queue_failure() {
    let mut item = enqueued(7, 1);
    for i in 1..=12 {
        record_failure(&mut item, NOW + i, format!("Attempt {} failed", i));
    }
    let queue = vec![item];
    assert_eq!(select_pending(&queue, 10).len(), 0);
    assert_eq!(queue_stats(&queue).failed_items, 1);
}

#[test]
fn test_scheduler_persistence() {
    let mut tasks = vec![ScheduledMeasurement::new(
        2001,
        "*/5 * * * *".to_string(),
        r#"{"type":"ping","target":"8.8.8.8"}"#.to_string(),
        true,
    )];
    assert_eq!(tasks.len(), 1);
    assert_eq!(tasks[0].msm_id, 2001);
    assert_eq!(tasks[0].cron_spec, "*/5 * * * *");
    assert!(tasks[0].enabled);
    tasks[0].enabled = false;
    assert!(!tasks[0].enabled);
    let stats = scheduler_stats(&tasks);
    assert_eq!(stats.total_tasks, 1);
    assert_eq!(stats.disabled_tasks, 1);
}

#[test]
fn test_cleanup_time_based() {
    let keys: Vec<Vec<u8>> = (1..=5).map(|i| measurement_key(NOW, i)).collect();
    assert_eq!(expired_count(&keys, NOW + 86400), 5);
}

#[test]
fn test_upload_queue_cleanup() {
    let mut item = enqueued(7, 1);
    for i in 1..=11 {
        record_failure(&mut item, NOW + i, format!("Error {}", i));
    }
    let queue = vec![item];
    let kept: Vec<&UploadQueueItem> = queue.iter().filter(|q| !queue_item_expired(q, NOW + 86400)).collect();
    assert_eq!(queue.len() - kept.len(), 1);
    assert_eq!(kept.len(), 0);
}

#[test]
fn test_cleanup_cycle() {
    let config = CleanupConfig { retention_days: 0, max_database_size_mb: 100, cleanup_interval_hours: 24 };
    let (mut cycle, first) = CleanupCycle::start(&config, NOW);
    assert_eq!(first, CleanupStep::MeasureSize);
    // Three measurements are stored; a retention of zero days deletes them all.
    assert_eq!(cycle.on_size(3 * 4096), CleanupStep::DeleteOlderThan(NOW));
    assert_eq!(cycle.on_deleted(3), CleanupStep::MeasureSize);
    assert_eq!(cycle.on_size(4096), CleanupStep::DeleteQueueOlderThan(NOW));
    assert_eq!(cycle.on_deleted(0), CleanupStep::MeasureSize);
    match cycle.on_size(4096) {
        CleanupStep::Done(stats) => {
            assert_eq!(stats.deleted_by_time, 3);
            assert_eq!(stats.deleted_by_size, 0);
            assert!(stats.size_after_bytes <= stats.size_before_bytes);
        }
        other => panic!("cycle not finished: {:?}", other),
    }
}
