use starla::keys::{decode_i64, decode_u64, encode_i64, encode_u64};
use starla::store::{
    find_queue_id, measurement_key, over_size_limit, queue_item_expired, queue_stats,
    record_failure, retention_cutoff, scheduled_key, scheduler_stats, select_pending,
    size_target_bytes, stored_i64_or, stored_u32_or, time_bound_key, upload_queue_key,
    default_probe_info, IdGenerator, ScheduledMeasurement, StoredMeasurement, UploadQueueItem,
    msm_index_key, type_index_key, status_index_key, cleanup_interval_secs,
};

#[test]
fn u64_encoding_is_big_endian_and_round_trips() {
    assert_eq!(encode_u64(0x0102030405060708), [1, 2, 3, 4, 5, 6, 7, 8]);
    for v in [0u64, 1, 255, 256, 0xdead_beef, u64::MAX] {
        assert_eq!(decode_u64(&encode_u64(v)), v);
    }
}

#[test]
fn i64_encoding_sorts_negative_first_and_round_trips() {
    assert_eq!(encode_i64(0), [0x80, 0, 0, 0, 0, 0, 0, 0]);
    assert_eq!(encode_i64(i64::MIN), [0; 8]);
    assert_eq!(encode_i64(i64::MAX), [0xff; 8]);
    let values = [i64::MIN, -1_000_000, -1, 0, 1, 1_700_000_000, i64::MAX];
    for v in values {
        assert_eq!(decode_i64(&encode_i64(v)), v);
    }
    for w in values.windows(2) {
        assert!(encode_i64(w[0]) < encode_i64(w[1]));
    }
}

#[test]
fn decode_reads_only_the_first_eight_bytes() {
    let mut bytes = encode_u64(42).to_vec();
    bytes.extend_from_slice(&[9, 9, 9]);
    assert_eq!(decode_u64(&bytes), 42);
}

#[test]
fn record_keys_have_their_layout() {
    let k = upload_queue_key(-5, 7);
    assert_eq!(k.len(), 17);
    assert_eq!(k[0], b'q');
    assert_eq!(&k[1..9], &encode_i64(-5));
    assert_eq!(&k[9..], &encode_u64(7));
    let s = scheduled_key(2001);
    assert_eq!(s[0], b's');
    assert_eq!(&s[1..], &encode_i64(2001));
    let m = msm_index_key(1001, 10, 3);
    assert_eq!(&m[..8], b"idx:msm:");
    assert_eq!(m.len(), 32);
    let t = type_index_key("ping", 10, 3);
    assert_eq!(&t[..14], b"idx:type:ping:");
    let st = status_index_key("completed", 10, 3);
    assert_eq!(&st[..21], b"idx:status:completed:");
}

#[test]
fn queue_keys_sort_by_time_then_id() {
    assert!(upload_queue_key(1, 9) < upload_queue_key(2, 0));
    assert!(upload_queue_key(2, 1) < upload_queue_key(2, 5));
    assert!(upload_queue_key(-3, 100) < upload_queue_key(0, 0));
}

#[test]
fn cleanup_bound_separates_older_measurements() {
    let bound = time_bound_key(1000);
    assert!(measurement_key(999, u64::MAX) < bound);
    assert!(measurement_key(1000, 0) >= bound);
    assert!(measurement_key(1001, 0) >= bound);
}

#[test]
fn id_generator_counts_up_from_the_clock() {
    let mut g = IdGenerator::from_millis(3);
    assert_eq!(g.next_id(), 3 << 16);
    assert_eq!(g.next_id(), (3 << 16) + 1);
    let mut h = IdGenerator::new();
    let a = h.next_id();
    let b = h.next_id();
    assert_eq!(a % 65536, 0);
    assert_eq!(b, a + 1);
}

fn item(id: u64, msm: i64, queued_at: i64, attempts: i64) -> UploadQueueItem {
    UploadQueueItem {
        id,
        measurement_id: msm,
        queued_at,
        attempts,
        last_attempt: None,
        error: None,
    }
}

#[test]
fn pending_selection_skips_given_up_entries_and_stops_at_the_limit() {
    let items = vec![item(1, 11, 5, 0), item(2, 12, 6, 10), item(3, 13, 7, 9), item(4, 14, 8, 0)];
    assert_eq!(select_pending(&items, 10), vec![(1, 11), (3, 13), (4, 14)]);
    assert_eq!(select_pending(&items, 2), vec![(1, 11), (3, 13)]);
    // The entry that reaches the limit is kept, so a limit of 0 gives one.
    assert_eq!(select_pending(&items, 0), vec![(1, 11)]);
    // A negative limit read as usize is no limit at all.
    assert_eq!(select_pending(&items, -1).len(), 3);
    assert!(select_pending(&Vec::new(), 5).is_empty());
}

#[test]
fn failures_count_up_until_the_entry_is_given_up() {
    let mut it = item(7, 70, 100, 0);
    for i in 1..=12 {
        record_failure(&mut it, 200 + i, format!("Attempt {} failed", i));
    }
    assert_eq!(it.attempts, 12);
    assert_eq!(it.last_attempt, Some(212));
    assert_eq!(it.error.as_deref(), Some("Attempt 12 failed"));
    let items = vec![it];
    assert!(select_pending(&items, 10).is_empty());
    let stats = queue_stats(&items);
    assert_eq!(stats.total_items, 1);
    assert_eq!(stats.pending_items, 0);
    assert_eq!(stats.failed_items, 1);
}

#[test]
fn queue_stats_count_and_find_the_oldest() {
    let items = vec![item(1, 11, 50, 0), item(2, 12, 20, 10), item(3, 13, 30, 1)];
    let s = queue_stats(&items);
    assert_eq!(s.total_items, 3);
    assert_eq!(s.pending_items, 2);
    assert_eq!(s.failed_items, 1);
    assert_eq!(s.oldest_queued_at, Some(20));
    assert_eq!(queue_stats(&Vec::new()).oldest_queued_at, None);
}

#[test]
fn upload_outcomes_find_their_entry() {
    let items = vec![item(1, 11, 50, 0), item(2, 12, 20, 0), item(2, 13, 30, 0)];
    assert_eq!(find_queue_id(&items, 2), Some(1));
    assert_eq!(find_queue_id(&items, 9), None);
    assert_eq!(find_queue_id(&items, -1), None);
}

#[test]
fn queue_cleanup_removes_old_or_given_up_entries() {
    assert!(queue_item_expired(&item(1, 1, 10, 0), 11));
    assert!(!queue_item_expired(&item(1, 1, 11, 9), 11));
    assert!(queue_item_expired(&item(1, 1, 100, 10), 11));
}

#[test]
fn scheduler_stats_count_enabled_tasks() {
    let mut t = ScheduledMeasurement::new(2001, "*/5 * * * *".to_string(), "{}".to_string(), true);
    assert_eq!(t.msm_id, 2001);
    assert_eq!(t.cron_spec, "*/5 * * * *");
    assert!(t.last_run.is_none() && t.next_run.is_none());
    let u = ScheduledMeasurement::new(2002, String::new(), String::new(), true);
    t.enabled = false;
    let s = scheduler_stats(&vec![t, u]);
    assert_eq!(s.total_tasks, 2);
    assert_eq!(s.enabled_tasks, 1);
    assert_eq!(s.disabled_tasks, 1);
}

#[test]
fn stored_records_and_their_keys() {
    let m = StoredMeasurement::completed(5, 1001, "ping".into(), "8.8.8.8".into(), 100, 110, "{}".into());
    assert!(m.is_completed());
    assert_eq!(m.primary_key(), measurement_key(100, 5));
    let (a, b, c) = m.index_keys();
    assert_eq!(a, msm_index_key(1001, 100, 5));
    assert_eq!(b, type_index_key("ping", 100, 5));
    assert_eq!(c, status_index_key("completed", 100, 5));
    let f = StoredMeasurement::failed(6, u64::MAX, "dns".into(), "t".into(), "boom".into(), 7);
    assert!(!f.is_completed());
    assert_eq!(f.msm_id, -1);
    assert_eq!(f.started_at, 7);
    assert_eq!(f.completed_at, 7);
    assert_eq!(f.error.as_deref(), Some("boom"));
}

#[test]
fn cleanup_thresholds() {
    assert_eq!(retention_cutoff(1_000_000, 1), 1_000_000 - 86400);
    assert_eq!(retention_cutoff(5, 0), 5);
    assert!(!over_size_limit(1024 * 1024, 1));
    assert!(over_size_limit(1024 * 1024 + 1, 1));
    assert!(over_size_limit(1, 0));
    assert_eq!(size_target_bytes(3), 3 * 1024 * 1024);
    assert_eq!(cleanup_interval_secs(24), 86400);
}

#[test]
fn stored_metadata_reads_numbers_with_defaults() {
    assert_eq!(stored_u32_or(Some(&b"54321".to_vec()), 0), 54321);
    assert_eq!(stored_u32_or(Some(&b"x".to_vec()), 6000), 6000);
    assert_eq!(stored_u32_or(None, 6000), 6000);
    assert_eq!(stored_i64_or(Some(&b"-12".to_vec()), 0), -12);
    assert_eq!(stored_i64_or(None, 0), 0);
    let d = default_probe_info();
    assert_eq!(d[0], ("firmware_version".to_string(), "6000".to_string()));
    assert_eq!(d[1], ("probe_id".to_string(), "0".to_string()));
    assert_eq!(d[2], ("registered_at".to_string(), "0".to_string()));
}
