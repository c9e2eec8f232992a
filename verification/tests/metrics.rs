use server_metrics::aggregator::MetricsError;
use server_metrics::aggregator::SnapshotAggregator;
use server_metrics::ring::WindowRing;

#[test]
fn no_loss_within_one_window() {
    let mut ring = WindowRing::new(0);
    ring.record_update_metrics(100_000, 10_000);
    ring.record_update_metrics(200_000, 20_000);
    ring.record_update_metrics(5_000_000, 7_500);
    assert_eq!(ring.live_totals(30_000_000), (3, 37_500));
}

#[test]
fn initialize_twice_resets() {
    let mut ring = WindowRing::new(0);
    ring.record_update_metrics(100_000, 10_000);
    ring.init_metrics(1_000_000);
    assert_eq!(ring.live_totals(1_000_000), (0, 0));
}

#[test]
fn idle_average_is_zero() {
    let ring = WindowRing::new(0);
    let mut agg = SnapshotAggregator::new();
    assert!(agg.update_server_metrics(&ring, 0, 0, 0, 0).is_ok());
    let snaps = agg.snapshots();
    assert_eq!(snaps.len(), 1);
    assert_eq!(snaps[0].average_update_time_us, 0);
    assert_eq!(snaps[0].updates_per_second_milli, 0);
}

#[test]
fn bucket_rolls_over_at_full_window() {
    let mut ring = WindowRing::new(0);
    // resets bucket 1: its period now starts at 61.5 s
    ring.record_update_metrics(61_500_000, 10_000);
    // strictly less than one full window later: accumulates
    ring.record_update_metrics(121_499_999, 5_000);
    assert_eq!(ring.live_totals(121_499_999), (2, 15_000));
    // exactly one full window after the period start: resets
    ring.record_update_metrics(121_500_000, 7_000);
    assert_eq!(ring.live_totals(121_500_000), (1, 7_000));
}

#[test]
fn stale_bucket_excluded_before_reset() {
    // data older than the window is excluded from the live totals even
    // though the bucket has not been physically reset yet
    let mut ring = WindowRing::new(0);
    ring.record_update_metrics(500_000, 4_000);
    assert_eq!(ring.live_totals(59_999_999), (1, 4_000));
    assert_eq!(ring.live_totals(60_000_000), (0, 0));
}

#[test]
fn retention_prunes_old_snapshots() {
    let ring = WindowRing::new(0);
    let mut agg = SnapshotAggregator::new();
    assert!(agg.update_server_metrics(&ring, 1_000_000, 0, 0, 0).is_ok());
    // a snapshot exactly at the horizon is kept: only strictly older go
    assert!(agg.update_server_metrics(&ring, 61_000_000, 0, 0, 0).is_ok());
    assert_eq!(agg.snapshots().len(), 2);
    // one microsecond further, the oldest snapshot falls off
    assert!(agg.update_server_metrics(&ring, 61_000_001, 0, 0, 0).is_ok());
    let stamps: Vec<u64> = agg.snapshots().iter().map(|s| s.timestamp_us).collect();
    assert_eq!(stamps, vec![61_000_000, 61_000_001]);
}

#[test]
fn end_to_end_two_records() {
    let mut ring = WindowRing::new(0);
    ring.record_update_metrics(100_000, 10_000);
    ring.record_update_metrics(200_000, 20_000);
    let mut agg = SnapshotAggregator::new();
    assert!(agg.update_server_metrics(&ring, 1_000_000, 5, 100, 1250).is_ok());
    let s = agg.snapshots()[0];
    assert_eq!(s.timestamp_us, 1_000_000);
    assert_eq!(s.connected_clients, 5);
    // two updates over the sixty-second window: 0.033 updates per second
    assert_eq!(s.updates_per_second_milli, 33);
    // (10 ms + 20 ms) / 2 = 15 ms
    assert_eq!(s.average_update_time_us, 15_000);
    assert_eq!(s.memory_usage_mb, 100);
    assert_eq!(s.cpu_usage_centi_percent, 1250);
}

#[test]
fn end_to_end_idle_window() {
    let ring = WindowRing::new(0);
    let mut agg = SnapshotAggregator::new();
    assert!(agg.update_server_metrics(&ring, 70_000_000, 3, 50, 800).is_ok());
    let s = agg.snapshots()[0];
    assert_eq!(s.updates_per_second_milli, 0);
    assert_eq!(s.average_update_time_us, 0);
}

#[test]
fn duplicate_timestamp_is_refused() {
    let ring = WindowRing::new(0);
    let mut agg = SnapshotAggregator::new();
    assert!(agg.update_server_metrics(&ring, 5_000_000, 1, 1, 1).is_ok());
    let r = agg.update_server_metrics(&ring, 5_000_000, 2, 2, 2);
    assert_eq!(r, Err(MetricsError::DuplicateKey));
    // the store is untouched: still the first snapshot alone
    assert_eq!(agg.snapshots().len(), 1);
    assert_eq!(agg.snapshots()[0].connected_clients, 1);
}

#[test]
fn can_record_guards_bucket_bounds() {
    let ring = WindowRing::new(0);
    assert!(ring.can_record(100_000, 10_000));
    // a latency beyond the per-bucket cap would overflow the counters
    assert!(!ring.can_record(100_000, u64::MAX));
}
