use termvid::pacing::{cycle_wait, paced_total_ms, FRAME_INTERVAL_MS};

#[test]
fn fast_work_waits_out_the_interval() {
    assert_eq!(cycle_wait(5, FRAME_INTERVAL_MS), 35);
    assert_eq!(cycle_wait(0, FRAME_INTERVAL_MS), 40);
}

#[test]
fn slow_work_waits_not_at_all() {
    assert_eq!(cycle_wait(40, FRAME_INTERVAL_MS), 0);
    assert_eq!(cycle_wait(50, FRAME_INTERVAL_MS), 0);
    assert_eq!(cycle_wait(u64::MAX, FRAME_INTERVAL_MS), 0);
}

/// Ten cycles of 5 ms work each take ten full intervals: 400 ms, within
/// the [10 * 40, 10 * 45) band the cadence promises.
#[test]
fn ten_fast_cycles_track_the_interval() {
    let works = vec![5u64; 10];
    let total = paced_total_ms(&works, FRAME_INTERVAL_MS).unwrap();
    assert_eq!(total, 400);
    assert!(total >= 10 * 40 && total < 10 * 45);
}

/// Ten cycles of 50 ms work each run over the interval, so nothing is
/// skipped to catch up: the total is just the work, 500 ms.
#[test]
fn ten_slow_cycles_fall_behind_without_skipping() {
    let works = vec![50u64; 10];
    assert_eq!(paced_total_ms(&works, FRAME_INTERVAL_MS), Some(500));
}

#[test]
fn mixed_cycles_sum_their_durations() {
    let works = vec![5u64, 50, 40, 0];
    assert_eq!(paced_total_ms(&works, FRAME_INTERVAL_MS), Some(40 + 50 + 40 + 40));
    assert_eq!(paced_total_ms(&Vec::new(), FRAME_INTERVAL_MS), Some(0));
}

#[test]
fn overlong_playback_reports_overflow() {
    let works = vec![u64::MAX, 1];
    assert_eq!(paced_total_ms(&works, FRAME_INTERVAL_MS), None);
    assert_eq!(paced_total_ms(&vec![u64::MAX], FRAME_INTERVAL_MS), Some(u64::MAX));
}
