use autoripper::tracker::{ProgressTracker, TrackerError, MAX_ETA_MS};

#[test]
fn nothing_published_at_first() {
    let mut t = ProgressTracker::new(0);
    assert_eq!(t.get_eta(), 0);
    assert!(t.update(100, 1, 100).is_ok());
    assert_eq!(t.get_eta(), 0);
}

#[test]
fn steady_feed_converges_to_remaining_time() {
    // 100 units of work at one unit per second, sampled every half second.
    let mut t = ProgressTracker::new(0);
    let mut now: u64 = 0;
    while now <= 50_000 {
        t.update(now, now / 1000, 100).unwrap();
        now += 500;
    }
    let eta = t.get_eta();
    let remaining = 50_000;
    assert!(eta > remaining / 2 && eta < remaining * 2, "eta {} ms", eta);
}

#[test]
fn reset_to_near_zero_stays_bounded() {
    let mut t = ProgressTracker::new(0);
    let mut now: u64 = 0;
    while now <= 20_000 {
        t.update(now, 80 + now / 1000, 100).unwrap();
        now += 500;
    }
    // a new file starts: progress falls back to zero and climbs again
    let start = now;
    while now <= start + 20_000 {
        t.update(now, (now - start) / 1000, 100).unwrap();
        assert!(t.get_eta() <= MAX_ETA_MS);
        now += 500;
    }
    let eta = t.get_eta();
    assert!(eta > 40_000 && eta < 160_000, "eta {} ms", eta);
}

#[test]
fn refused_updates() {
    let mut t = ProgressTracker::new(1000);
    assert_eq!(t.update(2000, 1, 0), Err(TrackerError::ZeroTotal));
    assert_eq!(t.update(500, 1, 10), Err(TrackerError::ClockWentBack));
    assert!(t.update(2000, 20, 10).is_ok());
}
