use noderunner::entity::{DigInProgress, Hole};

#[test]
fn hole_2phase_lifecycle() {
    let mut h = Hole::new(5, 3, 3, 2);
    assert!(h.is_active());
    assert!(!h.is_closing());
    assert_eq!(h.open_remaining, 3);

    assert!(!h.tick());
    assert!(!h.tick());
    assert!(!h.tick());
    assert!(h.is_closing());
    assert_eq!(h.open_remaining, 0);
    assert_eq!(h.close_remaining, 2);

    assert!(!h.tick());
    assert!(h.tick());
    assert!(!h.is_active());
}

fn ratio(p: (i64, i64)) -> f64 {
    p.0 as f64 / p.1 as f64
}

#[test]
fn hole_close_progress() {
    let mut h = Hole::new(0, 0, 0, 10);
    assert!(h.is_closing());
    assert!((ratio(h.close_progress(10)) - 0.0).abs() < 0.01);

    for _ in 0..5 {
        h.tick();
    }
    assert!((ratio(h.close_progress(10)) - 0.5).abs() < 0.01);

    for _ in 0..4 {
        h.tick();
    }
    assert!((ratio(h.close_progress(10)) - 0.9).abs() < 0.01);
}

#[test]
fn hole_zero_close_progress() {
    let h = Hole::new(0, 0, 5, 0);
    assert!((ratio(h.close_progress(0)) - 1.0).abs() < 0.01);
}

#[test]
fn hole_open_remaining_counts_down_in_open_phase() {
    let mut h = Hole::new(1, 1, 3, 2);
    h.tick();
    assert_eq!(h.open_remaining, 2);
    assert!(!h.is_closing());
    h.tick();
    assert_eq!(h.open_remaining, 1);
    assert!(!h.is_closing());
    h.tick();
    assert_eq!(h.open_remaining, 0);
    assert!(h.is_closing());
    assert!(!h.tick());
    assert_eq!(h.close_remaining, 1);
    assert!(h.is_active());
    assert!(h.tick());
    assert!(!h.is_active());
    assert!(h.tick());
    assert_eq!((h.open_remaining, h.close_remaining), (0, 0));
}

#[test]
fn close_progress_exact_fraction() {
    let h = Hole::new(0, 0, 0, 4);
    assert_eq!(h.close_progress(10), (6, 10));
    assert_eq!(h.close_progress(0), (1, 1));
}

#[test]
fn dig_stage_quarters() {
    let mut d = DigInProgress::new(2, 3, 8);
    assert_eq!(d.total_ticks(), 8);
    assert_eq!(d.stage(), 0);
    d.ticks_remaining = 6;
    assert_eq!(d.stage(), 1);
    d.ticks_remaining = 4;
    assert_eq!(d.stage(), 2);
    d.ticks_remaining = 2;
    assert_eq!(d.stage(), 3);
    d.ticks_remaining = 0;
    assert_eq!(d.stage(), 3);
    let r = DigInProgress::new_with_state(1, 1, 3, 12);
    assert_eq!(r.total_ticks(), 12);
    assert_eq!(r.stage(), 3);
}
