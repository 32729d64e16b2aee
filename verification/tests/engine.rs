//! Tests of the scan engine: tear correction, saturating deltas, the
//! recalibration cadence, the stale-read policy, the diagnostics record,
//! and a full simulated cycle.

use touch_matrix::engine::{
    biased_baseline, corrected_raw, delta_value, ReadTouch, TouchDiagnostics,
};

fn lines_of(value: u16) -> Vec<Vec<u16>> {
    (0..16).map(|_| vec![value; 6]).collect()
}

#[test]
fn tear_correction_applied_on_large_jump() {
    assert_eq!(corrected_raw(300, 550), 294);
}

#[test]
fn tear_correction_skipped_without_history() {
    assert_eq!(corrected_raw(0, 550), 550);
    assert_eq!(corrected_raw(0, 65535), 65535);
}

#[test]
fn tear_correction_threshold_is_strict() {
    assert_eq!(corrected_raw(300, 500), 500);
    assert_eq!(corrected_raw(300, 501), 245);
}

#[test]
fn tear_correction_wraps_below_256() {
    assert_eq!(corrected_raw(10, 220), 65500);
}

#[test]
fn delta_saturates_at_zero() {
    assert_eq!(delta_value(400, 500), 0);
    assert_eq!(delta_value(650, 500), 150);
    assert_eq!(delta_value(500, 500), 0);
}

#[test]
fn biased_baseline_adds_and_saturates() {
    assert_eq!(biased_baseline(100), 107);
    assert_eq!(biased_baseline(65528), 65535);
    assert_eq!(biased_baseline(65529), 65535);
    assert_eq!(biased_baseline(65535), 65535);
}

#[test]
fn fresh_engine_is_zeroed_and_recalibrates_first() {
    let engine = ReadTouch::new();
    assert!(engine.needs_recalibration());
    assert_eq!(engine.snapshot(), vec![0u16; 96]);
}

#[test]
fn process_line_updates_only_its_line() {
    let mut engine = ReadTouch::new();
    let mut diag = TouchDiagnostics::new();
    let samples = vec![100, 200, 300, 400, 500, 600];
    engine.process_line(2, &samples, &mut diag);
    let snap = engine.snapshot();
    for i in 0..96 {
        if (12..18).contains(&i) {
            assert_eq!(snap[i], samples[i - 12]);
        } else {
            assert_eq!(snap[i], 0);
        }
    }
}

#[test]
fn failed_line_read_retains_previous_deltas() {
    let mut engine = ReadTouch::new();
    let mut diag = TouchDiagnostics::new();
    let samples = vec![100, 200, 300, 400, 500, 600];
    engine.process_line(0, &samples, &mut diag);
    let first = engine.snapshot();
    // The next sweep gets no samples for line 0 (its read failed), and
    // fresh samples only for line 1: line 0 keeps its published values.
    let other = vec![7, 8, 9, 10, 11, 12];
    engine.process_line(1, &other, &mut diag);
    let second = engine.snapshot();
    assert_eq!(&second[0..6], &first[0..6]);
    assert_eq!(&second[6..12], &other[..]);
}

#[test]
fn recalibration_runs_exactly_every_period() {
    let mut engine = ReadTouch::new();
    let mut diag = TouchDiagnostics::new();
    let signals = lines_of(500);
    for n in 0..=25u16 {
        assert_eq!(engine.needs_recalibration(), n % 12 == 0, "cycle {n}");
        let references = lines_of(100 + n);
        let published = engine.run_scan_cycle(&signals, &references, &mut diag);
        // The baseline a cycle publishes with is the one stored by the
        // most recent recalibration sweep before it.
        let (expect_plain, expect_last) = match n {
            0 => (500, 500),
            1..=12 => (400, 393),
            13..=24 => (388, 381),
            _ => (376, 369),
        };
        for i in 0..96 {
            if i % 6 == 5 {
                assert_eq!(published[i], expect_last, "cycle {n} key {i}");
            } else {
                assert_eq!(published[i], expect_plain, "cycle {n} key {i}");
            }
        }
    }
}

#[test]
fn diagnostics_record_last_anomalous_key() {
    let mut engine = ReadTouch::new();
    let mut diag = TouchDiagnostics::new();
    let mut signals = lines_of(0);
    signals[2][3] = 50; // logical key 15
    signals[6][0] = 60; // logical key 36
    let references = lines_of(0);
    let _ = engine.run_scan_cycle(&signals, &references, &mut diag);
    assert!(diag.active);
    assert_eq!(diag.key, 36);
    assert_eq!(diag.previous_raw, 0);
    assert_eq!(diag.corrected_raw, 60);
    assert_eq!(diag.baseline, 0);
}

#[test]
fn diagnostics_untouched_below_threshold() {
    let mut engine = ReadTouch::new();
    let mut diag = TouchDiagnostics::new();
    let signals = lines_of(10);
    let references = lines_of(0);
    let _ = engine.run_scan_cycle(&signals, &references, &mut diag);
    assert!(!diag.active);
    assert_eq!(diag, TouchDiagnostics::new());
}

#[test]
fn full_cycle_matches_hand_computed_deltas_and_repeats() {
    let mut engine = ReadTouch::new();
    let mut diag = TouchDiagnostics::new();
    // A fixed per-line pattern: key k of line ch reads 10 + its logical
    // id, except each line's last key, which reads zero.
    let signals: Vec<Vec<u16>> = (0..16)
        .map(|ch| {
            (0..6)
                .map(|k| if k == 5 { 0 } else { 10 + (ch * 6 + k) as u16 })
                .collect()
        })
        .collect();
    let references = lines_of(0);
    let expected: Vec<u16> = (0..96)
        .map(|i| if i % 6 == 5 { 0 } else { 10 + i as u16 })
        .collect();
    let first = engine.run_scan_cycle(&signals, &references, &mut diag);
    assert_eq!(first, expected);
    assert_eq!(engine.snapshot(), expected);
    // A second cycle over the same bus outputs reproduces the array: the
    // raw values repeat (so no tear correction fires) and the zero
    // references leave every published delta as before.
    let second = engine.run_scan_cycle(&signals, &references, &mut diag);
    assert_eq!(second, expected);
}
