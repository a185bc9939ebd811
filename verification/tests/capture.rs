use std::time::Duration;

use sentence_binder::capture::{
    active_context_from_output, is_copy_shortcut, DoubleTapDetector, DOUBLE_TAP_THRESHOLD_NANOS,
    KEYCODE_C, MAC_CMD_FLAG, MAC_KEYDOWN_TYPE,
};

fn nanos(d: Duration) -> u64 {
    d.as_nanos() as u64
}

/// An arbitrary monotonic clock reading standing in for `Instant::now()`.
const NOW: u64 = 7_654_321_000;

#[test]
fn test_single_tap() {
    let mut detector = DoubleTapDetector::new(nanos(Duration::from_millis(400)));
    let now = NOW;

    assert!(!detector.register_tap(now));
}

#[test]
fn test_double_tap_within_threshold() {
    let mut detector = DoubleTapDetector::new(nanos(Duration::from_millis(400)));
    let first_tap = NOW;
    let second_tap = first_tap + nanos(Duration::from_millis(200));

    detector.register_tap(first_tap);
    assert!(detector.register_tap(second_tap));
}

#[test]
fn test_double_tap_outside_threshold() {
    let mut detector = DoubleTapDetector::new(nanos(Duration::from_millis(400)));
    let first_tap = NOW;
    let second_tap = first_tap + nanos(Duration::from_millis(500));

    detector.register_tap(first_tap);
    assert!(!detector.register_tap(second_tap));
}

#[test]
fn test_triple_tap_resets_state() {
    let mut detector = DoubleTapDetector::new(nanos(Duration::from_millis(400)));
    let first = NOW;
    let second = first + nanos(Duration::from_millis(200));
    let third = second + nanos(Duration::from_millis(200));

    detector.register_tap(first);
    assert!(detector.register_tap(second));
    assert!(!detector.register_tap(third));
}

#[test]
fn gap_equal_to_threshold_is_not_a_double_tap() {
    let mut detector = DoubleTapDetector::new(400);
    detector.register_tap(1_000);
    assert!(!detector.register_tap(1_400));
    // The late tap became the pending one.
    assert!(detector.register_tap(1_799));
}

#[test]
fn tap_from_an_earlier_reading_counts_as_no_gap() {
    let mut detector = DoubleTapDetector::new(400);
    detector.register_tap(5_000);
    assert!(detector.register_tap(4_000));
}

#[test]
fn default_threshold_is_four_hundred_milliseconds() {
    assert_eq!(DOUBLE_TAP_THRESHOLD_NANOS, nanos(Duration::from_millis(400)));
}

#[test]
fn recognises_cmd_c_key_presses_only() {
    assert!(is_copy_shortcut(MAC_KEYDOWN_TYPE, KEYCODE_C, MAC_CMD_FLAG));
    assert!(is_copy_shortcut(10, 8, MAC_CMD_FLAG | 0x100));
    assert!(!is_copy_shortcut(10, 8, 0x100));
    assert!(!is_copy_shortcut(11, 8, MAC_CMD_FLAG));
    assert!(!is_copy_shortcut(10, 9, MAC_CMD_FLAG));
}

#[test]
fn active_context_is_the_trimmed_script_output() {
    assert_eq!(
        active_context_from_output(true, "  https://example.com/page\n"),
        Some("https://example.com/page".to_string())
    );
    assert_eq!(active_context_from_output(true, " \n\t"), None);
    assert_eq!(active_context_from_output(false, "Safari"), None);
}
