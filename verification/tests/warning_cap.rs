//! The warning sink's rate limiting.

use borrow::warnings::{inc_and_check_warning_count, warning, WarningSink, MAX_WARNING_COUNT};

#[test]
fn warning_cap_at_one_hundred() {
    let mut sink = WarningSink::new();
    for i in 0..150u32 {
        warning(&mut sink, &format!("discrepancy number {}", i));
    }
    // The cap admits the messages below it, then exactly one notice.
    assert_eq!(sink.lines.len(), MAX_WARNING_COUNT);
    assert_eq!(sink.lines.len(), 100);
    for i in 0..99u32 {
        assert_eq!(sink.lines[i as usize], format!("discrepancy number {}", i));
    }
    assert_eq!(
        sink.lines[99],
        "Too many warnings, suppressing further ones."
    );
    // Nothing at all after the cap.
    warning(&mut sink, "late");
    assert_eq!(sink.lines.len(), 100);
}

#[test]
fn below_the_cap_every_message_is_kept() {
    let mut sink = WarningSink::new();
    warning(&mut sink, "first");
    warning(&mut sink, "second");
    assert_eq!(sink.lines, vec!["first".to_string(), "second".to_string()]);
    assert_eq!(sink.count, 2);
}

#[test]
fn count_check_turns_false_at_the_cap() {
    let mut sink = WarningSink::new();
    for _ in 0..98 {
        assert!(inc_and_check_warning_count(&mut sink));
    }
    // The attempt before the cap is still admitted.
    assert!(inc_and_check_warning_count(&mut sink));
    assert_eq!(sink.lines.len(), 0);
    // The attempt reaching the cap records the notice and refuses.
    assert!(!inc_and_check_warning_count(&mut sink));
    assert_eq!(sink.lines.len(), 1);
    assert_eq!(sink.lines[0], "Too many warnings, suppressing further ones.");
    // Every later attempt refuses silently.
    assert!(!inc_and_check_warning_count(&mut sink));
    assert_eq!(sink.lines.len(), 1);
    assert_eq!(sink.count, 100);
}
