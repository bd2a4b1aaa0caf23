use roe_core::kill_ring::KillRing;

#[test]
fn test_basic_kill_and_yank() {
    let mut ring = KillRing::new();

    ring.kill("hello".to_string());
    assert_eq!(ring.yank(), Some("hello"));
}

#[test]
fn test_consecutive_kills_append() {
    let mut ring = KillRing::new();

    ring.kill("hello".to_string());
    ring.kill(" world".to_string());

    assert_eq!(ring.yank(), Some("hello world"));
    assert_eq!(ring.len(), 1); // Should be one combined entry
}

#[test]
fn test_non_consecutive_kills() {
    let mut ring = KillRing::new();

    ring.kill("first".to_string());
    ring.break_kill_sequence(); // Simulate non-kill operation
    ring.kill("second".to_string());

    assert_eq!(ring.len(), 2);
    assert_eq!(ring.yank(), Some("second")); // Most recent
}

#[test]
fn test_kill_prepend() {
    let mut ring = KillRing::new();

    ring.kill("world".to_string());
    ring.kill_prepend("hello ".to_string());

    assert_eq!(ring.yank(), Some("hello world"));
}

#[test]
fn kill_ring_test_yank_index() {
    let mut ring = KillRing::new();

    ring.kill("first".to_string());
    ring.break_kill_sequence();
    ring.kill("second".to_string());
    ring.break_kill_sequence();
    ring.kill("third".to_string());

    assert_eq!(ring.yank_index(0), Some("third")); // Most recent
    assert_eq!(ring.yank_index(1), Some("second")); // Second most recent
    assert_eq!(ring.yank_index(2), Some("first")); // Oldest
    assert_eq!(ring.yank_index(3), None); // Out of bounds
}

#[test]
fn test_yank_pop() {
    let mut ring = KillRing::new();

    ring.kill("first".to_string());
    ring.break_kill_sequence();
    ring.kill("second".to_string());
    ring.break_kill_sequence();
    ring.kill("third".to_string());

    // Start with most recent
    assert_eq!(ring.yank(), Some("third"));

    // Pop to previous entries
    assert_eq!(ring.yank_pop(), Some("second"));
    assert_eq!(ring.yank_pop(), Some("first"));
    assert_eq!(ring.yank_pop(), Some("third")); // Should cycle back
}

#[test]
fn test_max_capacity() {
    let mut ring = KillRing::with_capacity(2);

    ring.kill("first".to_string());
    ring.break_kill_sequence();
    ring.kill("second".to_string());
    ring.break_kill_sequence();
    ring.kill("third".to_string()); // Should evict "first"

    assert_eq!(ring.len(), 2);
    assert_eq!(ring.yank_index(0), Some("third"));
    assert_eq!(ring.yank_index(1), Some("second"));
    assert_eq!(ring.yank_index(2), None); // "first" was evicted
}

#[test]
fn test_empty_kill_ignored() {
    let mut ring = KillRing::new();

    ring.kill("".to_string());
    assert!(ring.is_empty());

    ring.kill("hello".to_string());
    ring.kill("".to_string()); // Should not affect existing entry
    assert_eq!(ring.yank(), Some("hello"));
}

#[test]
fn test_current() {
    let mut ring = KillRing::new();

    ring.kill("test".to_string());
    assert_eq!(ring.current(), Some("test"));

    // current() should not change state
    assert_eq!(ring.current(), Some("test"));
    assert_eq!(ring.yank(), Some("test"));
}

#[test]
fn an_empty_ring_stays_as_it_is() {
    let mut ring = KillRing::default();
    assert_eq!(ring.yank_pop(), None);
    assert_eq!(ring.current(), None);
    ring.kill("first".to_string());
    assert_eq!(ring.current(), Some("first"));
    assert_eq!(ring.len(), 1);
}
