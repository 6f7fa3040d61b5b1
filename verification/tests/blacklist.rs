use memer::blacklist::{list_has_permalink, BlacklistStore, RESET_WINDOW_SECS};
use memer::post::{QuickPost, Score};
use memer::tracker::DeliveryTracker;

fn post(permalink: &str, title: &str) -> QuickPost {
    QuickPost {
        title: title.to_string(),
        score: Score { bits: 1.0f64.to_bits() },
        content: "https://example.org/x.png".to_string(),
        nsfw: false,
        permalink: permalink.to_string(),
        sub: "aww".to_string(),
    }
}

#[test]
fn window_is_three_hours() {
    assert_eq!(RESET_WINDOW_SECS, 3 * 60 * 60);
}

#[test]
fn new_store_is_empty() {
    let store = BlacklistStore::new(1_000);
    assert_eq!(store.reset_at(), 1_000);
    assert!(store.entries(7).is_empty());
    assert!(!store.contains(7, &post("/p/1", "one")));
}

#[test]
fn add_then_contains_for_the_same_channel() {
    let mut store = BlacklistStore::new(1_000);
    store.add(7, post("/p/1", "one"));
    assert!(store.contains(7, &post("/p/1", "one")));
    assert_eq!(store.reset_at(), 1_000);
}

#[test]
fn a_different_channel_never_sees_it() {
    let mut store = BlacklistStore::new(1_000);
    store.add(7, post("/p/1", "one"));
    assert!(!store.contains(8, &post("/p/1", "one")));
    assert!(store.entries(8).is_empty());
}

#[test]
fn contains_goes_by_permalink_alone() {
    let mut store = BlacklistStore::new(1_000);
    store.add(7, post("/p/1", "one"));
    assert!(store.contains(7, &post("/p/1", "another title")));
    assert!(!store.contains(7, &post("/p/2", "one")));
}

#[test]
fn entries_keep_the_order_of_adding() {
    let mut store = BlacklistStore::new(1_000);
    store.add(7, post("/p/1", "one"));
    store.add(9, post("/p/9", "nine"));
    store.add(7, post("/p/2", "two"));
    assert_eq!(store.entries(7), vec![post("/p/1", "one"), post("/p/2", "two")]);
    assert_eq!(store.entries(9), vec![post("/p/9", "nine")]);
}

#[test]
fn reset_before_the_boundary_is_a_no_op() {
    let mut store = BlacklistStore::new(1_000);
    store.add(7, post("/p/1", "one"));
    assert!(!store.reset_if_expired(999));
    assert_eq!(store.reset_at(), 1_000);
    assert!(store.contains(7, &post("/p/1", "one")));
}

#[test]
fn reset_at_the_boundary_empties_and_advances_by_the_window() {
    let mut store = BlacklistStore::new(1_000);
    store.add(7, post("/p/1", "one"));
    store.add(8, post("/p/2", "two"));
    assert!(store.reset_if_expired(1_000));
    assert_eq!(store.reset_at(), 1_000 + 10_800);
    assert!(!store.contains(7, &post("/p/1", "one")));
    assert!(store.entries(8).is_empty());
}

#[test]
fn reset_after_the_boundary_advances_from_the_boundary() {
    let mut store = BlacklistStore::new(1_000);
    assert!(store.reset_if_expired(5_000));
    assert_eq!(store.reset_at(), 11_800);
}

#[test]
fn reset_does_not_repeat_within_the_epoch() {
    let mut store = BlacklistStore::new(1_000);
    assert!(store.reset_if_expired(1_500));
    store.add(7, post("/p/1", "one"));
    assert!(!store.reset_if_expired(1_500));
    assert!(!store.reset_if_expired(11_799));
    assert_eq!(store.reset_at(), 11_800);
    assert!(store.contains(7, &post("/p/1", "one")));
    assert!(store.reset_if_expired(11_800));
    assert_eq!(store.reset_at(), 22_600);
}

#[test]
fn reset_at_the_last_boundary_that_can_advance() {
    let mut store = BlacklistStore::new(i64::MAX - 10_800);
    assert!(store.reset_if_expired(i64::MAX));
    assert_eq!(store.reset_at(), i64::MAX);
}

#[test]
fn unconditional_reset_starts_an_epoch_from_now() {
    let mut store = BlacklistStore::new(1_000);
    store.add(7, post("/p/1", "one"));
    store.reset(50);
    assert_eq!(store.reset_at(), 10_850);
    assert!(store.entries(7).is_empty());
}

#[test]
fn list_search_finds_by_permalink() {
    let list = vec![post("/p/1", "one"), post("/p/2", "two")];
    assert!(list_has_permalink(&list, &post("/p/2", "x")));
    assert!(!list_has_permalink(&list, &post("/p/3", "one")));
    assert!(!list_has_permalink(&Vec::new(), &post("/p/1", "one")));
}

#[test]
fn tracker_has_no_record_at_first() {
    let tracker = DeliveryTracker::new();
    assert_eq!(tracker.last(7), None);
}

#[test]
fn tracker_overwrites_per_channel() {
    let mut tracker = DeliveryTracker::new();
    tracker.set(7, post("/p/1", "one"));
    tracker.set(8, post("/p/8", "eight"));
    assert_eq!(tracker.last(7), Some(post("/p/1", "one")));
    tracker.set(7, post("/p/2", "two"));
    assert_eq!(tracker.last(7), Some(post("/p/2", "two")));
    assert_eq!(tracker.last(8), Some(post("/p/8", "eight")));
    assert_eq!(tracker.last(9), None);
}
