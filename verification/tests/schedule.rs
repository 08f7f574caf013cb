use secret_satan::model::Party;
use secret_satan::registry::{Registry, Timer};
use secret_satan::schedule::{
    deadline_after, delay_until, parse_window, phase_of, Dispatch, Moment, Phase, Window,
    NANOS_PER_SEC,
};
use secret_satan::store::Store;

fn at(secs: i64, nanos: u32) -> Moment {
    Moment { secs, nanos }
}

fn lasting(secs: u64, nanos: u32) -> Window {
    Window { secs, nanos }
}

fn party(ends_at: i64, matches_made: bool) -> Party {
    Party { id: 1, admin_id: 1, name: "p".to_string(), started_at: 0, ends_at, matches_made }
}

#[test]
fn windows_are_parsed() {
    assert_eq!(parse_window("90s"), Some(lasting(90, 0)));
    assert_eq!(parse_window("60"), Some(lasting(60, 0)));
    assert_eq!(parse_window("2h"), Some(lasting(7200, 0)));
    assert_eq!(parse_window("1d"), Some(lasting(86_400, 0)));
    assert_eq!(parse_window("1h+30m"), Some(lasting(5400, 0)));
    assert_eq!(parse_window("1500ms"), Some(lasting(1, 500_000_000)));
}

#[test]
fn unreadable_windows_are_rejected() {
    assert_eq!(parse_window(""), None);
    assert_eq!(parse_window("soon"), None);
    assert_eq!(parse_window("12 parsecs"), None);
}

#[test]
fn one_second_has_a_billion_nanoseconds() {
    assert_eq!(NANOS_PER_SEC, 1_000_000_000);
}

#[test]
fn deadline_adds_the_window() {
    assert_eq!(deadline_after(at(100, 0), lasting(60, 0)), Some(160));
    assert_eq!(deadline_after(at(100, 999_999_999), lasting(60, 0)), Some(160));
    assert_eq!(deadline_after(at(100, 600_000_000), lasting(60, 500_000_000)), Some(161));
    assert_eq!(deadline_after(at(100, 500_000_000), lasting(60, 500_000_000)), Some(161));
    assert_eq!(deadline_after(at(100, 499_999_999), lasting(60, 500_000_000)), Some(160));
    assert_eq!(deadline_after(at(-100, 0), lasting(60, 0)), Some(-40));
    assert_eq!(deadline_after(at(0, 0), lasting(0, 0)), Some(0));
}

#[test]
fn deadline_beyond_the_last_second_is_refused() {
    assert_eq!(deadline_after(at(i64::MAX, 0), lasting(1, 0)), None);
    assert_eq!(deadline_after(at(i64::MAX, 500_000_000), lasting(0, 500_000_000)), None);
    assert_eq!(deadline_after(at(i64::MAX, 0), lasting(0, 999_999_999)), Some(i64::MAX));
    assert_eq!(deadline_after(at(0, 0), lasting(u64::MAX, 0)), None);
    assert_eq!(deadline_after(at(i64::MIN, 0), lasting(u64::MAX, 0)), Some(i64::MAX));
}

#[test]
fn reached_deadlines_dispatch_immediately() {
    assert_eq!(delay_until(100, at(100, 0)), Dispatch::Immediately);
    assert_eq!(delay_until(100, at(100, 1)), Dispatch::Immediately);
    assert_eq!(delay_until(100, at(5000, 0)), Dispatch::Immediately);
    assert_eq!(delay_until(-5, at(0, 0)), Dispatch::Immediately);
}

#[test]
fn future_deadlines_wait_for_the_rest() {
    assert_eq!(delay_until(110, at(100, 0)), Dispatch::After(lasting(10, 0)));
    assert_eq!(delay_until(110, at(100, 250_000_000)), Dispatch::After(lasting(9, 750_000_000)));
    assert_eq!(delay_until(100, at(99, 999_999_999)), Dispatch::After(lasting(0, 1)));
    assert_eq!(
        delay_until(i64::MAX, at(i64::MIN, 0)),
        Dispatch::After(lasting(u64::MAX, 0))
    );
}

#[test]
fn phases_follow_deadline_and_resolution() {
    assert_eq!(phase_of(&party(100, false), 99), Phase::Open);
    assert_eq!(phase_of(&party(100, false), 100), Phase::Due);
    assert_eq!(phase_of(&party(100, false), 101), Phase::Due);
    assert_eq!(phase_of(&party(100, true), 99), Phase::Resolved);
    assert_eq!(phase_of(&party(100, true), 500), Phase::Resolved);
}

#[test]
fn a_party_has_one_timer() {
    let mut registry = Registry::new();
    assert!(!registry.contains(1));
    assert!(registry.arm(1, 100));
    assert!(registry.contains(1));
    assert!(!registry.arm(1, 500));
    assert_eq!(registry.next_dispatch(at(90, 0)), Some(Dispatch::After(lasting(10, 0))));
}

#[test]
fn due_timers_fire_once_and_in_order() {
    let mut registry = Registry::new();
    registry.arm(1, 300);
    registry.arm(2, 100);
    registry.arm(3, 200);
    registry.arm(4, 150);
    assert_eq!(registry.fire_due(99), Vec::<u128>::new());
    assert_eq!(registry.fire_due(150), vec![2, 4]);
    assert_eq!(registry.fire_due(150), Vec::<u128>::new());
    assert!(!registry.contains(2));
    assert!(registry.contains(1));
    assert_eq!(registry.fire_due(1000), vec![1, 3]);
    assert_eq!(registry.next_dispatch(at(0, 0)), None);
}

#[test]
fn next_dispatch_follows_the_earliest_deadline() {
    let mut registry = Registry::new();
    assert_eq!(registry.next_dispatch(at(0, 0)), None);
    registry.arm(1, 300);
    registry.arm(2, 100);
    registry.arm(3, 200);
    assert_eq!(registry.next_dispatch(at(40, 0)), Some(Dispatch::After(lasting(60, 0))));
    assert_eq!(registry.next_dispatch(at(100, 0)), Some(Dispatch::Immediately));
    registry.fire_due(100);
    assert_eq!(
        registry.next_dispatch(at(100, 500_000_000)),
        Some(Dispatch::After(lasting(99, 500_000_000)))
    );
}

#[test]
fn recovery_arms_every_open_party() {
    let mut store = Store::new();
    store.create_party(1, 1, "past".to_string(), 0, 50).unwrap();
    store.create_party(2, 1, "done".to_string(), 0, 60).unwrap();
    store.create_party(3, 1, "future".to_string(), 0, 500).unwrap();
    store.mark_resolved(2).unwrap();
    let mut registry = Registry::recover(&store);
    assert!(registry.contains(1));
    assert!(!registry.contains(2));
    assert!(registry.contains(3));
    // a deadline missed while the process was down is acted on at once
    assert_eq!(registry.next_dispatch(at(100, 0)), Some(Dispatch::Immediately));
    assert_eq!(registry.fire_due(100), vec![1]);
    assert_eq!(registry.next_dispatch(at(100, 0)), Some(Dispatch::After(lasting(400, 0))));
}

#[test]
fn timers_compare_by_party_and_deadline() {
    assert_eq!(Timer { party_id: 1, ends_at: 5 }, Timer { party_id: 1, ends_at: 5 });
    assert_ne!(Timer { party_id: 1, ends_at: 5 }, Timer { party_id: 1, ends_at: 6 });
}
