use watchbot::notifications::{NotificationFailure, NotificationService, NotificationSink};
use watchbot::throttle::ThrottleWindow;

struct OkSink;

impl NotificationSink for OkSink {
    fn send_message(&self, _recipient: &str, _message: &str) -> Result<(), String> {
        Ok(())
    }
}

struct FailSink;

impl NotificationSink for FailSink {
    fn send_message(&self, _recipient: &str, _message: &str) -> Result<(), String> {
        Err(String::from("provider rejected the request"))
    }
}

#[test]
fn messages_allowed_when_threshold_not_passed() {
    let now: u64 = 1000;
    let items = vec![now, now, now, now];
    let window = ThrottleWindow {
        period: 60,
        max_count: 5,
    };

    assert!(window.can_send(&items, now));
}

#[test]
fn messages_withheld_when_threshold_passed() {
    let now: u64 = 1000;
    let items = vec![now, now, now, now, now];
    let window = ThrottleWindow {
        period: 60,
        max_count: 5,
    };

    assert!(!window.can_send(&items, now));
}

#[test]
fn old_messages_do_not_count_against_threshold() {
    let now: u64 = 1000;
    let items = vec![now - 120, now, now, now, now];
    let window = ThrottleWindow {
        period: 60,
        max_count: 5,
    };

    assert!(window.can_send(&items, now));
}

#[test]
fn three_fresh_timestamps_allowed_six_withheld() {
    let now: u64 = 500;
    let window = ThrottleWindow {
        period: 60,
        max_count: 5,
    };
    assert!(window.can_send(&vec![now, now, now], now));
    assert!(!window.can_send(&vec![now, now, now, now, now, now], now));
}

#[test]
fn timestamp_aged_exactly_period_is_out_of_window() {
    let window = ThrottleWindow {
        period: 60,
        max_count: 5,
    };
    let now: u64 = 1000;
    assert!(!window.in_window(now - 60, now));
    assert!(window.in_window(now - 59, now));
}

#[test]
fn first_notification_succeeds_and_cooldown_gates_repeats() {
    let mut service = NotificationService::new(OkSink, String::from("+15550000"), 60);

    assert!(service.notify_channel("alice", "#x", 1000).is_ok());
    assert!(matches!(
        service.notify_channel("alice", "#x", 1030),
        Err(NotificationFailure::RecentlyNotified)
    ));
    // After the cooldown has fully elapsed the subject is eligible again.
    assert!(service.notify_channel("alice", "#x", 1060).is_ok());
}

#[test]
fn full_window_throttles_even_brand_new_subjects() {
    let mut service = NotificationService::new(OkSink, String::from("+15550000"), 1);
    for i in 0..30u64 {
        let subject = format!("user{}", i);
        assert!(service.notify_channel(&subject, "#x", 5000 + i).is_ok());
    }
    assert!(matches!(
        service.notify_channel("brandnew", "#x", 5100),
        Err(NotificationFailure::Throttled)
    ));
}

#[test]
fn gate_failure_never_mutates_history() {
    let mut service = NotificationService::new(OkSink, String::from("+15550000"), 60);

    assert!(service.notify_channel("alice", "#x", 1000).is_ok());
    assert_eq!(1, service.sent().len());
    assert_eq!((String::from("alice"), 1000), service.sent()[0]);

    // A blocked retry records nothing.
    assert!(service.notify_channel("alice", "#x", 1030).is_err());
    assert_eq!(1, service.sent().len());
    assert_eq!((String::from("alice"), 1000), service.sent()[0]);

    // Succeeding once eligible records exactly one timestamp, not two.
    assert!(service.notify_channel("alice", "#x", 1100).is_ok());
    assert_eq!(1, service.sent().len());
    assert_eq!((String::from("alice"), 1100), service.sent()[0]);
}

#[test]
fn sink_failure_is_reported_and_still_spends_the_slot() {
    let mut service = NotificationService::new(FailSink, String::from("+15550000"), 60);

    match service.notify_pm("bob", "hello", 2000) {
        Err(NotificationFailure::Failure(desc)) => {
            assert_eq!("provider rejected the request", desc)
        }
        other => panic!("expected a sink failure, got {:?}", other.is_ok()),
    }
    // Record-before-send: the failed send still spent the subject's cooldown.
    assert_eq!(1, service.sent().len());
    assert_eq!((String::from("bob"), 2000), service.sent()[0]);
    assert!(matches!(
        service.notify_pm("bob", "hello again", 2030),
        Err(NotificationFailure::RecentlyNotified)
    ));
}

#[test]
fn notification_message_texts() {
    assert_eq!(
        "alice has joined #watched",
        watchbot::notifications::channel_join_message("alice", "#watched")
    );
    assert_eq!(
        "PM from bob: where are you?",
        watchbot::notifications::pm_message("bob", "where are you?")
    );
}

#[test]
fn can_send_records_only_on_success() {
    let mut service = NotificationService::new(OkSink, String::from("r"), 10);
    assert!(service.can_send("carol", 100).is_ok());
    assert!(matches!(
        service.can_send("carol", 105),
        Err(NotificationFailure::RecentlyNotified)
    ));
    assert_eq!(1, service.sent().len());
    assert_eq!((String::from("carol"), 100), service.sent()[0]);
}
