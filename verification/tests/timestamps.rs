use backup_freshness::selection::later;
use backup_freshness::text::starts_with;
use backup_freshness::timestamp::Timestamp;

#[test]
fn new_checks_the_nanoseconds() {
    assert_eq!(Timestamp::new(5, 0), Some(Timestamp { secs: 5, nanos: 0 }));
    assert_eq!(Timestamp::new(-5, 999_999_999), Some(Timestamp { secs: -5, nanos: 999_999_999 }));
    assert_eq!(Timestamp::new(5, 1_000_000_000), None);
    assert_eq!(Timestamp::from_secs(-7), Timestamp { secs: -7, nanos: 0 });
}

#[test]
fn nanos_since_epoch_values() {
    assert_eq!(Timestamp { secs: 1, nanos: 5 }.nanos_since_epoch(), 1_000_000_005);
    assert_eq!(Timestamp { secs: -1, nanos: 5 }.nanos_since_epoch(), -999_999_995);
    assert_eq!(
        Timestamp { secs: i64::MAX, nanos: 999_999_999 }.nanos_since_epoch(),
        i64::MAX as i128 * 1_000_000_000 + 999_999_999
    );
    assert_eq!(
        Timestamp { secs: i64::MIN, nanos: 0 }.nanos_since_epoch(),
        i64::MIN as i128 * 1_000_000_000
    );
}

#[test]
fn is_before_is_strict() {
    let a = Timestamp { secs: 10, nanos: 1 };
    let b = Timestamp { secs: 10, nanos: 2 };
    let c = Timestamp { secs: 11, nanos: 0 };
    assert!(a.is_before(&b));
    assert!(b.is_before(&c));
    assert!(a.is_before(&c));
    assert!(!b.is_before(&a));
    assert!(!a.is_before(&a));
    assert!(Timestamp { secs: -1, nanos: 999_999_999 }.is_before(&Timestamp { secs: 0, nanos: 0 }));
}

#[test]
fn age_counts_whole_seconds() {
    let then = Timestamp { secs: 10, nanos: 500_000_000 };
    assert_eq!(then.age_at(&Timestamp { secs: 12, nanos: 400_000_000 }), 1);
    assert_eq!(then.age_at(&Timestamp { secs: 12, nanos: 500_000_000 }), 2);
    assert_eq!(then.age_at(&Timestamp { secs: 10, nanos: 500_000_001 }), 0);
    assert_eq!(Timestamp::from_secs(0).age_at(&Timestamp::from_secs(86_400)), 86_400);
    assert_eq!(Timestamp::from_secs(-100).age_at(&Timestamp::from_secs(100)), 200);
}

#[test]
fn age_of_a_time_to_come_is_zero() {
    let now = Timestamp { secs: 100, nanos: 0 };
    assert_eq!(Timestamp { secs: 100, nanos: 0 }.age_at(&now), 0);
    assert_eq!(Timestamp { secs: 100, nanos: 1 }.age_at(&now), 0);
    assert_eq!(Timestamp { secs: 5_000, nanos: 0 }.age_at(&now), 0);
    assert_eq!(Timestamp { secs: i64::MAX, nanos: 0 }.age_at(&Timestamp::from_secs(i64::MIN)), 0);
}

#[test]
fn age_over_the_whole_range() {
    let first = Timestamp { secs: i64::MIN, nanos: 0 };
    let last = Timestamp { secs: i64::MAX, nanos: 999_999_999 };
    assert_eq!(first.age_at(&last), u64::MAX);
}

#[test]
fn later_prefers_the_known_and_the_second_of_equals() {
    let a = Some(Timestamp { secs: 1, nanos: 0 });
    let b = Some(Timestamp { secs: 2, nanos: 0 });
    assert_eq!(later(a, b), b);
    assert_eq!(later(b, a), b);
    assert_eq!(later(None, a), a);
    assert_eq!(later(a, None), a);
    assert_eq!(later(None, None), None);
    assert_eq!(later(a, a), a);
}

#[test]
fn starts_with_compares_characters() {
    assert!(starts_with("/mnt/usb/backups", "/mnt"));
    assert!(starts_with("/mnt/usb/backups", "/mnt/usb/backups"));
    assert!(starts_with("/mnt", ""));
    assert!(starts_with("", ""));
    assert!(!starts_with("/mnt", "/mnt/usb"));
    assert!(!starts_with("/mnt/usb", "/media"));
    assert!(!starts_with("", "/"));
    assert!(starts_with("/donn\u{e9}es/\u{e9}t\u{e9}", "/donn\u{e9}es"));
    assert!(!starts_with("/donn\u{e9}es", "/donnees"));
}

#[test]
fn times_after_the_epoch() {
    assert_eq!(Timestamp::after_epoch(5, 7), Some(Timestamp { secs: 5, nanos: 7 }));
    assert_eq!(Timestamp::after_epoch(0, 0), Some(Timestamp { secs: 0, nanos: 0 }));
    assert_eq!(
        Timestamp::after_epoch(i64::MAX as u64, 999_999_999),
        Some(Timestamp { secs: i64::MAX, nanos: 999_999_999 })
    );
    assert_eq!(Timestamp::after_epoch(i64::MAX as u64 + 1, 0), None);
    assert_eq!(Timestamp::after_epoch(0, 1_000_000_000), None);
}

#[test]
fn times_before_the_epoch() {
    assert_eq!(Timestamp::before_epoch(0, 0), Some(Timestamp { secs: 0, nanos: 0 }));
    assert_eq!(Timestamp::before_epoch(5, 0), Some(Timestamp { secs: -5, nanos: 0 }));
    assert_eq!(
        Timestamp::before_epoch(5, 250_000_000),
        Some(Timestamp { secs: -6, nanos: 750_000_000 })
    );
    assert_eq!(Timestamp::before_epoch(0, 1), Some(Timestamp { secs: -1, nanos: 999_999_999 }));
    assert_eq!(Timestamp::before_epoch(1 << 63, 0), Some(Timestamp { secs: i64::MIN, nanos: 0 }));
    assert_eq!(
        Timestamp::before_epoch((1 << 63) - 1, 999_999_999),
        Some(Timestamp { secs: i64::MIN, nanos: 1 })
    );
    assert_eq!(Timestamp::before_epoch(1 << 63, 1), None);
    assert_eq!(Timestamp::before_epoch(u64::MAX, 0), None);
    assert_eq!(Timestamp::before_epoch(0, 1_000_000_000), None);
}

#[test]
fn a_time_before_the_epoch_is_before_it() {
    let before = Timestamp::before_epoch(1, 500_000_000).unwrap();
    let after = Timestamp::after_epoch(1, 500_000_000).unwrap();
    assert_eq!(before.nanos_since_epoch(), -1_500_000_000);
    assert_eq!(after.nanos_since_epoch(), 1_500_000_000);
    assert!(before.is_before(&after));
    assert_eq!(before.age_at(&after), 3);
}
