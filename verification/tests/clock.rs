use tunm_timer::clock::to_microsecond;
use tunm_timer::now_microsecond;
use tunm_timer::queue::{key_id, make_key};

#[test]
fn microseconds_from_seconds_and_nanoseconds() {
    assert_eq!(to_microsecond(0, 0), 0);
    assert_eq!(to_microsecond(1, 0), 1_000_000);
    assert_eq!(to_microsecond(0, 999), 0);
    assert_eq!(to_microsecond(0, 1_000), 1);
    assert_eq!(to_microsecond(12, 345_678_999), 12_345_678);
    assert_eq!(to_microsecond(1_700_000_000, 999_999_999), 1_700_000_000_999_999);
}

#[test]
fn microseconds_are_capped() {
    assert_eq!(to_microsecond(u64::MAX, 0), u64::MAX);
    assert_eq!(to_microsecond(u64::MAX / 1_000_000, 999_999_999), u64::MAX);
    assert_eq!(to_microsecond(u64::MAX / 1_000_000, 0), 18_446_744_073_709_000_000);
    assert_eq!(to_microsecond(u64::MAX / 1_000_000, 551_615_000), u64::MAX);
    assert_eq!(to_microsecond(u64::MAX / 1_000_000, 551_614_000), u64::MAX - 1);
}

#[test]
fn the_clock_reads_a_time_after_the_epoch_and_does_not_go_back() {
    let first = now_microsecond();
    let second = now_microsecond();
    assert!(first > 1_500_000_000_000_000);
    assert!(second >= first);
    assert!(second - first < 60_000_000);
}

#[test]
fn keys_carry_due_time_and_id() {
    assert_eq!(make_key(5, 0), (5, u64::MAX));
    assert_eq!(make_key(5, 1), (5, u64::MAX - 1));
    assert_eq!(make_key(0, u64::MAX), (0, 0));
    assert_eq!(key_id(make_key(123, 456)), 456);
    assert_eq!(key_id((9, u64::MAX - 7)), 7);
    assert!(make_key(5, 2) < make_key(5, 1));
    assert!(make_key(4, 1) < make_key(5, 2));
}
