use hearth::notify::{compute_at, notification_id, reminder_wall_clock, should_skip_past, ReminderKind};

#[test]
fn notification_id_is_deterministic_and_stable() {
    assert_eq!(notification_id(1, ReminderKind::Before5Min), 11);
    assert_eq!(notification_id(1, ReminderKind::AtStart), 12);
    assert_eq!(notification_id(42, ReminderKind::Before5Min), 421);
    assert_eq!(notification_id(42, ReminderKind::AtStart), 422);
}

#[test]
fn notification_id_clamps_huge_schedule_ids() {
    assert_eq!(notification_id(i64::MAX, ReminderKind::AtStart), 2147483642);
    assert_eq!(notification_id(214748364, ReminderKind::Before5Min), 2147483641);
}

#[test]
fn reminder_kinds_have_their_offsets_and_codes() {
    assert_eq!(ReminderKind::Before5Min.offset_minutes(), 5);
    assert_eq!(ReminderKind::AtStart.offset_minutes(), 0);
    assert_eq!(ReminderKind::Before5Min.code(), 1);
    assert_eq!(ReminderKind::AtStart.code(), 2);
}

#[test]
fn compute_at_returns_none_for_garbage() {
    assert!(compute_at("nope", "oops", ReminderKind::AtStart).is_none());
    assert!(compute_at("2026-04-18", "25:99", ReminderKind::AtStart).is_none());
}

#[test]
fn compute_at_subtracts_5_minutes_for_before_kind() {
    let at_start = compute_at("2026-04-18", "10:00", ReminderKind::AtStart).unwrap();
    let before5 = compute_at("2026-04-18", "10:00", ReminderKind::Before5Min).unwrap();
    let diff = (at_start - before5) / 60;
    assert_eq!(diff, 5);
}

#[test]
fn should_skip_past_compares_inclusively() {
    let now: i64 = 1_776_506_400;
    let at_past = now - 60;
    let at_future = now + 60;
    assert!(should_skip_past(now, now));
    assert!(should_skip_past(now, at_past));
    assert!(!should_skip_past(now, at_future));
}

#[test]
fn wall_clock_crosses_midnight_backwards() {
    assert_eq!(reminder_wall_clock(739000, 0, 3, ReminderKind::Before5Min), Some((738999, 23, 58)));
    assert_eq!(reminder_wall_clock(739000, 10, 0, ReminderKind::Before5Min), Some((739000, 9, 55)));
    assert_eq!(reminder_wall_clock(739000, 10, 0, ReminderKind::AtStart), Some((739000, 10, 0)));
    assert_eq!(reminder_wall_clock(i32::MIN, 0, 0, ReminderKind::Before5Min), None);
}

#[test]
fn compute_at_is_within_a_day_of_the_wall_clock_read_as_utc() {
    let utc_start: i64 = 1_776_506_400;
    let at_start = compute_at("2026-04-18", "10:00", ReminderKind::AtStart).unwrap();
    let before5 = compute_at("2026-04-18", "10:00", ReminderKind::Before5Min).unwrap();
    assert!((utc_start - at_start).abs() < 86_400);
    assert!((utc_start - 300 - before5).abs() < 86_400);
}
