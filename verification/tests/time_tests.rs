use amd::schedule::StatusUpdateCheck;
use amd::time::{
    compliance_window, duration_until, get_five_am_timestamp, next_occurrence, time_until,
};

const DAY: u64 = 86400;

#[test]
fn next_occurrence_later_today() {
    // 04:00 on day 3; the 05:00 anchor is still ahead.
    let now = 3 * DAY + 4 * 3600;
    assert_eq!(next_occurrence(5, 0, now), 3 * DAY + 5 * 3600);
}

#[test]
fn next_occurrence_tomorrow() {
    // 06:00 on day 3; today's 05:00 anchor is past.
    let now = 3 * DAY + 6 * 3600;
    assert_eq!(next_occurrence(5, 0, now), 4 * DAY + 5 * 3600);
}

#[test]
fn next_occurrence_exactly_on_anchor() {
    // Exactly 05:00: the next occurrence is tomorrow's.
    let now = 3 * DAY + 5 * 3600;
    assert_eq!(next_occurrence(5, 0, now), 4 * DAY + 5 * 3600);
}

#[test]
fn next_occurrence_with_minutes() {
    let now = 10 * DAY;
    assert_eq!(next_occurrence(9, 30, now), 10 * DAY + 9 * 3600 + 30 * 60);
}

#[test]
fn next_occurrence_stays_within_a_day() {
    for offset in [0u64, 1, 3599, 5 * 3600 - 1, 5 * 3600, 5 * 3600 + 1, DAY - 1] {
        let now = 7 * DAY + offset;
        let r = next_occurrence(5, 0, now);
        assert!(r > now);
        assert!(r <= now + DAY);
    }
}

#[test]
fn duration_until_counts_seconds() {
    let now = 3 * DAY + 4 * 3600;
    assert_eq!(duration_until(5, 0, now), 3600);
    let after = 3 * DAY + 6 * 3600;
    assert_eq!(duration_until(5, 0, after), 23 * 3600);
}

#[test]
fn compliance_window_is_twelve_hours_ending_at_anchor() {
    // 06:00 on day 3: anchor is today's 05:00.
    let now = 3 * DAY + 6 * 3600;
    let w = compliance_window(now);
    assert_eq!(w.end, 3 * DAY + 5 * 3600);
    assert_eq!(w.start, 3 * DAY + 5 * 3600 - 12 * 3600);
    assert_eq!(w.end - w.start, 12 * 3600);
    assert!(w.end <= now);
}

#[test]
fn compliance_window_before_anchor_uses_yesterday() {
    // 01:00 on day 3: the anchor falls back to day 2's 05:00.
    let now = 3 * DAY + 3600;
    let w = compliance_window(now);
    assert_eq!(w.end, 2 * DAY + 5 * 3600);
    assert_eq!(w.start, 2 * DAY + 5 * 3600 - 12 * 3600);
    assert!(w.end <= now);
}

#[test]
fn five_am_timestamp_is_todays_anchor() {
    let now = 9 * DAY + 13 * 3600 + 25;
    assert_eq!(get_five_am_timestamp(now), 9 * DAY + 5 * 3600);
}

#[test]
fn time_until_is_positive_and_at_most_a_day() {
    let r = time_until(5, 0);
    assert!(r > 0);
    assert!(r <= DAY);
}

#[test]
fn status_update_check_identity() {
    let task = StatusUpdateCheck;
    assert_eq!(task.name(), "Status Update Check");
    let r = task.run_in();
    assert!(r > 0);
    assert!(r <= DAY);
}
