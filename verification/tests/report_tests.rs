use amd::models::{Member, Streak};
use amd::reconcile::ReconcileState;
use amd::report::{build_description, build_report, format_date, format_section, status_marker};

fn member(name: &str, current: i32, max: i32) -> Member {
    Member {
        member_id: 1,
        name: String::from(name),
        discord_id: String::from("0"),
        streak: vec![Streak { current_streak: current, max_streak: max }],
    }
}

#[test]
fn section_lists_up_to_five_names() {
    let ms: Vec<Member> = vec![
        member("A", 3, 5),
        member("B", 3, 5),
        member("C", 3, 5),
        member("D", 3, 5),
        member("E", 3, 5),
    ];
    let s = format_section("Current Highest Streak", 3, ms.as_slice());
    assert_eq!(
        s.as_str(),
        "## Current Highest Streak - 3\n- A\n- B\n- C\n- D\n- E\n"
    );
}

#[test]
fn section_collapses_past_five_names() {
    let ms: Vec<Member> = vec![
        member("A", 3, 5),
        member("B", 3, 5),
        member("C", 3, 5),
        member("D", 3, 5),
        member("E", 3, 5),
        member("F", 3, 5),
    ];
    let s = format_section("Current Highest Streak", 3, ms.as_slice());
    assert_eq!(
        s.as_str(),
        "## Current Highest Streak - 3\nMore than five members hold the record!\n"
    );
    assert!(!s.contains("- A\n"));
}

#[test]
fn section_renders_negative_values() {
    let ms: Vec<Member> = vec![member("A", -2, 5)];
    let s = format_section("All Time High", -2, ms.as_slice());
    assert_eq!(s.as_str(), "## All Time High - -2\n- A\n");
}

#[test]
fn status_markers_by_tier() {
    assert_eq!(status_marker(0), ":x:");
    assert_eq!(status_marker(-1), ":x::x:");
    assert_eq!(status_marker(-3), ":headstone:");
    assert_eq!(status_marker(-100), ":headstone:");
    assert_eq!(status_marker(7), ":headstone:");
}

#[test]
fn full_description() {
    let hs = vec![member("X", 4, 9)];
    let ath = vec![member("Y", 2, 9)];
    let rb = vec![member("Z", 4, 4)];
    let naughty = vec![member("N0", 0, 3), member("N1", -1, 3), member("N2", -3, 3)];
    let s = build_description(
        4,
        9,
        hs.as_slice(),
        ath.as_slice(),
        rb.as_slice(),
        naughty.as_slice(),
    );
    assert_eq!(
        s.as_str(),
        "# Leaderboard Updates\n\
         ## All Time High - 9\n- Y\n\
         ## Current Highest Streak - 4\n- X\n\
         ## New Personal Records\n- Z - 4\n\
         # Missed Updates\n- N0 | :x:\n- N1 | :x::x:\n- N2 | :headstone:\n"
    );
}

#[test]
fn description_without_record_breakers_omits_the_block() {
    let s = build_description(1, 1, &[], &[], &[], &[]);
    assert!(!s.contains("New Personal Records"));
}

#[test]
fn empty_naughty_list_celebrates() {
    let s = build_description(1, 2, &[], &[], &[], &[]);
    assert_eq!(
        s.as_str(),
        "# Leaderboard Updates\n\
         ## All Time High - 2\n\
         ## Current Highest Streak - 1\n\
         # Missed Updates\nEveryone sent their update yesterday!\n"
    );
    assert!(!s.contains(" | "));
}

#[test]
fn description_is_deterministic() {
    let hs = vec![member("X", 4, 9)];
    let naughty = vec![member("N", 0, 3)];
    let a = build_description(4, 9, hs.as_slice(), hs.as_slice(), &[], naughty.as_slice());
    let b = build_description(4, 9, hs.as_slice(), hs.as_slice(), &[], naughty.as_slice());
    assert_eq!(a, b);
}

#[test]
fn date_is_zero_padded() {
    assert_eq!(format_date(2024, 3, 7).as_str(), "2024-03-07");
    assert_eq!(format_date(2024, 12, 31).as_str(), "2024-12-31");
    assert_eq!(format_date(987, 10, 2).as_str(), "0987-10-02");
}

#[test]
fn report_title_and_celebration_flag() {
    let mut state = ReconcileState::new();
    let r = build_report(&state, 2024, 3, 7);
    assert_eq!(r.title.as_str(), "Status Update Report - 2024-03-07");
    assert!(r.celebratory);

    state.record_noncompliant(&member("N", 0, 3));
    let r2 = build_report(&state, 2024, 3, 7);
    assert!(!r2.celebratory);
    assert!(r2.description.contains("- N | :x:\n"));
    assert!(!r2.description.contains("Everyone sent their update yesterday!"));
}
