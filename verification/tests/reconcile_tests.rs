use amd::models::{Member, Streak};
use amd::reconcile::{
    apply_increment, apply_reset, count_resets, is_excluded, member_posted, reconcile,
    ReconcileState,
};

fn member(name: &str, discord_id: &str, streaks: Vec<Streak>) -> Member {
    Member {
        member_id: 1,
        name: String::from(name),
        discord_id: String::from(discord_id),
        streak: streaks,
    }
}

fn streak(current: i32, max: i32) -> Streak {
    Streak { current_streak: current, max_streak: max }
}

fn names(ms: &[Member]) -> Vec<String> {
    ms.iter().map(|m| m.name.clone()).collect()
}

#[test]
fn increment_grows_run_and_keeps_best() {
    let mut m = member("A", "1", vec![streak(3, 5)]);
    apply_increment(&mut m);
    assert_eq!(m.streak, vec![streak(4, 5)]);
}

#[test]
fn increment_raises_best_when_overtaken() {
    let mut m = member("A", "1", vec![streak(5, 5)]);
    apply_increment(&mut m);
    assert_eq!(m.streak, vec![streak(6, 6)]);
}

#[test]
fn increment_creates_fresh_record() {
    let mut m = member("A", "1", vec![]);
    apply_increment(&mut m);
    assert_eq!(m.streak, vec![streak(1, 1)]);
}

#[test]
fn increment_recovers_from_negative_run() {
    let mut m = member("A", "1", vec![streak(-4, 7)]);
    apply_increment(&mut m);
    assert_eq!(m.streak, vec![streak(-3, 7)]);
}

#[test]
fn reset_takes_directory_values() {
    let mut m = member("A", "1", vec![streak(6, 9)]);
    apply_reset(&mut m, -1, 9);
    assert_eq!(m.streak, vec![streak(-1, 9)]);
}

#[test]
fn reset_creates_record_when_none() {
    let mut m = member("A", "1", vec![]);
    apply_reset(&mut m, 0, 2);
    assert_eq!(m.streak, vec![streak(0, 2)]);
}

#[test]
fn posting_is_matched_by_identity() {
    let m = member("A", "100", vec![]);
    let authors = vec![String::from("7"), String::from("100")];
    assert!(member_posted(&m, &authors));
    assert!(!member_posted(&m, &vec![String::from("101")]));
    assert!(!member_posted(&m, &vec![]));
}

#[test]
fn exclusion_is_matched_by_name() {
    let m = member("A", "100", vec![]);
    assert!(is_excluded(&m, &vec![String::from("A")]));
    assert!(!is_excluded(&m, &vec![String::from("B")]));
}

#[test]
fn count_resets_counts_absentees_only() {
    let members = vec![
        member("A", "1", vec![]),
        member("B", "2", vec![]),
        member("C", "3", vec![]),
    ];
    let authors = vec![String::from("1")];
    let exclusions = vec![String::from("C")];
    assert_eq!(count_resets(&members, &authors, &exclusions), 1);
}

#[test]
fn reconcile_full_run() {
    let members = vec![
        member("Alice", "1", vec![streak(3, 9)]),
        member("Bob", "2", vec![streak(4, 4)]),
        member("Carol", "3", vec![streak(6, 6)]),
        member("Dave", "4", vec![streak(2, 2)]),
    ];
    // Alice and Bob posted; Carol is excluded; Dave missed.
    let authors = vec![String::from("1"), String::from("2")];
    let exclusions = vec![String::from("Carol")];
    let resets = vec![(0, 2)];
    let st = reconcile(&members, &authors, &exclusions, &resets);

    // Alice: 3/9 -> 4/9; Bob: 4/4 -> 5/5 and breaks a record. Bob's 5
    // strictly beats Alice's 4, so he holds the current-highest category
    // alone.
    assert_eq!(st.highest_streak, 5);
    assert_eq!(st.all_time_high, 9);
    assert_eq!(names(&st.highest_streak_members), vec!["Bob"]);
    assert_eq!(names(&st.all_time_high_members), vec!["Alice"]);
    assert_eq!(names(&st.record_breakers), vec!["Bob"]);
    assert_eq!(names(&st.naughty_list), vec!["Dave"]);
    assert_eq!(st.naughty_list[0].streak, vec![streak(0, 2)]);
    assert_eq!(st.record_breakers[0].streak, vec![streak(5, 5)]);
}

#[test]
fn reconcile_keeps_running_maximum_ties_in_encounter_order() {
    let members = vec![
        member("A", "1", vec![streak(4, 4)]),
        member("B", "2", vec![streak(4, 9)]),
        member("C", "3", vec![streak(1, 1)]),
    ];
    // Everyone posted: A -> 5/5, B -> 5/9 ties the running maximum, C -> 2/2
    // stays below it.
    let authors = vec![String::from("1"), String::from("2"), String::from("3")];
    let st = reconcile(&members, &authors, &vec![], &vec![]);
    assert_eq!(st.highest_streak, 5);
    assert_eq!(names(&st.highest_streak_members), vec!["A", "B"]);
    assert_eq!(names(&st.naughty_list), Vec::<String>::new());
}

#[test]
fn reconcile_empty_member_list() {
    let st = reconcile(&vec![], &vec![], &vec![], &vec![]);
    assert_eq!(st.highest_streak, 0);
    assert_eq!(st.all_time_high, 0);
    assert!(st.naughty_list.is_empty());
    assert!(st.highest_streak_members.is_empty());
}

#[test]
fn recording_directly_accumulates() {
    let mut st = ReconcileState::new();
    st.record_compliant(&member("A", "1", vec![streak(2, 2)]));
    st.record_compliant(&member("B", "2", vec![streak(1, 5)]));
    assert_eq!(st.highest_streak, 2);
    assert_eq!(st.all_time_high, 5);
    assert_eq!(names(&st.highest_streak_members), vec!["A"]);
    // B's best of 5 strictly beats A's 2, so B holds the all-time category
    // alone.
    assert_eq!(names(&st.all_time_high_members), vec!["B"]);
    assert_eq!(names(&st.record_breakers), vec!["A"]);
    st.record_noncompliant(&member("C", "3", vec![streak(0, 1)]));
    assert_eq!(names(&st.naughty_list), vec!["C"]);
}

#[test]
fn new_maximum_replaces_the_category_holders() {
    // A run of 3 and then a run of 5: only the member matching the final
    // maximum is retained.
    let mut st = ReconcileState::new();
    st.record_compliant(&member("A", "1", vec![streak(3, 9)]));
    st.record_compliant(&member("B", "2", vec![streak(5, 9)]));
    assert_eq!(st.highest_streak, 5);
    assert_eq!(names(&st.highest_streak_members), vec!["B"]);
}

#[test]
fn stale_holder_does_not_inflate_a_five_way_tie() {
    // One early member below the final maximum, then exactly five tied at
    // it: the category holds the five, and the section lists all five names
    // instead of collapsing.
    let mut st = ReconcileState::new();
    st.record_compliant(&member("Stale", "0", vec![streak(6, 20)]));
    for (i, name) in ["A", "B", "C", "D", "E"].into_iter().enumerate() {
        st.record_compliant(&member(name, &i.to_string(), vec![streak(7, 20)]));
    }
    assert_eq!(st.highest_streak, 7);
    assert_eq!(names(&st.highest_streak_members), vec!["A", "B", "C", "D", "E"]);
    let section = amd::report::format_section(
        "Current Highest Streak",
        st.highest_streak,
        st.highest_streak_members.as_slice(),
    );
    assert_eq!(
        section.as_str(),
        "## Current Highest Streak - 7\n- A\n- B\n- C\n- D\n- E\n"
    );
}
