//! Report builder: renders the leaderboard and absentee report from the
//! reconciliation output. Pure text construction, fully specified.

use vstd::prelude::*;
use vstd::slice::slice_index_get;
use vstd::string::StringExecFns;

use crate::decimal::{i32_to_string, spec_int_string, spec_nat_digits, u64_to_string};
use crate::models::{members_model, Member, MemberModel};
use crate::reconcile::ReconcileState;

verus! {

/// The heading of one leaderboard section.
pub open spec fn spec_section_header(title: Seq<char>, value: int) -> Seq<char> {
    "## "@ + title + " - "@ + spec_int_string(value) + "\n"@
}

/// One name bullet of a leaderboard section.
pub open spec fn spec_member_line(m: MemberModel) -> Seq<char> {
    "- "@ + m.name + "\n"@
}

/// The name bullets of a section, in order.
pub open spec fn spec_names_list(ms: Seq<MemberModel>) -> Seq<char>
    decreases ms.len(),
{
    if ms.len() == 0 {
        Seq::empty()
    } else {
        spec_names_list(ms.drop_last()) + spec_member_line(ms.last())
    }
}

/// A leaderboard section: its heading, then either every holder's name or,
/// past five holders, a one-line summary.
pub open spec fn spec_format_section(title: Seq<char>, value: int, ms: Seq<MemberModel>) -> Seq<
    char,
> {
    if ms.len() > 5 {
        spec_section_header(title, value) + "More than five members hold the record!\n"@
    } else {
        spec_section_header(title, value) + spec_names_list(ms)
    }
}

/// Render one leaderboard section. With more than five listed members the
/// names collapse to a summary line; with five or fewer, every name appears.
pub fn format_section(title: &str, value: i32, members: &[Member]) -> (r: String)
    ensures
        r@ == spec_format_section(title@, value as int, members_model(members@)),
{
    let ghost ms = members_model(members@);
    let mut s = String::from_str("## ");
    s.append(title);
    s.append(" - ");
    let v = i32_to_string(value);
    s.append(v.as_str());
    s.append("\n");
    proof {
        assert(s@ =~= spec_section_header(title@, value as int));
    }
    if members.len() > 5 {
        s.append("More than five members hold the record!\n");
        proof {
            assert(s@ =~= spec_format_section(title@, value as int, ms));
        }
        s
    } else {
        let mut k: usize = 0;
        while k < members.len()
            invariant
                k <= members@.len(),
                ms == members_model(members@),
                s@ == spec_section_header(title@, value as int) + spec_names_list(
                    ms.take(k as int),
                ),
            decreases members@.len() - k,
        {
            s.append("- ");
            s.append(slice_index_get(members, k).name.as_str());
            s.append("\n");
            proof {
                assert(ms.take(k + 1).drop_last() =~= ms.take(k as int));
                assert(s@ =~= spec_section_header(title@, value as int) + spec_names_list(
                    ms.take(k + 1),
                ));
            }
            k += 1;
        }
        proof {
            assert(ms.take(members@.len() as int) =~= ms);
            assert(s@ =~= spec_format_section(title@, value as int, ms));
        }
        s
    }
}

/// The escalating marker of a missed-update entry: tier A for a streak of
/// exactly 0, tier B for exactly -1, tier C for everything else.
pub open spec fn spec_status_marker(current: int) -> Seq<char> {
    if current == 0 {
        ":x:"@
    } else if current == -1 {
        ":x::x:"@
    } else {
        ":headstone:"@
    }
}

/// The visual marker rendered next to a non-compliant member.
pub fn status_marker(current: i32) -> (r: &'static str)
    ensures
        r@ == spec_status_marker(current as int),
{
    if current == 0 {
        ":x:"
    } else if current == -1 {
        ":x::x:"
    } else {
        ":headstone:"
    }
}

/// One bullet of the personal-records block.
pub open spec fn spec_record_line(m: MemberModel) -> Seq<char> {
    "- "@ + m.name + " - "@ + spec_int_string(m.streak[0].current_streak as int) + "\n"@
}

/// The bullets of the personal-records block, in order.
pub open spec fn spec_record_lines(ms: Seq<MemberModel>) -> Seq<char>
    decreases ms.len(),
{
    if ms.len() == 0 {
        Seq::empty()
    } else {
        spec_record_lines(ms.drop_last()) + spec_record_line(ms.last())
    }
}

/// One bullet of the missed-updates block.
pub open spec fn spec_naughty_line(m: MemberModel) -> Seq<char> {
    "- "@ + m.name + " | "@ + spec_status_marker(m.streak[0].current_streak as int) + "\n"@
}

/// The bullets of the missed-updates block, in order.
pub open spec fn spec_naughty_lines(ms: Seq<MemberModel>) -> Seq<char>
    decreases ms.len(),
{
    if ms.len() == 0 {
        Seq::empty()
    } else {
        spec_naughty_lines(ms.drop_last()) + spec_naughty_line(ms.last())
    }
}

/// The missed-updates block: a celebratory line when nobody missed, else one
/// bullet per absentee.
pub open spec fn spec_missed_block(naughty: Seq<MemberModel>) -> Seq<char> {
    if naughty.len() == 0 {
        "# Missed Updates\nEveryone sent their update yesterday!\n"@
    } else {
        "# Missed Updates\n"@ + spec_naughty_lines(naughty)
    }
}

/// The personal-records block, absent when nobody broke a record.
pub open spec fn spec_records_block(rb: Seq<MemberModel>) -> Seq<char> {
    if rb.len() == 0 {
        Seq::empty()
    } else {
        "## New Personal Records\n"@ + spec_record_lines(rb)
    }
}

/// The whole report body.
pub open spec fn spec_description(
    highest_streak: int,
    all_time_high: int,
    highest_streak_members: Seq<MemberModel>,
    all_time_high_members: Seq<MemberModel>,
    record_breakers: Seq<MemberModel>,
    naughty_list: Seq<MemberModel>,
) -> Seq<char> {
    "# Leaderboard Updates\n"@ + spec_format_section("All Time High"@, all_time_high, all_time_high_members)
        + spec_format_section("Current Highest Streak"@, highest_streak, highest_streak_members)
        + spec_records_block(record_breakers) + spec_missed_block(naughty_list)
}

/// Every member of the sequence carries at least one streak record.
pub open spec fn all_have_streaks(ms: Seq<MemberModel>) -> bool {
    forall|i: int| 0 <= i < ms.len() ==> (#[trigger] ms[i]).streak.len() > 0
}

/// Render the report body from the reconciliation output: the leaderboard
/// sections, the personal-records block when non-empty, and the
/// missed-updates block (or its celebratory variant). The text is a function
/// of the arguments alone, so rebuilding from the same output yields the
/// same text.
pub fn build_description(
    highest_streak: i32,
    all_time_high: i32,
    highest_streak_members: &[Member],
    all_time_high_members: &[Member],
    record_breakers: &[Member],
    naughty_list: &[Member],
) -> (r: String)
    requires
        all_have_streaks(members_model(record_breakers@)),
        all_have_streaks(members_model(naughty_list@)),
    ensures
        r@ == spec_description(
            highest_streak as int,
            all_time_high as int,
            members_model(highest_streak_members@),
            members_model(all_time_high_members@),
            members_model(record_breakers@),
            members_model(naughty_list@),
        ),
{
    let ghost rbs = members_model(record_breakers@);
    let ghost nys = members_model(naughty_list@);
    let mut s = String::from_str("# Leaderboard Updates\n");
    let sec_ath = format_section("All Time High", all_time_high, all_time_high_members);
    s.append(sec_ath.as_str());
    let sec_cur = format_section("Current Highest Streak", highest_streak, highest_streak_members);
    s.append(sec_cur.as_str());
    let ghost head = s@;
    if record_breakers.len() > 0 {
        s.append("## New Personal Records\n");
        let mut k: usize = 0;
        while k < record_breakers.len()
            invariant
                k <= record_breakers@.len(),
                rbs == members_model(record_breakers@),
                all_have_streaks(rbs),
                s@ == head + "## New Personal Records\n"@ + spec_record_lines(rbs.take(k as int)),
            decreases record_breakers@.len() - k,
        {
            let m = slice_index_get(record_breakers, k);
            proof {
                assert(rbs[k as int].streak.len() > 0);
            }
            s.append("- ");
            s.append(m.name.as_str());
            s.append(" - ");
            let v = i32_to_string(m.streak[0].current_streak);
            s.append(v.as_str());
            s.append("\n");
            proof {
                assert(rbs.take(k + 1).drop_last() =~= rbs.take(k as int));
                assert(s@ =~= head + "## New Personal Records\n"@ + spec_record_lines(
                    rbs.take(k + 1),
                ));
            }
            k += 1;
        }
        proof {
            assert(rbs.take(record_breakers@.len() as int) =~= rbs);
        }
    }
    proof {
        assert(s@ =~= head + spec_records_block(rbs));
    }
    let ghost head2 = s@;
    if naughty_list.len() == 0 {
        s.append("# Missed Updates\nEveryone sent their update yesterday!\n");
    } else {
        s.append("# Missed Updates\n");
        let mut k: usize = 0;
        while k < naughty_list.len()
            invariant
                k <= naughty_list@.len(),
                nys == members_model(naughty_list@),
                all_have_streaks(nys),
                s@ == head2 + "# Missed Updates\n"@ + spec_naughty_lines(nys.take(k as int)),
            decreases naughty_list@.len() - k,
        {
            let m = slice_index_get(naughty_list, k);
            proof {
                assert(nys[k as int].streak.len() > 0);
            }
            s.append("- ");
            s.append(m.name.as_str());
            s.append(" | ");
            s.append(status_marker(m.streak[0].current_streak));
            s.append("\n");
            proof {
                assert(nys.take(k + 1).drop_last() =~= nys.take(k as int));
                assert(s@ =~= head2 + "# Missed Updates\n"@ + spec_naughty_lines(nys.take(k + 1)));
            }
            k += 1;
        }
        proof {
            assert(nys.take(naughty_list@.len() as int) =~= nys);
        }
    }
    proof {
        assert(s@ =~= spec_description(
            highest_streak as int,
            all_time_high as int,
            members_model(highest_streak_members@),
            members_model(all_time_high_members@),
            rbs,
            nys,
        ));
    }
    s
}

/// Two renderings of the same reconciliation output are the same text: the
/// report body is a function of the output alone.
pub proof fn lemma_report_builder_deterministic(
    highest_streak: int,
    all_time_high: int,
    highest_streak_members: Seq<MemberModel>,
    all_time_high_members: Seq<MemberModel>,
    record_breakers: Seq<MemberModel>,
    naughty_list: Seq<MemberModel>,
    r1: Seq<char>,
    r2: Seq<char>,
)
    requires
        r1 == spec_description(
            highest_streak,
            all_time_high,
            highest_streak_members,
            all_time_high_members,
            record_breakers,
            naughty_list,
        ),
        r2 == spec_description(
            highest_streak,
            all_time_high,
            highest_streak_members,
            all_time_high_members,
            record_breakers,
            naughty_list,
        ),
    ensures
        r1 == r2,
{
}

/// A zero-padded two-digit number, as a date renders it.
pub open spec fn spec_pad2(n: int) -> Seq<char> {
    if n < 10 {
        seq!['0'] + spec_nat_digits(n as nat)
    } else {
        spec_nat_digits(n as nat)
    }
}

/// A zero-padded four-digit number, as a year renders it.
pub open spec fn spec_pad4(n: int) -> Seq<char> {
    if n < 10 {
        seq!['0', '0', '0'] + spec_nat_digits(n as nat)
    } else if n < 100 {
        seq!['0', '0'] + spec_nat_digits(n as nat)
    } else if n < 1000 {
        seq!['0'] + spec_nat_digits(n as nat)
    } else {
        spec_nat_digits(n as nat)
    }
}

/// A calendar date rendered as `YYYY-MM-DD`.
pub open spec fn spec_date_string(year: int, month: int, day: int) -> Seq<char> {
    spec_pad4(year) + seq!['-'] + spec_pad2(month) + seq!['-'] + spec_pad2(day)
}

/// Append a zero-padded two-digit number.
fn append_pad2(s: &mut String, n: u64)
    requires
        n < 100,
    ensures
        final(s)@ == old(s)@ + spec_pad2(n as int),
{
    if n < 10 {
        s.append("0");
    }
    let t = u64_to_string(n);
    s.append(t.as_str());
    proof {
        reveal_strlit("0");
        assert(s@ =~= old(s)@ + spec_pad2(n as int));
    }
}

/// The rendered report: its title, its body, and whether the run earned the
/// celebratory variant (nobody missed an update).
#[derive(Debug)]
pub struct Report {
    pub title: String,
    pub description: String,
    pub celebratory: bool,
}

/// Render the full report for a run: the dated title, the body built from
/// the reconciliation output, and the celebratory flag, which is set exactly
/// when the absentee list is empty.
pub fn build_report(state: &ReconcileState, year: u32, month: u32, day: u32) -> (r: Report)
    requires
        year <= 9999,
        1 <= month <= 12,
        1 <= day <= 31,
        all_have_streaks(state@.record_breakers),
        all_have_streaks(state@.naughty_list),
    ensures
        r.title@ == "Status Update Report - "@ + spec_date_string(
            year as int,
            month as int,
            day as int,
        ),
        r.description@ == spec_description(
            state@.highest_streak,
            state@.all_time_high,
            state@.highest_streak_members,
            state@.all_time_high_members,
            state@.record_breakers,
            state@.naughty_list,
        ),
        r.celebratory == (state@.naughty_list.len() == 0),
{
    let mut title = String::from_str("Status Update Report - ");
    let date = format_date(year, month, day);
    title.append(date.as_str());
    let description = build_description(
        state.highest_streak,
        state.all_time_high,
        state.highest_streak_members.as_slice(),
        state.all_time_high_members.as_slice(),
        state.record_breakers.as_slice(),
        state.naughty_list.as_slice(),
    );
    let celebratory = state.naughty_list.len() == 0;
    Report { title, description, celebratory }
}

/// Render a calendar date as `YYYY-MM-DD`.
pub fn format_date(year: u32, month: u32, day: u32) -> (r: String)
    requires
        year <= 9999,
        1 <= month <= 12,
        1 <= day <= 31,
    ensures
        r@ == spec_date_string(year as int, month as int, day as int),
{
    let mut s = String::new();
    if year < 10 {
        s.append("000");
    } else if year < 100 {
        s.append("00");
    } else if year < 1000 {
        s.append("0");
    }
    let y = u64_to_string(year as u64);
    s.append(y.as_str());
    proof {
        reveal_strlit("0");
        reveal_strlit("00");
        reveal_strlit("000");
        assert(s@ =~= spec_pad4(year as int));
    }
    s.append("-");
    append_pad2(&mut s, month as u64);
    s.append("-");
    append_pad2(&mut s, day as u64);
    proof {
        reveal_strlit("-");
        assert(s@ =~= spec_date_string(year as int, month as int, day as int));
    }
    s
}

} // verus!
