//! Streak reconciler: decides compliance per member, applies the streak
//! transitions, and accumulates the report categories in encounter order.

use vstd::prelude::*;

use crate::models::{clone_member, members_model, Member, MemberModel, Streak};
use crate::report::all_have_streaks;

verus! {

/// The spec-level image of a list of strings.
pub open spec fn strings_model(s: Seq<String>) -> Seq<Seq<char>> {
    s.map_values(|x: String| x@)
}

/// Some collected update was authored by this member's chat identity.
pub open spec fn spec_posted(m: MemberModel, authors: Seq<Seq<char>>) -> bool {
    exists|i: int| 0 <= i < authors.len() && authors[i] == m.discord_id
}

/// The member's display name stands on the exclusion list.
pub open spec fn spec_excluded(m: MemberModel, exclusions: Seq<Seq<char>>) -> bool {
    exists|i: int| 0 <= i < exclusions.len() && exclusions[i] == m.name
}

/// Did this member author one of the collected updates?
pub fn member_posted(m: &Member, authors: &Vec<String>) -> (r: bool)
    ensures
        r == spec_posted(m@, strings_model(authors@)),
{
    let mut k: usize = 0;
    while k < authors.len()
        invariant
            k <= authors@.len(),
            forall|i: int| 0 <= i < k ==> strings_model(authors@)[i] != m@.discord_id,
        decreases authors@.len() - k,
    {
        if authors[k] == m.discord_id {
            proof {
                assert(strings_model(authors@)[k as int] == m@.discord_id);
            }
            return true;
        }
        k += 1;
    }
    false
}

/// Does this member stand on the exclusion list?
pub fn is_excluded(m: &Member, exclusions: &Vec<String>) -> (r: bool)
    ensures
        r == spec_excluded(m@, strings_model(exclusions@)),
{
    let mut k: usize = 0;
    while k < exclusions.len()
        invariant
            k <= exclusions@.len(),
            forall|i: int| 0 <= i < k ==> strings_model(exclusions@)[i] != m@.name,
        decreases exclusions@.len() - k,
    {
        if exclusions[k] == m.name {
            proof {
                assert(strings_model(exclusions@)[k as int] == m@.name);
            }
            return true;
        }
        k += 1;
    }
    false
}

/// One streak record after a compliant day: the active run grows by one and
/// the all-time best keeps up with it.
pub open spec fn spec_incremented_streak(s: Streak) -> Streak {
    let c = s.current_streak as int + 1;
    Streak {
        current_streak: c as i32,
        max_streak: if c > s.max_streak as int {
            c as i32
        } else {
            s.max_streak
        },
    }
}

/// A member after the increment mutation: a fresh one-day streak when none
/// was recorded, otherwise every record incremented.
pub open spec fn spec_inc_member(m: MemberModel) -> MemberModel {
    MemberModel {
        member_id: m.member_id,
        name: m.name,
        discord_id: m.discord_id,
        streak: if m.streak.len() == 0 {
            seq![Streak { current_streak: 1, max_streak: 1 }]
        } else {
            m.streak.map_values(|s: Streak| spec_incremented_streak(s))
        },
    }
}

/// A member after the reset mutation, whose returned values are
/// authoritative: every record (or a fresh one) carries exactly the values
/// the directory returned.
pub open spec fn spec_reset_member(m: MemberModel, current: i32, max: i32) -> MemberModel {
    MemberModel {
        member_id: m.member_id,
        name: m.name,
        discord_id: m.discord_id,
        streak: if m.streak.len() == 0 {
            seq![Streak { current_streak: current, max_streak: max }]
        } else {
            m.streak.map_values(|_s: Streak| Streak { current_streak: current, max_streak: max })
        },
    }
}

/// Every streak record of the member has room to grow by one.
pub open spec fn streaks_below_max(m: MemberModel) -> bool {
    forall|j: int| 0 <= j < m.streak.len() ==> (#[trigger] m.streak[j]).current_streak < i32::MAX
}

/// Apply the increment transition locally: a fresh `1/1` record when none
/// exists, otherwise every record's active run grows by one and its best is
/// raised to match when overtaken.
pub fn apply_increment(member: &mut Member)
    requires
        streaks_below_max(old(member)@),
    ensures
        final(member)@ == spec_inc_member(old(member)@),
{
    if member.streak.len() == 0 {
        member.streak.push(Streak { current_streak: 1, max_streak: 1 });
        proof {
            assert(final(member)@ =~= spec_inc_member(old(member)@));
        }
    } else {
        let mut ns: Vec<Streak> = Vec::new();
        let mut k: usize = 0;
        while k < member.streak.len()
            invariant
                k <= member.streak@.len(),
                member == old(member),
                streaks_below_max(member@),
                ns@.len() == k,
                forall|i: int|
                    0 <= i < k ==> ns@[i] == spec_incremented_streak(member.streak@[i]),
            decreases member.streak@.len() - k,
        {
            let s = member.streak[k];
            proof {
                assert(member@.streak[k as int].current_streak < i32::MAX);
            }
            let c = s.current_streak + 1;
            let m = if c > s.max_streak {
                c
            } else {
                s.max_streak
            };
            ns.push(Streak { current_streak: c, max_streak: m });
            k += 1;
        }
        member.streak = ns;
        proof {
            assert(final(member)@.streak =~= spec_inc_member(old(member)@).streak);
            assert(final(member)@ =~= spec_inc_member(old(member)@));
        }
    }
}

/// Apply the reset transition locally with the values the directory
/// returned.
pub fn apply_reset(member: &mut Member, current: i32, max: i32)
    ensures
        final(member)@ == spec_reset_member(old(member)@, current, max),
{
    if member.streak.len() == 0 {
        member.streak.push(Streak { current_streak: current, max_streak: max });
        proof {
            assert(final(member)@ =~= spec_reset_member(old(member)@, current, max));
        }
    } else {
        let mut ns: Vec<Streak> = Vec::new();
        let mut k: usize = 0;
        while k < member.streak.len()
            invariant
                k <= member.streak@.len(),
                member == old(member),
                ns@.len() == k,
                forall|i: int|
                    0 <= i < k ==> ns@[i] == (Streak { current_streak: current, max_streak: max }),
            decreases member.streak@.len() - k,
        {
            ns.push(Streak { current_streak: current, max_streak: max });
            k += 1;
        }
        member.streak = ns;
        proof {
            assert(final(member)@.streak =~= spec_reset_member(old(member)@, current, max).streak);
            assert(final(member)@ =~= spec_reset_member(old(member)@, current, max));
        }
    }
}

/// The spec-level image of the accumulated reconciliation output.
#[verifier::ext_equal]
pub ghost struct ReconModel {
    pub highest_streak: int,
    pub all_time_high: int,
    pub highest_streak_members: Seq<MemberModel>,
    pub all_time_high_members: Seq<MemberModel>,
    pub record_breakers: Seq<MemberModel>,
    pub naughty_list: Seq<MemberModel>,
}

/// The accumulated reconciliation output: the two running maxima with their
/// holders in encounter order, the record breakers, and the absentees.
#[derive(Debug)]
pub struct ReconcileState {
    pub highest_streak: i32,
    pub all_time_high: i32,
    pub highest_streak_members: Vec<Member>,
    pub all_time_high_members: Vec<Member>,
    pub record_breakers: Vec<Member>,
    pub naughty_list: Vec<Member>,
}

impl View for ReconcileState {
    type V = ReconModel;

    open spec fn view(&self) -> ReconModel {
        ReconModel {
            highest_streak: self.highest_streak as int,
            all_time_high: self.all_time_high as int,
            highest_streak_members: members_model(self.highest_streak_members@),
            all_time_high_members: members_model(self.all_time_high_members@),
            record_breakers: members_model(self.record_breakers@),
            naughty_list: members_model(self.naughty_list@),
        }
    }
}

/// The state before any member is processed.
pub open spec fn spec_empty_state() -> ReconModel {
    ReconModel {
        highest_streak: 0,
        all_time_high: 0,
        highest_streak_members: Seq::empty(),
        all_time_high_members: Seq::empty(),
        record_breakers: Seq::empty(),
        naughty_list: Seq::empty(),
    }
}

/// Record a compliant member (already incremented). Each category keeps
/// exactly the members matching its running maximum: a run strictly above
/// the current-highest maximum makes the member its sole holder, a tie joins
/// the holders in encounter order, and anything below leaves the category
/// alone; the all-time category does the same over the member's best. A
/// member whose run equals its best joins the record breakers.
pub open spec fn spec_record_compliant(st: ReconModel, m: MemberModel) -> ReconModel {
    let cur = m.streak[0].current_streak as int;
    let mx = m.streak[0].max_streak as int;
    let st1 = if cur > st.highest_streak {
        ReconModel { highest_streak: cur, highest_streak_members: seq![m], ..st }
    } else if cur == st.highest_streak {
        ReconModel { highest_streak_members: st.highest_streak_members.push(m), ..st }
    } else {
        st
    };
    let st2 = if cur == mx {
        ReconModel { record_breakers: st1.record_breakers.push(m), ..st1 }
    } else {
        st1
    };
    if mx > st2.all_time_high {
        ReconModel { all_time_high: mx, all_time_high_members: seq![m], ..st2 }
    } else if mx == st2.all_time_high {
        ReconModel { all_time_high_members: st2.all_time_high_members.push(m), ..st2 }
    } else {
        st2
    }
}

/// Record a non-compliant member (already reset): it joins the absentees.
pub open spec fn spec_record_noncompliant(st: ReconModel, m: MemberModel) -> ReconModel {
    ReconModel { naughty_list: st.naughty_list.push(m), ..st }
}

impl ReconcileState {
    /// The empty accumulator.
    pub fn new() -> (st: Self)
        ensures
            st@ == spec_empty_state(),
    {
        let st = ReconcileState {
            highest_streak: 0,
            all_time_high: 0,
            highest_streak_members: Vec::new(),
            all_time_high_members: Vec::new(),
            record_breakers: Vec::new(),
            naughty_list: Vec::new(),
        };
        proof {
            assert(st@ =~= spec_empty_state());
        }
        st
    }

    /// Record a compliant member, whose streak was already incremented: a
    /// new maximum takes a category over alone, a tie joins its holders.
    pub fn record_compliant(&mut self, m: &Member)
        requires
            m@.streak.len() > 0,
        ensures
            final(self)@ == spec_record_compliant(old(self)@, m@),
    {
        let cur = m.streak[0].current_streak;
        let mx = m.streak[0].max_streak;
        if cur > self.highest_streak {
            self.highest_streak = cur;
            self.highest_streak_members.clear();
            self.highest_streak_members.push(clone_member(m));
        } else if cur == self.highest_streak {
            self.highest_streak_members.push(clone_member(m));
        }
        if cur == mx {
            self.record_breakers.push(clone_member(m));
        }
        if mx > self.all_time_high {
            self.all_time_high = mx;
            self.all_time_high_members.clear();
            self.all_time_high_members.push(clone_member(m));
        } else if mx == self.all_time_high {
            self.all_time_high_members.push(clone_member(m));
        }
        proof {
            assert(final(self)@ =~= spec_record_compliant(old(self)@, m@));
        }
    }

    /// Record a non-compliant member, whose streak was already reset.
    pub fn record_noncompliant(&mut self, m: &Member)
        ensures
            final(self)@ == spec_record_noncompliant(old(self)@, m@),
    {
        self.naughty_list.push(clone_member(m));
        proof {
            assert(final(self)@ =~= spec_record_noncompliant(old(self)@, m@));
        }
    }
}

/// How many of the members are neither excluded nor authors of a collected
/// update — exactly the number of reset mutations a run performs.
pub open spec fn spec_reset_count(
    members: Seq<MemberModel>,
    authors: Seq<Seq<char>>,
    exclusions: Seq<Seq<char>>,
) -> nat
    decreases members.len(),
{
    if members.len() == 0 {
        0
    } else {
        (if !spec_excluded(members[0], exclusions) && !spec_posted(members[0], authors) {
            1nat
        } else {
            0nat
        }) + spec_reset_count(members.drop_first(), authors, exclusions)
    }
}

/// Count the reset mutations a run over these members will perform.
pub fn count_resets(members: &Vec<Member>, authors: &Vec<String>, exclusions: &Vec<String>) -> (r:
    usize)
    ensures
        r == spec_reset_count(members_model(members@), strings_model(authors@), strings_model(exclusions@)),
{
    let ghost ms = members_model(members@);
    let ghost aus = strings_model(authors@);
    let ghost exs = strings_model(exclusions@);
    let mut r: usize = 0;
    let mut i: usize = 0;
    proof {
        assert(ms.skip(0) =~= ms);
    }
    while i < members.len()
        invariant
            i <= members@.len(),
            r <= i,
            ms == members_model(members@),
            aus == strings_model(authors@),
            exs == strings_model(exclusions@),
            r + spec_reset_count(ms.skip(i as int), aus, exs) == spec_reset_count(ms, aus, exs),
        decreases members@.len() - i,
    {
        proof {
            assert(ms.skip(i as int)[0] == ms[i as int]);
            assert(ms.skip(i as int).drop_first() =~= ms.skip(i + 1));
        }
        if !is_excluded(&members[i], exclusions) && !member_posted(&members[i], authors) {
            r += 1;
        }
        i += 1;
    }
    proof {
        assert(ms.skip(members@.len() as int) =~= Seq::<MemberModel>::empty());
    }
    r
}

/// The whole reconciliation run over the members in encounter order, given
/// the collected update authors, the exclusion list, and the values the
/// directory returned for each reset in run order: excluded members are
/// skipped, members who posted are incremented and recorded compliant, and
/// the rest are reset and recorded absent.
pub open spec fn spec_reconcile(
    members: Seq<MemberModel>,
    authors: Seq<Seq<char>>,
    exclusions: Seq<Seq<char>>,
    resets: Seq<(i32, i32)>,
    st: ReconModel,
) -> ReconModel
    decreases members.len(),
{
    if members.len() == 0 {
        st
    } else {
        let m = members[0];
        let rest = members.drop_first();
        if spec_excluded(m, exclusions) {
            spec_reconcile(rest, authors, exclusions, resets, st)
        } else if spec_posted(m, authors) {
            spec_reconcile(
                rest,
                authors,
                exclusions,
                resets,
                spec_record_compliant(st, spec_inc_member(m)),
            )
        } else {
            spec_reconcile(
                rest,
                authors,
                exclusions,
                resets.drop_first(),
                spec_record_noncompliant(st, spec_reset_member(m, resets[0].0, resets[0].1)),
            )
        }
    }
}

/// The run value of a member's first streak record.
pub open spec fn spec_cur(m: MemberModel) -> int {
    m.streak[0].current_streak as int
}

/// The best value of a member's first streak record.
pub open spec fn spec_best(m: MemberModel) -> int {
    m.streak[0].max_streak as int
}

/// The members a run counts compliant — neither excluded nor silent —
/// already incremented, in encounter order.
pub open spec fn spec_compliant_updated(
    members: Seq<MemberModel>,
    authors: Seq<Seq<char>>,
    exclusions: Seq<Seq<char>>,
) -> Seq<MemberModel>
    decreases members.len(),
{
    if members.len() == 0 {
        Seq::empty()
    } else {
        let rest = spec_compliant_updated(members.drop_first(), authors, exclusions);
        if !spec_excluded(members[0], exclusions) && spec_posted(members[0], authors) {
            seq![spec_inc_member(members[0])] + rest
        } else {
            rest
        }
    }
}

/// The largest run value among the members, or the seed when none exceeds
/// it.
pub open spec fn spec_peak_current(cs: Seq<MemberModel>, seed: int) -> int
    decreases cs.len(),
{
    if cs.len() == 0 {
        seed
    } else {
        spec_peak_current(
            cs.drop_first(),
            if spec_cur(cs[0]) > seed {
                spec_cur(cs[0])
            } else {
                seed
            },
        )
    }
}

/// The largest best value among the members, or the seed when none exceeds
/// it.
pub open spec fn spec_peak_best(cs: Seq<MemberModel>, seed: int) -> int
    decreases cs.len(),
{
    if cs.len() == 0 {
        seed
    } else {
        spec_peak_best(
            cs.drop_first(),
            if spec_best(cs[0]) > seed {
                spec_best(cs[0])
            } else {
                seed
            },
        )
    }
}

/// The members whose run value is exactly `v`, in encounter order.
pub open spec fn spec_ties_current(cs: Seq<MemberModel>, v: int) -> Seq<MemberModel>
    decreases cs.len(),
{
    if cs.len() == 0 {
        Seq::empty()
    } else if spec_cur(cs[0]) == v {
        seq![cs[0]] + spec_ties_current(cs.drop_first(), v)
    } else {
        spec_ties_current(cs.drop_first(), v)
    }
}

/// The members whose best value is exactly `v`, in encounter order.
pub open spec fn spec_ties_best(cs: Seq<MemberModel>, v: int) -> Seq<MemberModel>
    decreases cs.len(),
{
    if cs.len() == 0 {
        Seq::empty()
    } else if spec_best(cs[0]) == v {
        seq![cs[0]] + spec_ties_best(cs.drop_first(), v)
    } else {
        spec_ties_best(cs.drop_first(), v)
    }
}

/// The peak never falls below its seed.
proof fn lemma_peak_ge_seed(cs: Seq<MemberModel>, seed: int)
    ensures
        spec_peak_current(cs, seed) >= seed,
        spec_peak_best(cs, seed) >= seed,
    decreases cs.len(),
{
    if cs.len() > 0 {
        lemma_peak_ge_seed(
            cs.drop_first(),
            if spec_cur(cs[0]) > seed {
                spec_cur(cs[0])
            } else {
                seed
            },
        );
        lemma_peak_ge_seed(
            cs.drop_first(),
            if spec_best(cs[0]) > seed {
                spec_best(cs[0])
            } else {
                seed
            },
        );
    }
}

/// The category outcome of a run started from any accumulator: the final
/// maximum is the peak of the compliant members' values over the
/// accumulator's, and the holder list is the accumulator's own holders —
/// kept only when nothing beat them — followed by exactly the compliant
/// members tied at the final maximum, in encounter order.
proof fn lemma_categories_from(
    members: Seq<MemberModel>,
    authors: Seq<Seq<char>>,
    exclusions: Seq<Seq<char>>,
    resets: Seq<(i32, i32)>,
    st: ReconModel,
)
    ensures
        ({
            let cs = spec_compliant_updated(members, authors, exclusions);
            let r = spec_reconcile(members, authors, exclusions, resets, st);
            let hc = spec_peak_current(cs, st.highest_streak);
            let hb = spec_peak_best(cs, st.all_time_high);
            &&& r.highest_streak == hc
            &&& r.highest_streak_members == (if hc == st.highest_streak {
                st.highest_streak_members
            } else {
                Seq::<MemberModel>::empty()
            }) + spec_ties_current(cs, hc)
            &&& r.all_time_high == hb
            &&& r.all_time_high_members == (if hb == st.all_time_high {
                st.all_time_high_members
            } else {
                Seq::<MemberModel>::empty()
            }) + spec_ties_best(cs, hb)
        }),
    decreases members.len(),
{
    let cs = spec_compliant_updated(members, authors, exclusions);
    let r = spec_reconcile(members, authors, exclusions, resets, st);
    let hc = spec_peak_current(cs, st.highest_streak);
    let hb = spec_peak_best(cs, st.all_time_high);
    if members.len() == 0 {
        assert(st.highest_streak_members + spec_ties_current(cs, hc)
            =~= st.highest_streak_members);
        assert(st.all_time_high_members + spec_ties_best(cs, hb) =~= st.all_time_high_members);
    } else {
        let m0 = members[0];
        let rest = members.drop_first();
        let cs_rest = spec_compliant_updated(rest, authors, exclusions);
        if spec_excluded(m0, exclusions) {
            lemma_categories_from(rest, authors, exclusions, resets, st);
        } else if spec_posted(m0, authors) {
            let um = spec_inc_member(m0);
            let st2 = spec_record_compliant(st, um);
            lemma_categories_from(rest, authors, exclusions, resets, st2);
            assert(cs.drop_first() =~= cs_rest);
            assert(hc == spec_peak_current(cs_rest, st2.highest_streak));
            assert(hb == spec_peak_best(cs_rest, st2.all_time_high));
            lemma_peak_ge_seed(cs_rest, st2.highest_streak);
            lemma_peak_ge_seed(cs_rest, st2.all_time_high);
            let r_prefix_cur = if hc == st2.highest_streak {
                st2.highest_streak_members
            } else {
                Seq::<MemberModel>::empty()
            };
            let goal_prefix_cur = if hc == st.highest_streak {
                st.highest_streak_members
            } else {
                Seq::<MemberModel>::empty()
            };
            assert(r.highest_streak_members =~= goal_prefix_cur + spec_ties_current(cs, hc)) by {
                assert(r.highest_streak_members == r_prefix_cur + spec_ties_current(cs_rest, hc));
                if spec_cur(um) == hc {
                    assert(spec_ties_current(cs, hc) == seq![um] + spec_ties_current(
                        cs_rest,
                        hc,
                    ));
                } else {
                    assert(spec_ties_current(cs, hc) == spec_ties_current(cs_rest, hc));
                }
            }
            let r_prefix_best = if hb == st2.all_time_high {
                st2.all_time_high_members
            } else {
                Seq::<MemberModel>::empty()
            };
            let goal_prefix_best = if hb == st.all_time_high {
                st.all_time_high_members
            } else {
                Seq::<MemberModel>::empty()
            };
            assert(r.all_time_high_members =~= goal_prefix_best + spec_ties_best(cs, hb)) by {
                assert(r.all_time_high_members == r_prefix_best + spec_ties_best(cs_rest, hb));
                if spec_best(um) == hb {
                    assert(spec_ties_best(cs, hb) == seq![um] + spec_ties_best(cs_rest, hb));
                } else {
                    assert(spec_ties_best(cs, hb) == spec_ties_best(cs_rest, hb));
                }
            }
        } else {
            let rm = spec_reset_member(m0, resets[0].0, resets[0].1);
            let st2 = spec_record_noncompliant(st, rm);
            lemma_categories_from(rest, authors, exclusions, resets.drop_first(), st2);
        }
    }
}

/// The leaderboard categories of a whole run are exact: the current-highest
/// maximum is the largest run value any compliant member reached (never
/// below the zero start), its holders are exactly the compliant members
/// tied at that maximum in encounter order, and the all-time category is
/// the same over best values.
pub proof fn lemma_leaderboard_categories_exact(
    members: Seq<MemberModel>,
    authors: Seq<Seq<char>>,
    exclusions: Seq<Seq<char>>,
    resets: Seq<(i32, i32)>,
)
    ensures
        ({
            let cs = spec_compliant_updated(members, authors, exclusions);
            let r = spec_reconcile(members, authors, exclusions, resets, spec_empty_state());
            &&& r.highest_streak == spec_peak_current(cs, 0)
            &&& r.highest_streak_members == spec_ties_current(cs, spec_peak_current(cs, 0))
            &&& r.all_time_high == spec_peak_best(cs, 0)
            &&& r.all_time_high_members == spec_ties_best(cs, spec_peak_best(cs, 0))
        }),
{
    let cs = spec_compliant_updated(members, authors, exclusions);
    lemma_categories_from(members, authors, exclusions, resets, spec_empty_state());
    assert(Seq::<MemberModel>::empty() + spec_ties_current(cs, spec_peak_current(cs, 0))
        =~= spec_ties_current(cs, spec_peak_current(cs, 0)));
    assert(Seq::<MemberModel>::empty() + spec_ties_best(cs, spec_peak_best(cs, 0))
        =~= spec_ties_best(cs, spec_peak_best(cs, 0)));
}

/// The absentees of a run: the members that are neither excluded nor authors
/// of a collected update, in encounter order, each carrying the values the
/// directory returned for its reset.
pub open spec fn spec_absentees(
    members: Seq<MemberModel>,
    authors: Seq<Seq<char>>,
    exclusions: Seq<Seq<char>>,
    resets: Seq<(i32, i32)>,
) -> Seq<MemberModel>
    decreases members.len(),
{
    if members.len() == 0 {
        Seq::empty()
    } else {
        let m = members[0];
        let rest = members.drop_first();
        if spec_excluded(m, exclusions) || spec_posted(m, authors) {
            spec_absentees(rest, authors, exclusions, resets)
        } else {
            seq![spec_reset_member(m, resets[0].0, resets[0].1)] + spec_absentees(
                rest,
                authors,
                exclusions,
                resets.drop_first(),
            )
        }
    }
}

/// The absentee list a reconciliation run produces is exactly the absentees
/// of its inputs, appended to whatever the accumulator already held: every
/// member who failed to post lands there with its reset values, nobody else
/// does, and encounter order is kept.
pub proof fn lemma_naughty_list_exact(
    members: Seq<MemberModel>,
    authors: Seq<Seq<char>>,
    exclusions: Seq<Seq<char>>,
    resets: Seq<(i32, i32)>,
    st: ReconModel,
)
    ensures
        spec_reconcile(members, authors, exclusions, resets, st).naughty_list == st.naughty_list
            + spec_absentees(members, authors, exclusions, resets),
    decreases members.len(),
{
    if members.len() == 0 {
        assert(st.naughty_list + spec_absentees(members, authors, exclusions, resets)
            =~= st.naughty_list);
    } else {
        let m = members[0];
        let rest = members.drop_first();
        if spec_excluded(m, exclusions) {
            lemma_naughty_list_exact(rest, authors, exclusions, resets, st);
        } else if spec_posted(m, authors) {
            let st2 = spec_record_compliant(st, spec_inc_member(m));
            assert(st2.naughty_list == st.naughty_list);
            lemma_naughty_list_exact(rest, authors, exclusions, resets, st2);
        } else {
            let rm = spec_reset_member(m, resets[0].0, resets[0].1);
            let st2 = spec_record_noncompliant(st, rm);
            lemma_naughty_list_exact(rest, authors, exclusions, resets.drop_first(), st2);
            assert(st.naughty_list.push(rm) + spec_absentees(
                rest,
                authors,
                exclusions,
                resets.drop_first(),
            ) =~= st.naughty_list + spec_absentees(members, authors, exclusions, resets));
        }
    }
}

/// Reconciliation only ever adds members with at least one streak record to
/// the record-breaker and absentee lists.
proof fn lemma_reconcile_streaks(
    members: Seq<MemberModel>,
    authors: Seq<Seq<char>>,
    exclusions: Seq<Seq<char>>,
    resets: Seq<(i32, i32)>,
    st: ReconModel,
)
    requires
        all_have_streaks(st.record_breakers),
        all_have_streaks(st.naughty_list),
    ensures
        all_have_streaks(spec_reconcile(members, authors, exclusions, resets, st).record_breakers),
        all_have_streaks(spec_reconcile(members, authors, exclusions, resets, st).naughty_list),
    decreases members.len(),
{
    if members.len() > 0 {
        let m = members[0];
        let rest = members.drop_first();
        if spec_excluded(m, exclusions) {
            lemma_reconcile_streaks(rest, authors, exclusions, resets, st);
        } else if spec_posted(m, authors) {
            let st2 = spec_record_compliant(st, spec_inc_member(m));
            assert(all_have_streaks(st2.record_breakers));
            assert(all_have_streaks(st2.naughty_list));
            lemma_reconcile_streaks(rest, authors, exclusions, resets, st2);
        } else {
            let st2 = spec_record_noncompliant(st, spec_reset_member(m, resets[0].0, resets[0].1));
            assert(all_have_streaks(st2.record_breakers));
            assert(all_have_streaks(st2.naughty_list));
            lemma_reconcile_streaks(rest, authors, exclusions, resets.drop_first(), st2);
        }
    }
}

/// Run the whole reconciliation: members in encounter order, one reset reply
/// consumed per non-compliant member. The result is exactly the fold the
/// spec describes, and its record-breaker and absentee lists carry only
/// members with streak records.
pub fn reconcile(
    members: &Vec<Member>,
    authors: &Vec<String>,
    exclusions: &Vec<String>,
    resets: &Vec<(i32, i32)>,
) -> (st: ReconcileState)
    requires
        resets@.len() == spec_reset_count(
            members_model(members@),
            strings_model(authors@),
            strings_model(exclusions@),
        ),
        forall|i: int|
            0 <= i < members@.len() && !spec_excluded(
                #[trigger] members_model(members@)[i],
                strings_model(exclusions@),
            ) && spec_posted(members_model(members@)[i], strings_model(authors@))
                ==> streaks_below_max(members_model(members@)[i]),
    ensures
        st@ == spec_reconcile(
            members_model(members@),
            strings_model(authors@),
            strings_model(exclusions@),
            resets@,
            spec_empty_state(),
        ),
        all_have_streaks(st@.record_breakers),
        all_have_streaks(st@.naughty_list),
{
    let ghost ms = members_model(members@);
    let ghost aus = strings_model(authors@);
    let ghost exs = strings_model(exclusions@);
    let ghost goal = spec_reconcile(ms, aus, exs, resets@, spec_empty_state());
    let mut st = ReconcileState::new();
    let n_resets = resets.len();
    let mut i: usize = 0;
    let mut j: usize = 0;
    proof {
        assert(ms.skip(0) =~= ms);
        assert(resets@.skip(0) =~= resets@);
    }
    while i < members.len()
        invariant
            i <= members@.len(),
            n_resets == resets@.len(),
            j <= n_resets,
            ms == members_model(members@),
            aus == strings_model(authors@),
            exs == strings_model(exclusions@),
            goal == spec_reconcile(ms, aus, exs, resets@, spec_empty_state()),
            forall|k: int|
                0 <= k < ms.len() && !spec_excluded(#[trigger] ms[k], exs) && spec_posted(
                    ms[k],
                    aus,
                ) ==> streaks_below_max(ms[k]),
            j + spec_reset_count(ms.skip(i as int), aus, exs) == resets@.len(),
            spec_reconcile(ms.skip(i as int), aus, exs, resets@.skip(j as int), st@) == goal,
        decreases members@.len() - i,
    {
        proof {
            assert(ms.skip(i as int)[0] == ms[i as int]);
            assert(ms.skip(i as int).drop_first() =~= ms.skip(i + 1));
        }
        let m = &members[i];
        proof {
            assert(m@ == ms[i as int]);
        }
        if is_excluded(m, exclusions) {
            // Skipped entirely: neither mutated nor reported.
        } else if member_posted(m, authors) {
            let mut um = clone_member(m);
            apply_increment(&mut um);
            proof {
                assert(um@.streak.len() > 0);
            }
            st.record_compliant(&um);
        } else {
            proof {
                assert(spec_reset_count(ms.skip(i as int), aus, exs) >= 1);
                assert(resets@.skip(j as int)[0] == resets@[j as int]);
                assert(resets@.skip(j as int).drop_first() =~= resets@.skip(j + 1));
            }
            let reply = resets[j];
            let mut um = clone_member(m);
            apply_reset(&mut um, reply.0, reply.1);
            st.record_noncompliant(&um);
            j += 1;
        }
        i += 1;
    }
    proof {
        assert(ms.skip(members@.len() as int) =~= Seq::<MemberModel>::empty());
        lemma_reconcile_streaks(ms, aus, exs, resets@, spec_empty_state());
    }
    st
}

} // verus!
