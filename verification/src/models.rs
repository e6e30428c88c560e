//! Records of the member directory: members and their streaks.

use vstd::prelude::*;
use vstd::slice::slice_to_vec;

verus! {

/// A member's streak record: the active run of consecutive daily updates and
/// the all-time best. Negative `current_streak` values encode consecutive
/// misses, as decided by the directory service.
#[derive(Clone, Copy, Debug, PartialEq, Eq, Structural)]
pub struct Streak {
    pub current_streak: i32,
    pub max_streak: i32,
}

/// The spec-level image of a [`Member`]: the same data over mathematical
/// sequences.
#[verifier::ext_equal]
pub ghost struct MemberModel {
    pub member_id: i32,
    pub name: Seq<char>,
    pub discord_id: Seq<char>,
    pub streak: Seq<Streak>,
}

/// A record of the member directory. The directory returns at most one streak
/// entry per member, but may return none, which is why `streak` is a list.
#[derive(Debug)]
pub struct Member {
    pub member_id: i32,
    pub name: String,
    pub discord_id: String,
    pub streak: Vec<Streak>,
}

impl View for Member {
    type V = MemberModel;

    open spec fn view(&self) -> MemberModel {
        MemberModel {
            member_id: self.member_id,
            name: self.name@,
            discord_id: self.discord_id@,
            streak: self.streak@,
        }
    }
}

impl DeepView for Member {
    type V = MemberModel;

    open spec fn deep_view(&self) -> MemberModel {
        self.view()
    }
}

/// The spec-level image of a sequence of members.
pub open spec fn members_model(s: Seq<Member>) -> Seq<MemberModel> {
    s.map_values(|m: Member| m@)
}

/// An explicit copy of a member, equal to the original member in the model.
pub fn clone_member(m: &Member) -> (r: Member)
    ensures
        r@ == m@,
{
    let r = Member {
        member_id: m.member_id,
        name: m.name.clone(),
        discord_id: m.discord_id.clone(),
        streak: slice_to_vec(m.streak.as_slice()),
    };
    proof {
        assert(r@ =~= m@);
    }
    r
}

} // verus!
