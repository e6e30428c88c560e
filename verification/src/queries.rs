//! The query and mutation strings sent to the member directory service.
//! Building them is plain text work and verified; posting them is I/O and
//! stays outside the library.

use vstd::prelude::*;
use vstd::string::StringExecFns;

use crate::decimal::{i32_to_string, spec_int_string};

verus! {

/// The text of the members query.
pub open spec fn spec_members_query() -> Seq<char> {
    "\n        { \n          members {\n            memberId\n            name\n            discordId\n            streak {\n              currentStreak\n              maxStreak\n            }\n        }\n    }"@
}

/// The query that lists every member with identity and streak.
pub fn members_query() -> (r: &'static str)
    ensures
        r@ == spec_members_query(),
{
    "\n        { \n          members {\n            memberId\n            name\n            discordId\n            streak {\n              currentStreak\n              maxStreak\n            }\n        }\n    }"
}

/// The text of the increment mutation for one member.
pub open spec fn spec_increment_mutation(member_id: int) -> Seq<char> {
    "\n        mutation {\n            incrementStreak(input: { memberId: "@ + spec_int_string(
        member_id,
    ) + " }) {\n                currentStreak\n            }\n        }"@
}

/// The mutation that increments one member's streak.
pub fn increment_mutation(member_id: i32) -> (r: String)
    ensures
        r@ == spec_increment_mutation(member_id as int),
{
    let mut s = String::from_str("\n        mutation {\n            incrementStreak(input: { memberId: ");
    let id = i32_to_string(member_id);
    s.append(id.as_str());
    s.append(" }) {\n                currentStreak\n            }\n        }");
    proof {
        assert(s@ =~= spec_increment_mutation(member_id as int));
    }
    s
}

/// The text of the reset mutation for one member.
pub open spec fn spec_reset_mutation(member_id: int) -> Seq<char> {
    "\n        mutation {\n            resetStreak(input: { memberId: "@ + spec_int_string(
        member_id,
    ) + " }) {\n                currentStreak\n                maxStreak\n            }\n        }"@
}

/// The mutation that resets one member's streak.
pub fn reset_mutation(member_id: i32) -> (r: String)
    ensures
        r@ == spec_reset_mutation(member_id as int),
{
    let mut s = String::from_str("\n        mutation {\n            resetStreak(input: { memberId: ");
    let id = i32_to_string(member_id);
    s.append(id.as_str());
    s.append(" }) {\n                currentStreak\n                maxStreak\n            }\n        }");
    proof {
        assert(s@ =~= spec_reset_mutation(member_id as int));
    }
    s
}

} // verus!
