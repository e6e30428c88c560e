use amd::decimal::{i32_to_string, u64_to_string};
use amd::queries::{increment_mutation, members_query, reset_mutation};

#[test]
fn numbers_render_in_decimal() {
    assert_eq!(u64_to_string(0).as_str(), "0");
    assert_eq!(u64_to_string(7).as_str(), "7");
    assert_eq!(u64_to_string(90210).as_str(), "90210");
    assert_eq!(u64_to_string(u64::MAX).as_str(), "18446744073709551615");
    assert_eq!(i32_to_string(0).as_str(), "0");
    assert_eq!(i32_to_string(-1).as_str(), "-1");
    assert_eq!(i32_to_string(i32::MIN).as_str(), "-2147483648");
    assert_eq!(i32_to_string(i32::MAX).as_str(), "2147483647");
}

#[test]
fn members_query_lists_identity_and_streak() {
    let q = members_query();
    assert_eq!(
        q,
        "\n        { \n          members {\n            memberId\n            name\n            discordId\n            streak {\n              currentStreak\n              maxStreak\n            }\n        }\n    }"
    );
}

#[test]
fn increment_mutation_names_the_member() {
    let m = increment_mutation(42);
    let expected = format!(
        "\n        mutation {{\n            incrementStreak(input: {{ memberId: {} }}) {{\n                currentStreak\n            }}\n        }}",
        42
    );
    assert_eq!(m.as_str(), expected.as_str());
}

#[test]
fn reset_mutation_asks_for_both_values() {
    let m = reset_mutation(-3);
    let expected = format!(
        "\n        mutation {{\n            resetStreak(input: {{ memberId: {} }}) {{\n                currentStreak\n                maxStreak\n            }}\n        }}",
        -3
    );
    assert_eq!(m.as_str(), expected.as_str());
}
