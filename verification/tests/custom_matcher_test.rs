use auth_kit::auth::scope::{authorize_with_matcher, ScopeMatcher};

/// Matches a required token that starts with the user's token.
struct Prefix;

impl ScopeMatcher for Prefix {
    // The ghost half of the trait: it is erased before the code runs.
    fn matches_spec(_user_token: vstd::seq::Seq<char>, _required_token: vstd::seq::Seq<char>) -> bool {
        unreachable!()
    }

    fn matches(user_token: &str, required_token: &str) -> bool {
        required_token.starts_with(user_token)
    }
}

#[test]
fn a_matcher_of_the_callers_own_is_asked_for_every_token() {
    assert!(authorize_with_matcher::<Prefix>("wri rea", "read:users"));
    assert!(!authorize_with_matcher::<Prefix>("wri del", "read:users"));
}
