//! Scope tokens, and how a token that was granted is matched against the
//! token that an action requires.
use crate::text::{
    chars_of, is_whitespace, is_whitespace_char, lemma_split_without_delimiter, same_chars, split,
    split_chars, strs_of, texts_of, words,
};
use vstd::prelude::*;
use vstd::string::StrSliceExecFns;

verus! {

/// Decides whether a token that a subject holds satisfies a required one.
///
/// An implementation names its decision in `matches_spec`, as a function of
/// the two texts, and `matches` computes it.
pub trait ScopeMatcher {
    /// The decision, over the characters of the two tokens.
    spec fn matches_spec(user_token: Seq<char>, required_token: Seq<char>) -> bool;

    /// Returns `true` if `user_token` is considered to match `required_token`.
    fn matches(user_token: &str, required_token: &str) -> (matched: bool)
        ensures
            matched == Self::matches_spec(user_token@, required_token@),
    ;
}

/// The part that stands for any part of a required token.
pub open spec fn wildcard() -> Seq<char> {
    seq!['*']
}

/// A part of a granted token covers a part of a required token when it is
/// the wildcard or the same text. A wildcard on the required side has no
/// such meaning.
pub open spec fn part_covers(granted: Seq<char>, required: Seq<char>) -> bool {
    granted == wildcard() || granted == required
}

/// Two tokens can be compared part by part when they have the same number
/// of parts, and at least two.
pub open spec fn comparable(granted: Seq<Seq<char>>, required: Seq<Seq<char>>) -> bool {
    granted.len() == required.len() && granted.len() >= 2
}

/// Every part of the granted token covers the part of the required token
/// in the same position.
pub open spec fn parts_cover(granted: Seq<Seq<char>>, required: Seq<Seq<char>>) -> bool {
    forall|i: int| 0 <= i < granted.len() ==> #[trigger] part_covers(granted[i], required[i])
}

/// The delimiter `d` applies to a pair of tokens when splitting both at `d`
/// leaves them comparable.
pub open spec fn delimiter_applies(user_token: Seq<char>, required_token: Seq<char>, d: char) -> bool {
    comparable(split(user_token, d), split(required_token, d))
}

/// The tokens match part by part when both are split at `d`.
pub open spec fn structural_match(user_token: Seq<char>, required_token: Seq<char>, d: char) -> bool {
    parts_cover(split(user_token, d), split(required_token, d))
}

/// Without a delimiter, a token matches when it is the required token
/// itself or the wildcard alone.
pub open spec fn fallback_match(user_token: Seq<char>, required_token: Seq<char>) -> bool {
    user_token == required_token || user_token == wildcard()
}

/// The decision of [`FlexibleMatcher`].
///
/// The delimiters `:`, `.`, `@` and `/` are tried in this order. The first
/// one that applies decides, by a comparison part by part, and no later
/// delimiter is tried. Where none applies, the fallback decides.
pub open spec fn flexible_match(user_token: Seq<char>, required_token: Seq<char>) -> bool {
    if delimiter_applies(user_token, required_token, ':') {
        structural_match(user_token, required_token, ':')
    } else if delimiter_applies(user_token, required_token, '.') {
        structural_match(user_token, required_token, '.')
    } else if delimiter_applies(user_token, required_token, '@') {
        structural_match(user_token, required_token, '@')
    } else if delimiter_applies(user_token, required_token, '/') {
        structural_match(user_token, required_token, '/')
    } else {
        fallback_match(user_token, required_token)
    }
}

/// A matcher for tokens of two or more parts, such as `read:users` or
/// `user_service:user:read`, with `*` as a wildcard for a whole part and
/// `:`, `.`, `@` or `/` as the delimiter. Both tokens must use the same
/// delimiter to match.
pub struct FlexibleMatcher;

/// Whether the text is the wildcard alone.
pub fn is_wildcard(part: &Vec<char>) -> (r: bool)
    ensures
        r == (part@ == wildcard()),
{
    let r = part.len() == 1 && part[0] == '*';
    assert(r ==> part@ =~= wildcard());
    r
}

/// Compares two tokens under the delimiter `d`: `None` where `d` does not
/// apply to them, else whether they match part by part.
pub fn match_on(user_token: &Vec<char>, required_token: &Vec<char>, d: char) -> (res: Option<bool>)
    ensures
        res == if delimiter_applies(user_token@, required_token@, d) {
            Some(structural_match(user_token@, required_token@, d))
        } else {
            None
        },
{
    let granted = split_chars(user_token, d);
    let required = split_chars(required_token, d);
    if granted.len() != required.len() || granted.len() < 2 {
        return None;
    }
    let mut i: usize = 0;
    while i < granted.len()
        invariant
            texts_of(granted@) == split(user_token@, d),
            texts_of(required@) == split(required_token@, d),
            granted.len() == required.len(),
            granted.len() >= 2,
            i <= granted.len(),
            forall|j: int|
                0 <= j < i ==> #[trigger] part_covers(
                    texts_of(granted@)[j],
                    texts_of(required@)[j],
                ),
        decreases granted.len() - i,
    {
        if !is_wildcard(&granted[i]) && !same_chars(&granted[i], &required[i]) {
            assert(!part_covers(texts_of(granted@)[i as int], texts_of(required@)[i as int]));
            return Some(false);
        }
        i += 1;
    }
    Some(true)
}

impl ScopeMatcher for FlexibleMatcher {
    open spec fn matches_spec(user_token: Seq<char>, required_token: Seq<char>) -> bool {
        flexible_match(user_token, required_token)
    }

    fn matches(user_token: &str, required_token: &str) -> (matched: bool) {
        let user = chars_of(user_token);
        let required = chars_of(required_token);
        if let Some(m) = match_on(&user, &required, ':') {
            return m;
        }
        if let Some(m) = match_on(&user, &required, '.') {
            return m;
        }
        if let Some(m) = match_on(&user, &required, '@') {
            return m;
        }
        if let Some(m) = match_on(&user, &required, '/') {
            return m;
        }
        same_chars(&user, &required) || is_wildcard(&user)
    }
}

/// Parses a scope string into its tokens, which are separated by any
/// amount of whitespace.
pub fn parse_scope_string<'a>(scope_str: &'a str) -> (tokens: Vec<&'a str>)
    ensures
        strs_of(tokens@) == words(scope_str@),
{
    let chars = chars_of(scope_str);
    let mut tokens: Vec<&'a str> = Vec::new();
    let mut start: usize = 0;
    let mut in_word = false;
    let mut i: usize = 0;
    while i < chars.len()
        invariant
            chars@ == scope_str@,
            i <= chars.len(),
            in_word ==> start < i,
            in_word <==> (i > 0 && !is_whitespace(chars@[i - 1])),
            words(chars@.take(i as int)) == if in_word {
                strs_of(tokens@).push(chars@.subrange(start as int, i as int))
            } else {
                strs_of(tokens@)
            },
        decreases chars.len() - i,
    {
        let c = chars[i];
        assert(chars@.take(i + 1).drop_last() == chars@.take(i as int));
        if is_whitespace_char(c) {
            if in_word {
                let token = scope_str.substring_char(start, i);
                tokens.push(token);
                in_word = false;
            }
        } else {
            if in_word {
                assert(chars@.subrange(start as int, i as int).push(c) == chars@.subrange(
                    start as int,
                    i + 1,
                ));
            } else {
                start = i;
                in_word = true;
                assert(chars@.subrange(i as int, i + 1) == seq![c]);
            }
        }
        i += 1;
    }
    assert(chars@.take(chars.len() as int) == chars@);
    if in_word {
        let token = scope_str.substring_char(start, chars.len());
        tokens.push(token);
    }
    tokens
}

/// A scope string grants a required token when one of its tokens matches
/// it by the matcher `M`.
pub open spec fn scope_grants<M: ScopeMatcher>(
    user_scope_str: Seq<char>,
    required_token: Seq<char>,
) -> bool {
    exists|i: int|
        0 <= i < words(user_scope_str).len() && M::matches_spec(
            #[trigger] words(user_scope_str)[i],
            required_token,
        )
}

/// Checks whether any token of a whitespace-separated scope string matches
/// the required token by the matcher `M`.
pub fn authorize_with_matcher<M: ScopeMatcher>(user_scope_str: &str, required_token: &str) -> (authorized:
    bool)
    ensures
        authorized == scope_grants::<M>(user_scope_str@, required_token@),
{
    let tokens = parse_scope_string(user_scope_str);
    let mut i: usize = 0;
    while i < tokens.len()
        invariant
            strs_of(tokens@) == words(user_scope_str@),
            i <= tokens.len(),
            forall|j: int|
                0 <= j < i ==> !M::matches_spec(#[trigger] words(user_scope_str@)[j], required_token@),
        decreases tokens.len() - i,
    {
        assert(strs_of(tokens@)[i as int] == tokens@[i as int]@);
        if M::matches(tokens[i], required_token) {
            return true;
        }
        i += 1;
    }
    false
}

/// A token matches itself.
pub proof fn lemma_token_matches_itself(token: Seq<char>)
    ensures
        flexible_match(token, token),
{
}

/// The wildcard alone matches every required token.
pub proof fn lemma_wildcard_matches_all(required_token: Seq<char>)
    ensures
        flexible_match(wildcard(), required_token),
{
    lemma_undelimited_token(wildcard(), required_token);
}

/// Where no delimiter applies to a pair of tokens, they match only if they
/// are the same text or the user's token is the wildcard alone.
pub proof fn lemma_without_common_delimiter(user_token: Seq<char>, required_token: Seq<char>)
    requires
        !delimiter_applies(user_token, required_token, ':'),
        !delimiter_applies(user_token, required_token, '.'),
        !delimiter_applies(user_token, required_token, '@'),
        !delimiter_applies(user_token, required_token, '/'),
    ensures
        flexible_match(user_token, required_token) <==> user_token == required_token || user_token
            == wildcard(),
{
}

/// A user's token in which none of the four delimiters occurs matches only
/// as the same text or as the wildcard alone.
pub proof fn lemma_undelimited_token(user_token: Seq<char>, required_token: Seq<char>)
    requires
        !user_token.contains(':'),
        !user_token.contains('.'),
        !user_token.contains('@'),
        !user_token.contains('/'),
    ensures
        flexible_match(user_token, required_token) == fallback_match(user_token, required_token),
{
    lemma_split_without_delimiter(user_token, ':');
    lemma_split_without_delimiter(user_token, '.');
    lemma_split_without_delimiter(user_token, '@');
    lemma_split_without_delimiter(user_token, '/');
}

/// Tokens that differ in their number of parts under every delimiter match
/// only if the user's token is the wildcard alone.
pub proof fn lemma_arity_mismatch(user_token: Seq<char>, required_token: Seq<char>)
    requires
        split(user_token, ':').len() != split(required_token, ':').len(),
        split(user_token, '.').len() != split(required_token, '.').len(),
        split(user_token, '@').len() != split(required_token, '@').len(),
        split(user_token, '/').len() != split(required_token, '/').len(),
    ensures
        flexible_match(user_token, required_token) <==> user_token == wildcard(),
{
}

/// Under the first delimiter that applies, a wildcard in the required
/// token is a text like any other: only the same text or a wildcard of the
/// user's token covers it.
pub proof fn lemma_required_wildcard_is_literal(
    user_token: Seq<char>,
    required_token: Seq<char>,
    i: int,
)
    requires
        delimiter_applies(user_token, required_token, ':'),
        0 <= i < split(user_token, ':').len(),
        split(required_token, ':')[i] == wildcard(),
        split(user_token, ':')[i] != wildcard(),
    ensures
        !flexible_match(user_token, required_token),
{
    assert(!part_covers(split(user_token, ':')[i], split(required_token, ':')[i]));
}

/// What a scope string grants does not depend on the order of its tokens,
/// nor on how often one occurs.
pub proof fn lemma_scope_order_is_irrelevant<M: ScopeMatcher>(
    first: Seq<char>,
    second: Seq<char>,
    required_token: Seq<char>,
)
    requires
        words(first).to_set() == words(second).to_set(),
    ensures
        scope_grants::<M>(first, required_token) == scope_grants::<M>(second, required_token),
{
    lemma_grants_by_membership::<M>(first, second, required_token);
    lemma_grants_by_membership::<M>(second, first, required_token);
}

/// A scope string that holds every token of another grants what the other
/// grants.
pub proof fn lemma_grants_by_membership<M: ScopeMatcher>(
    smaller: Seq<char>,
    larger: Seq<char>,
    required_token: Seq<char>,
)
    requires
        words(smaller).to_set().subset_of(words(larger).to_set()),
    ensures
        scope_grants::<M>(smaller, required_token) ==> scope_grants::<M>(larger, required_token),
{
    if scope_grants::<M>(smaller, required_token) {
        let i = choose|i: int|
            0 <= i < words(smaller).len() && M::matches_spec(
                #[trigger] words(smaller)[i],
                required_token,
            );
        let token = words(smaller)[i];
        assert(words(smaller).to_set().contains(token)) by {
            assert(words(smaller).contains(token));
        }
        let j = choose|j: int| 0 <= j < words(larger).len() && words(larger)[j] == token;
        assert(M::matches_spec(words(larger)[j], required_token));
    }
}

} // verus!
