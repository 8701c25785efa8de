//! Authorization with literal scopes: the scope-based strategy grants a
//! permission on a service only to claims that hold the scope
//! `service:permission`, letter for letter. The other two strategies decide
//! as they do in [`crate::auth::auth_z`].
use crate::auth::auth_z::{
    attributes_allow, attributes_grant, decision, lemma_service_scope_suffices, role_allows,
    role_grants, service_token, verdict,
};
pub use crate::auth::authorize;
use crate::error::{outcome_view, AuthError, AuthErrorView};
use crate::model::{AuthContext, AuthContextView, AuthStrategy, Claims, ClaimsView, User};
use crate::text::{is_word, str_eq};
use vstd::prelude::*;
use vstd::string::StringExecFns;

verus! {

/// The scope that grants `permission` on `service`.
pub open spec fn literal_scope(service: Seq<char>, permission: Seq<char>) -> Seq<char> {
    service + seq![':'] + permission
}

/// The claims hold the literal scope for the permission on the service.
pub open spec fn holds_scope(claims: ClaimsView, service: Seq<char>, permission: Seq<char>) -> bool {
    claims.scopes.contains(literal_scope(service, permission))
}

/// The decision of a strategy on a context, with literal scopes.
///
/// Each strategy first asks for the fields that it needs, the user before
/// the resource, and reports the first one that is missing. Then its rule
/// decides.
pub open spec fn literal_decision(
    strategy: AuthStrategy,
    context: AuthContextView,
    service: Seq<char>,
    permission: Seq<char>,
) -> Result<(), AuthErrorView> {
    match strategy {
        AuthStrategy::RBAC => match context.user {
            None => Err(AuthErrorView::MissingUser),
            Some(user) => verdict(role_allows(user.role, permission), user.email, service, permission),
        },
        AuthStrategy::SBA => match context.claims {
            None => Err(AuthErrorView::MissingClaims),
            Some(claims) => verdict(
                holds_scope(claims, service, permission),
                claims.email,
                service,
                permission,
            ),
        },
        AuthStrategy::ABAC => match context.user {
            None => Err(AuthErrorView::MissingUser),
            Some(user) => match context.resource {
                None => Err(AuthErrorView::MissingResource),
                Some(resource) => verdict(
                    attributes_allow(user, resource),
                    user.email,
                    service,
                    permission,
                ),
            },
        },
    }
}

/// Whether the claims hold the scope `service:permission`.
pub fn has_literal_scope(claims: &Claims, service: &str, permission: &str) -> (held: bool)
    ensures
        held == holds_scope(claims@, service@, permission@),
{
    let mut scope = String::from_str(service);
    scope.append(":");
    scope.append(permission);
    proof {
        reveal_strlit(":");
    }
    let mut i: usize = 0;
    while i < claims.scopes.len()
        invariant
            i <= claims.scopes.len(),
            scope@ == literal_scope(service@, permission@),
            forall|j: int| 0 <= j < i ==> #[trigger] claims@.scopes[j] != scope@,
        decreases claims.scopes.len() - i,
    {
        assert(claims@.scopes[i as int] == claims.scopes@[i as int]@);
        if str_eq(claims.scopes[i].as_str(), scope.as_str()) {
            return true;
        }
        i += 1;
    }
    false
}

/// Decides by `strategy` on the context, with literal scopes.
pub fn authorize_literally(
    strategy: AuthStrategy,
    context: &AuthContext,
    service: &str,
    permission: &str,
) -> (res: Result<(), AuthError>)
    ensures
        outcome_view(res) == literal_decision(strategy, context@, service@, permission@),
{
    match strategy {
        AuthStrategy::RBAC => {
            let user = match &context.user {
                Some(user) => user,
                None => {
                    return Err(AuthError::MissingUser);
                },
            };
            let check = |u: &User, _s: &str, p: &str| -> (allowed: bool)
                ensures
                    allowed == role_allows(u@.role, p@),
                {
                    role_grants(&u.role, p)
                };
            authorize(user, service, permission, check)
        },
        AuthStrategy::SBA => {
            let claims = match &context.claims {
                Some(claims) => claims,
                None => {
                    return Err(AuthError::MissingClaims);
                },
            };
            let check = |c: &Claims, s: &str, p: &str| -> (allowed: bool)
                ensures
                    allowed == holds_scope(c@, s@, p@),
                {
                    has_literal_scope(c, s, p)
                };
            authorize(claims, service, permission, check)
        },
        AuthStrategy::ABAC => {
            let user = match &context.user {
                Some(user) => user,
                None => {
                    return Err(AuthError::MissingUser);
                },
            };
            let resource = match &context.resource {
                Some(resource) => resource,
                None => {
                    return Err(AuthError::MissingResource);
                },
            };
            let check = |u: &User, _s: &str, _p: &str| -> (allowed: bool)
                ensures
                    allowed == attributes_allow(u@, resource@),
                {
                    attributes_grant(u, resource)
                };
            authorize(user, service, permission, check)
        },
    }
}

/// An engine that decides with literal scopes by a strategy chosen once.
pub struct Authorizator {
    strategy: AuthStrategy,
}

/// An outcome of constructing an engine, as the strategy chosen or the
/// view of the error.
pub open spec fn authorizator_view(res: Result<Authorizator, AuthError>) -> Result<
    AuthStrategy,
    AuthErrorView,
> {
    match res {
        Ok(engine) => Ok(engine.strategy()),
        Err(e) => Err(e@),
    }
}

impl Authorizator {
    /// The strategy that the engine decides by.
    pub closed spec fn strategy(&self) -> AuthStrategy {
        self.strategy
    }

    /// Creates an engine for the strategy named, without regard to case:
    /// `"ABAC"`, `"RBAC"` or `"SBA"`. Any other name is refused with
    /// `InvalidStrategy`, which carries the name.
    pub fn new(strategy: &str) -> (res: Result<Self, AuthError>)
        ensures
            authorizator_view(res) == AuthStrategy::named(
                crate::text::uppercase(strategy@),
                strategy@,
            ),
    {
        match AuthStrategy::from_str(strategy) {
            Ok(strategy) => Ok(Authorizator { strategy }),
            Err(e) => Err(e),
        }
    }

    /// Decides whether the context may use `permission` on `service`, and
    /// leaves the engine as it was.
    pub fn authorize_with_strategy(&mut self, context: &AuthContext, service: &str, permission: &str) -> (res:
        Result<(), AuthError>)
        ensures
            *final(self) == *old(self),
            outcome_view(res) == literal_decision(
                old(self).strategy(),
                context@,
                service@,
                permission@,
            ),
    {
        authorize_literally(self.strategy, context, service, permission)
    }
}

/// Under ABAC and RBAC a decision with literal scopes is the decision of
/// [`crate::auth::auth_z::decision`], whatever the delimiter.
pub proof fn lemma_literal_scopes_matter_to_sba_alone(
    strategy: AuthStrategy,
    context: AuthContextView,
    service: Seq<char>,
    permission: Seq<char>,
    delimiter: Option<Seq<char>>,
)
    requires
        strategy != AuthStrategy::SBA,
    ensures
        literal_decision(strategy, context, service, permission) == decision(
            strategy,
            context,
            service,
            permission,
            delimiter,
        ),
{
}

/// What a literal scope allows, matching with `:` as the delimiter allows
/// too, for claims whose scopes are words.
pub proof fn lemma_literal_scope_is_matched(
    strategy: AuthStrategy,
    context: AuthContextView,
    service: Seq<char>,
    permission: Seq<char>,
)
    requires
        context.claims is Some ==> forall|i: int|
            0 <= i < context.claims->0.scopes.len() ==> is_word(
                #[trigger] context.claims->0.scopes[i],
            ),
        literal_decision(strategy, context, service, permission) is Ok,
    ensures
        decision(strategy, context, service, permission, Some(seq![':'])) is Ok,
{
    if strategy == AuthStrategy::SBA {
        assert(literal_scope(service, permission) == service_token(service, permission, seq![':']));
        lemma_service_scope_suffices(context, service, permission, Some(seq![':']));
    }
}

} // verus!
