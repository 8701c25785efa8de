//! Authorization by one of three strategies: attributes, roles or scopes.
//!
//! [`decision`] states, as a function of its inputs alone, what
//! [`Authorization::authorize`] returns; the rules of the three strategies
//! are [`attributes_allow`], [`role_allows`] and [`scopes_allow`].
use crate::auth::scope::{
    authorize_with_matcher, lemma_token_matches_itself, scope_grants, wildcard, FlexibleMatcher,
    ScopeMatcher,
};
use crate::error::{outcome_view, AuthError, AuthErrorView};
use crate::model::{
    AuthContext, AuthContextView, AuthStrategy, Claims, ClaimsView, Identifiable, Resource,
    ResourceView, Role, RoleView, User, UserView,
};
use crate::text::{
    eq_ignore_ascii_case, eq_ignoring_ascii_case, is_word, join, join_strings,
    lemma_words_of_joined, words,
};
use vstd::prelude::*;
use vstd::string::StringExecFns;

verus! {

/// A role allows a permission when it holds one whose textual form is the
/// requested text, up to the case of ASCII letters.
pub open spec fn role_allows(role: RoleView, permission: Seq<char>) -> bool {
    exists|i: int|
        0 <= i < role.permissions.len() && eq_ignoring_ascii_case(
            (#[trigger] role.permissions[i]).text(),
            permission,
        )
}

/// The attributes of a user allow access to a resource when both are of
/// the same department and the user's clearance is at least the level that
/// the resource requires.
pub open spec fn attributes_allow(user: UserView, resource: ResourceView) -> bool {
    user.department == resource.department && user.clearance_level >= resource.required_level
}

/// The delimiter of required tokens where the caller names none.
pub open spec fn default_delimiter() -> Seq<char> {
    seq!['.']
}

/// The separator between the scopes of a claim when they are laid out as
/// one scope string.
pub open spec fn scope_separator() -> Seq<char> {
    seq![' ']
}

/// The most specific required token: service, department and permission.
pub open spec fn department_token(
    service: Seq<char>,
    department: Seq<char>,
    permission: Seq<char>,
    delimiter: Seq<char>,
) -> Seq<char> {
    service + delimiter + department + delimiter + permission
}

/// The required token of service and permission.
pub open spec fn service_token(service: Seq<char>, permission: Seq<char>, delimiter: Seq<char>) -> Seq<
    char,
> {
    service + delimiter + permission
}

/// The scopes of a claim allow a permission on a service when one of them
/// matches one of three required tokens: that of service, department and
/// permission, that of service and permission, or the permission alone.
/// Without a resource the department is the wildcard; without a delimiter
/// it is [`default_delimiter`].
pub open spec fn scopes_allow(
    claims: ClaimsView,
    resource: Option<ResourceView>,
    service: Seq<char>,
    permission: Seq<char>,
    delimiter: Option<Seq<char>>,
) -> bool {
    let department = match resource {
        Some(r) => r.department,
        None => wildcard(),
    };
    let d = match delimiter {
        Some(d) => d,
        None => default_delimiter(),
    };
    let granted = join(claims.scopes, scope_separator());
    ||| scope_grants::<FlexibleMatcher>(granted, department_token(service, department, permission, d))
    ||| scope_grants::<FlexibleMatcher>(granted, service_token(service, permission, d))
    ||| scope_grants::<FlexibleMatcher>(granted, permission)
}

/// Allow, or a denial that names the subject and what was asked for.
pub open spec fn verdict(
    allowed: bool,
    identity: Seq<char>,
    service: Seq<char>,
    permission: Seq<char>,
) -> Result<(), AuthErrorView> {
    if allowed {
        Ok(())
    } else {
        Err(AuthErrorView::AccessDenied { user: identity, service, permission })
    }
}

/// The decision of a strategy on a context.
///
/// Each strategy first asks for the fields that it needs, the user before
/// the resource, and reports the first one that is missing. Then its rule
/// decides.
pub open spec fn decision(
    strategy: AuthStrategy,
    context: AuthContextView,
    service: Seq<char>,
    permission: Seq<char>,
    delimiter: Option<Seq<char>>,
) -> Result<(), AuthErrorView> {
    match strategy {
        AuthStrategy::ABAC => match context.user {
            None => Err(AuthErrorView::MissingUser),
            Some(user) => match context.resource {
                None => Err(AuthErrorView::MissingResource),
                Some(resource) => verdict(
                    attributes_allow(user, resource),
                    user.email,
                    service,
                    permission,
                ),
            },
        },
        AuthStrategy::RBAC => match context.user {
            None => Err(AuthErrorView::MissingUser),
            Some(user) => verdict(role_allows(user.role, permission), user.email, service, permission),
        },
        AuthStrategy::SBA => match context.claims {
            None => Err(AuthErrorView::MissingClaims),
            Some(claims) => verdict(
                scopes_allow(claims, context.resource, service, permission, delimiter),
                claims.email,
                service,
                permission,
            ),
        },
    }
}

/// The text of an optional string slice.
pub open spec fn text_of(s: Option<&str>) -> Option<Seq<char>> {
    match s {
        Some(s) => Some(s@),
        None => None,
    }
}

/// The view of an optional resource.
pub open spec fn resource_view(resource: Option<&Resource>) -> Option<ResourceView> {
    match resource {
        Some(r) => Some(r@),
        None => None,
    }
}

/// Whether the role holds the permission asked for.
pub fn role_grants(role: &Role, permission: &str) -> (allowed: bool)
    ensures
        allowed == role_allows(role@, permission@),
{
    let mut i: usize = 0;
    while i < role.permissions.len()
        invariant
            i <= role.permissions.len(),
            forall|j: int|
                0 <= j < i ==> !eq_ignoring_ascii_case(
                    (#[trigger] role.permissions@[j]).text(),
                    permission@,
                ),
        decreases role.permissions.len() - i,
    {
        if eq_ignore_ascii_case(role.permissions[i].as_str(), permission) {
            assert(eq_ignoring_ascii_case(role@.permissions[i as int].text(), permission@));
            return true;
        }
        i += 1;
    }
    false
}

/// Whether the user's attributes meet what the resource requires.
pub fn attributes_grant(user: &User, resource: &Resource) -> (allowed: bool)
    ensures
        allowed == attributes_allow(user@, resource@),
{
    user.department == resource.department && user.clearance_level >= resource.required_level
}

/// Whether the scopes of the claims cover the permission on the service.
pub fn scopes_grant(
    claims: &Claims,
    resource: Option<&Resource>,
    service: &str,
    permission: &str,
    delimiter: Option<&str>,
) -> (allowed: bool)
    ensures
        allowed == scopes_allow(
            claims@,
            resource_view(resource),
            service@,
            permission@,
            text_of(delimiter),
        ),
{
    let department: &str = match resource {
        Some(r) => r.department.as_str(),
        None => "*",
    };
    let d: &str = match delimiter {
        Some(d) => d,
        None => ".",
    };
    proof {
        reveal_strlit("*");
        reveal_strlit(".");
        reveal_strlit(" ");
        assert("*"@ =~= wildcard());
        assert("."@ =~= default_delimiter());
        assert(" "@ =~= scope_separator());
    }
    let mut by_department = String::from_str(service);
    by_department.append(d);
    by_department.append(department);
    by_department.append(d);
    by_department.append(permission);
    let mut by_service = String::from_str(service);
    by_service.append(d);
    by_service.append(permission);
    let scopes = join_strings(&claims.scopes, " ");
    authorize_with_matcher::<FlexibleMatcher>(scopes.as_str(), by_department.as_str())
        || authorize_with_matcher::<FlexibleMatcher>(scopes.as_str(), by_service.as_str())
        || authorize_with_matcher::<FlexibleMatcher>(scopes.as_str(), permission)
}

/// Turns the outcome of a permission check into a decision: `Ok` where
/// the check passed, else a denial that names the subject, the service and
/// the permission.
pub fn grant_or_deny<U: Identifiable>(user: &U, service: &str, permission: &str, allowed: bool) -> (res:
    Result<(), AuthError>)
    ensures
        outcome_view(res) == verdict(allowed, user.identity_text(), service@, permission@),
{
    if allowed {
        Ok(())
    } else {
        Err(
            AuthError::AccessDenied {
                user: user.identity(),
                service: String::from_str(service),
                permission: String::from_str(permission),
            },
        )
    }
}

/// Decides by a permission check of the caller's own.
///
/// The check is called once, on the subject, the service and the
/// permission. Access is granted where it returns `true`; where it returns
/// `false`, the denial names the three.
pub fn gen_authorize<U, F>(user: &U, service: &str, permission: &str, check_permission: F) -> (res:
    Result<(), AuthError>) where F: Fn(&U, &str, &str) -> bool, U: Identifiable
    requires
        check_permission.requires((user, service, permission)),
    ensures
        check_permission.ensures((user, service, permission), res is Ok),
        outcome_view(res) == verdict(res is Ok, user.identity_text(), service@, permission@),
{
    let allowed = check_permission(user, service, permission);
    grant_or_deny(user, service, permission, allowed)
}

/// The authorization engine: a strategy, chosen once, that decides on
/// every request.
pub struct Authorization {
    strategy: AuthStrategy,
}

/// An outcome of constructing an engine, as the strategy chosen or the
/// view of the error.
pub open spec fn engine_view(res: Result<Authorization, AuthError>) -> Result<
    AuthStrategy,
    AuthErrorView,
> {
    match res {
        Ok(engine) => Ok(engine.strategy()),
        Err(e) => Err(e@),
    }
}

impl Authorization {
    /// The strategy that the engine decides by.
    pub closed spec fn strategy(&self) -> AuthStrategy {
        self.strategy
    }

    /// Creates an engine for the strategy named, without regard to case:
    /// `"ABAC"`, `"RBAC"` or `"SBA"`. Any other name is refused with
    /// `InvalidStrategy`, which carries the name.
    pub fn new(strategy: &str) -> (res: Result<Self, AuthError>)
        ensures
            engine_view(res) == AuthStrategy::named(crate::text::uppercase(strategy@), strategy@),
    {
        match AuthStrategy::from_str(strategy) {
            Ok(strategy) => Ok(Authorization { strategy }),
            Err(e) => Err(e),
        }
    }

    /// Decides whether the context may use `permission` on `service`.
    ///
    /// - ABAC compares the user's department and clearance with what the
    ///   resource requires.
    /// - RBAC asks whether the user's role holds the permission.
    /// - SBA matches the scopes of the claims against the tokens that the
    ///   request requires, built with `delimiter` (`"."` if `None`).
    ///
    /// The engine is left as it was.
    pub fn authorize(
        &mut self,
        context: &AuthContext,
        service: &str,
        permission: &str,
        delimiter: Option<&str>,
    ) -> (res: Result<(), AuthError>)
        ensures
            *final(self) == *old(self),
            outcome_view(res) == decision(
                old(self).strategy(),
                context@,
                service@,
                permission@,
                text_of(delimiter),
            ),
    {
        match self.strategy {
            AuthStrategy::ABAC => {
                let user = match &context.user {
                    Some(user) => user,
                    None => {
                        return Err(AuthError::MissingUser);
                    },
                };
                let resource = match &context.resource {
                    Some(resource) => resource,
                    None => {
                        return Err(AuthError::MissingResource);
                    },
                };
                let check = |u: &User, _s: &str, _p: &str| -> (allowed: bool)
                    ensures
                        allowed == attributes_allow(u@, resource@),
                    {
                        attributes_grant(u, resource)
                    };
                gen_authorize(user, service, permission, check)
            },
            AuthStrategy::RBAC => {
                let user = match &context.user {
                    Some(user) => user,
                    None => {
                        return Err(AuthError::MissingUser);
                    },
                };
                let check = |u: &User, _s: &str, p: &str| -> (allowed: bool)
                    ensures
                        allowed == role_allows(u@.role, p@),
                    {
                        role_grants(&u.role, p)
                    };
                gen_authorize(user, service, permission, check)
            },
            AuthStrategy::SBA => {
                let claims = match &context.claims {
                    Some(claims) => claims,
                    None => {
                        return Err(AuthError::MissingClaims);
                    },
                };
                let resource = context.resource.as_ref();
                let check = |c: &Claims, s: &str, p: &str| -> (allowed: bool)
                    ensures
                        allowed == scopes_allow(
                            c@,
                            resource_view(resource),
                            s@,
                            p@,
                            text_of(delimiter),
                        ),
                    {
                        scopes_grant(c, resource, s, p, delimiter)
                    };
                gen_authorize(claims, service, permission, check)
            },
        }
    }
}

/// Under RBAC a user whose role holds a permission is allowed that
/// permission, on every service.
pub proof fn lemma_role_holder_is_allowed(
    context: AuthContextView,
    held: crate::model::Permission,
    service: Seq<char>,
    delimiter: Option<Seq<char>>,
)
    requires
        context.user is Some,
        context.user->0.role.permissions.contains(held),
    ensures
        decision(AuthStrategy::RBAC, context, service, held.text(), delimiter) == Ok::<
            (),
            AuthErrorView,
        >(()),
{
    let role = context.user->0.role;
    let i = choose|i: int| 0 <= i < role.permissions.len() && role.permissions[i] == held;
    assert(eq_ignoring_ascii_case(role.permissions[i].text(), held.text()));
}

/// Under ABAC a user is allowed a resource exactly when both are of the
/// same department and the user's clearance is at least the level
/// required: a clearance equal to it passes, one below it does not.
pub proof fn lemma_attribute_rule(
    context: AuthContextView,
    service: Seq<char>,
    permission: Seq<char>,
    delimiter: Option<Seq<char>>,
)
    requires
        context.user is Some,
        context.resource is Some,
    ensures
        decision(AuthStrategy::ABAC, context, service, permission, delimiter) is Ok <==> (
        context.user->0.department == context.resource->0.department
            && context.user->0.clearance_level >= context.resource->0.required_level),
{
}

/// A strategy reports the field that it needs and does not find, before
/// any rule is looked at: ABAC the user, then the resource; RBAC the
/// user; SBA the claims.
pub proof fn lemma_missing_fields(
    context: AuthContextView,
    service: Seq<char>,
    permission: Seq<char>,
    delimiter: Option<Seq<char>>,
)
    ensures
        context.user is Some && context.resource is None ==> decision(
            AuthStrategy::ABAC,
            context,
            service,
            permission,
            delimiter,
        ) == Err::<(), AuthErrorView>(AuthErrorView::MissingResource),
        context.user is None ==> decision(
            AuthStrategy::ABAC,
            context,
            service,
            permission,
            delimiter,
        ) == Err::<(), AuthErrorView>(AuthErrorView::MissingUser),
        context.user is None ==> decision(
            AuthStrategy::RBAC,
            context,
            service,
            permission,
            delimiter,
        ) == Err::<(), AuthErrorView>(AuthErrorView::MissingUser),
        context.claims is None ==> decision(
            AuthStrategy::SBA,
            context,
            service,
            permission,
            delimiter,
        ) == Err::<(), AuthErrorView>(AuthErrorView::MissingClaims),
{
}

/// RBAC and ABAC do not consult the service, nor the delimiter, and ABAC
/// does not consult the permission either: whether access is granted stays
/// the same when they change.
pub proof fn lemma_service_is_not_consulted(
    context: AuthContextView,
    service: Seq<char>,
    other_service: Seq<char>,
    permission: Seq<char>,
    other_permission: Seq<char>,
    delimiter: Option<Seq<char>>,
    other_delimiter: Option<Seq<char>>,
)
    ensures
        decision(AuthStrategy::RBAC, context, service, permission, delimiter) is Ok <==> decision(
            AuthStrategy::RBAC,
            context,
            other_service,
            permission,
            other_delimiter,
        ) is Ok,
        decision(AuthStrategy::ABAC, context, service, permission, delimiter) is Ok <==> decision(
            AuthStrategy::ABAC,
            context,
            other_service,
            other_permission,
            other_delimiter,
        ) is Ok,
{
}

/// Who holds nothing is allowed nothing: a role without permissions and
/// claims without scopes are denied every request, and the denial names
/// the subject, the service and the permission.
pub proof fn lemma_nothing_held_nothing_allowed(
    context: AuthContextView,
    service: Seq<char>,
    permission: Seq<char>,
    delimiter: Option<Seq<char>>,
)
    ensures
        context.user is Some && context.user->0.role.permissions.len() == 0 ==> decision(
            AuthStrategy::RBAC,
            context,
            service,
            permission,
            delimiter,
        ) == Err::<(), AuthErrorView>(
            AuthErrorView::AccessDenied { user: context.user->0.email, service, permission },
        ),
        context.claims is Some && context.claims->0.scopes.len() == 0 ==> decision(
            AuthStrategy::SBA,
            context,
            service,
            permission,
            delimiter,
        ) == Err::<(), AuthErrorView>(
            AuthErrorView::AccessDenied { user: context.claims->0.email, service, permission },
        ),
{
    if context.claims is Some && context.claims->0.scopes.len() == 0 {
        assert(words(join(context.claims->0.scopes, scope_separator())).len() == 0);
    }
}

/// A request that is made twice is answered twice alike. `first` and
/// `second` are what [`Authorization::authorize`] may return, by its
/// contract, for two calls in a row on the same request; `between` and
/// `after` are the engine after each call.
pub proof fn lemma_decisions_repeat(
    engine: Authorization,
    between: Authorization,
    after: Authorization,
    first: Result<(), AuthErrorView>,
    second: Result<(), AuthErrorView>,
    context: AuthContextView,
    service: Seq<char>,
    permission: Seq<char>,
    delimiter: Option<Seq<char>>,
)
    requires
        between == engine,
        first == decision(engine.strategy(), context, service, permission, delimiter),
        after == between,
        second == decision(between.strategy(), context, service, permission, delimiter),
    ensures
        first == second,
        after == engine,
{
}

/// Under SBA, claims that hold the scope of service and permission are
/// allowed, whatever the resource: the token of service, department and
/// permission need not match. The scopes are words, so that each is one
/// token of the scope string.
pub proof fn lemma_service_scope_suffices(
    context: AuthContextView,
    service: Seq<char>,
    permission: Seq<char>,
    delimiter: Option<Seq<char>>,
)
    requires
        context.claims is Some,
        forall|i: int|
            0 <= i < context.claims->0.scopes.len() ==> is_word(
                #[trigger] context.claims->0.scopes[i],
            ),
        context.claims->0.scopes.contains(
            service_token(
                service,
                permission,
                match delimiter {
                    Some(d) => d,
                    None => default_delimiter(),
                },
            ),
        ),
    ensures
        decision(AuthStrategy::SBA, context, service, permission, delimiter) == Ok::<
            (),
            AuthErrorView,
        >(()),
{
    let scopes = context.claims->0.scopes;
    let d = match delimiter {
        Some(d) => d,
        None => default_delimiter(),
    };
    let required = service_token(service, permission, d);
    lemma_words_of_joined(scopes);
    let i = choose|i: int| 0 <= i < scopes.len() && scopes[i] == required;
    lemma_token_matches_itself(required);
    assert(FlexibleMatcher::matches_spec(words(join(scopes, scope_separator()))[i], required));
}

} // verus!
