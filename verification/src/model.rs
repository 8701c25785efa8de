//! The data that a decision is made on: subjects, roles, permissions,
//! claims, resources, the context that bundles them, and the strategy.
use crate::error::{AuthError, AuthErrorView};
use crate::text::{strings_of, to_uppercase, uppercase};
use vstd::prelude::*;
use vstd::string::StringExecFns;

verus! {

/// The policy by which a decision is made.
#[derive(Debug, Clone, Copy, PartialEq, Eq, Structural)]
pub enum AuthStrategy {
    /// Attribute-based access control.
    ABAC,
    /// Role-based access control.
    RBAC,
    /// Scope-based authorization.
    SBA,
}

/// An outcome of parsing a strategy name, the error taken by its view.
pub open spec fn strategy_view(res: Result<AuthStrategy, AuthError>) -> Result<
    AuthStrategy,
    AuthErrorView,
> {
    match res {
        Ok(strategy) => Ok(strategy),
        Err(e) => Err(e@),
    }
}

impl AuthStrategy {
    /// The strategy that an upper-cased name selects; where it selects
    /// none, the error carries the name as it was given.
    pub open spec fn named(upper: Seq<char>, given: Seq<char>) -> Result<
        AuthStrategy,
        AuthErrorView,
    > {
        if upper == "ABAC"@ {
            Ok(AuthStrategy::ABAC)
        } else if upper == "RBAC"@ {
            Ok(AuthStrategy::RBAC)
        } else if upper == "SBA"@ {
            Ok(AuthStrategy::SBA)
        } else {
            Err(AuthErrorView::InvalidStrategy(given))
        }
    }

    /// Selects the strategy for a name that is already in upper case.
    /// `given` is the name before it was upper-cased, for the error.
    pub fn from_uppercase(upper: &str, given: &str) -> (res: Result<Self, AuthError>)
        ensures
            strategy_view(res) == Self::named(upper@, given@),
    {
        if crate::text::str_eq(upper, "ABAC") {
            Ok(AuthStrategy::ABAC)
        } else if crate::text::str_eq(upper, "RBAC") {
            Ok(AuthStrategy::RBAC)
        } else if crate::text::str_eq(upper, "SBA") {
            Ok(AuthStrategy::SBA)
        } else {
            Err(AuthError::InvalidStrategy(String::from_str(given)))
        }
    }

    /// Parses a strategy name without regard to case: the name is put in
    /// upper case and must then read `ABAC`, `RBAC` or `SBA`.
    pub fn from_str(strategy: &str) -> (res: Result<Self, AuthError>)
        ensures
            strategy_view(res) == Self::named(uppercase(strategy@), strategy@),
    {
        let upper = to_uppercase(strategy);
        Self::from_uppercase(upper.as_str(), strategy)
    }
}

/// Two names with the same upper-case form select the same strategy, or
/// both select none.
pub proof fn lemma_strategy_ignores_case(a: Seq<char>, b: Seq<char>)
    ensures
        uppercase(a) == uppercase(b) ==> (AuthStrategy::named(uppercase(a), a) is Ok
            <==> AuthStrategy::named(uppercase(b), b) is Ok),
        uppercase(a) == uppercase(b) && AuthStrategy::named(uppercase(a), a) is Ok
            ==> AuthStrategy::named(uppercase(a), a) == AuthStrategy::named(uppercase(b), b),
{
}

/// A name that selects no strategy is handed back in the error, letter for
/// letter.
pub proof fn lemma_unknown_strategy_is_reported(name: Seq<char>)
    ensures
        AuthStrategy::named(uppercase(name), name) is Err ==> AuthStrategy::named(
            uppercase(name),
            name,
        ) == Err::<AuthStrategy, AuthErrorView>(AuthErrorView::InvalidStrategy(name)),
{
}

/// An action that a role may grant.
#[derive(Debug, Clone, Copy, PartialEq, Eq, Structural)]
pub enum Permission {
    /// Create permission.
    Create,
    /// Read permission.
    Read,
    /// Update permission.
    Update,
    /// Delete permission.
    Delete,
}

impl Permission {
    /// The textual form of the permission.
    pub open spec fn text(self) -> Seq<char> {
        match self {
            Permission::Create => "create"@,
            Permission::Read => "read"@,
            Permission::Update => "update"@,
            Permission::Delete => "delete"@,
        }
    }

    /// The textual form of the permission.
    pub fn as_str(&self) -> (s: &'static str)
        ensures
            s@ == self.text(),
    {
        match self {
            Permission::Create => "create",
            Permission::Read => "read",
            Permission::Update => "update",
            Permission::Delete => "delete",
        }
    }

    /// The textual form of the permission, as an owned string.
    pub fn to_string(&self) -> (s: String)
        ensures
            s@ == self.text(),
    {
        String::from_str(self.as_str())
    }
}

/// A role: a name and the permissions it grants.
#[derive(Debug)]
pub struct Role {
    /// Name of the role (e.g. "admin", "editor").
    pub name: String,
    /// The permissions granted to this role.
    pub permissions: Vec<Permission>,
}

/// A [`Role`] as plain values.
pub struct RoleView {
    pub name: Seq<char>,
    pub permissions: Seq<Permission>,
}

impl View for Role {
    type V = RoleView;

    open spec fn view(&self) -> RoleView {
        RoleView { name: self.name@, permissions: self.permissions@ }
    }
}

impl Clone for Role {
    fn clone(&self) -> (copy: Self)
        ensures
            copy@ == self@,
    {
        Role { name: self.name.clone(), permissions: self.permissions.clone() }
    }
}

/// A user of the system.
#[derive(Debug)]
pub struct User {
    /// The user's email address, which is also the user's identity.
    pub email: String,
    /// Digest of the password; never read when deciding on access.
    pub password_hash: String,
    /// The one role assigned to the user.
    pub role: Role,
    /// Department to which the user belongs.
    pub department: String,
    /// Clearance level of the user.
    pub clearance_level: u8,
}

/// A [`User`] as plain values.
pub struct UserView {
    pub email: Seq<char>,
    pub password_hash: Seq<char>,
    pub role: RoleView,
    pub department: Seq<char>,
    pub clearance_level: u8,
}

impl View for User {
    type V = UserView;

    open spec fn view(&self) -> UserView {
        UserView {
            email: self.email@,
            password_hash: self.password_hash@,
            role: self.role@,
            department: self.department@,
            clearance_level: self.clearance_level,
        }
    }
}

impl Clone for User {
    fn clone(&self) -> (copy: Self)
        ensures
            copy@ == self@,
    {
        User {
            email: self.email.clone(),
            password_hash: self.password_hash.clone(),
            role: self.role.clone(),
            department: self.department.clone(),
            clearance_level: self.clearance_level,
        }
    }
}

/// Claims as they come out of a decoded token.
#[derive(Debug)]
pub struct Claims {
    /// Email address associated with the token.
    pub email: String,
    /// Service name the token is scoped for.
    pub service: String,
    /// The scope strings that the token grants.
    pub scopes: Vec<String>,
}

/// [`Claims`] as plain values.
pub struct ClaimsView {
    pub email: Seq<char>,
    pub service: Seq<char>,
    pub scopes: Seq<Seq<char>>,
}

impl View for Claims {
    type V = ClaimsView;

    open spec fn view(&self) -> ClaimsView {
        ClaimsView {
            email: self.email@,
            service: self.service@,
            scopes: strings_of(self.scopes@),
        }
    }
}

impl Clone for Claims {
    fn clone(&self) -> (copy: Self)
        ensures
            copy@ == self@,
    {
        Claims {
            email: self.email.clone(),
            service: self.service.clone(),
            scopes: self.scopes.clone(),
        }
    }
}

/// A resource under access control.
#[derive(Debug)]
pub struct Resource {
    /// Department the resource belongs to.
    pub department: String,
    /// Clearance level that a user needs to access the resource.
    pub required_level: u8,
}

/// A [`Resource`] as plain values.
pub struct ResourceView {
    pub department: Seq<char>,
    pub required_level: u8,
}

impl View for Resource {
    type V = ResourceView;

    open spec fn view(&self) -> ResourceView {
        ResourceView { department: self.department@, required_level: self.required_level }
    }
}

impl Clone for Resource {
    fn clone(&self) -> (copy: Self)
        ensures
            copy@ == self@,
    {
        Resource { department: self.department.clone(), required_level: self.required_level }
    }
}

/// What a decision is made on. The context is wider than any one strategy
/// needs: each strategy says which of the three it requires.
pub struct AuthContext {
    /// The authenticated user, if any.
    pub user: Option<User>,
    /// The claims taken from a token, if any.
    pub claims: Option<Claims>,
    /// The resource being accessed, if any.
    pub resource: Option<Resource>,
}

/// An [`AuthContext`] as plain values.
pub struct AuthContextView {
    pub user: Option<UserView>,
    pub claims: Option<ClaimsView>,
    pub resource: Option<ResourceView>,
}

impl View for AuthContext {
    type V = AuthContextView;

    open spec fn view(&self) -> AuthContextView {
        AuthContextView {
            user: match self.user {
                Some(u) => Some(u@),
                None => None,
            },
            claims: match self.claims {
                Some(c) => Some(c@),
                None => None,
            },
            resource: match self.resource {
                Some(r) => Some(r@),
                None => None,
            },
        }
    }
}

/// Anything that can be named in an audit trail or in an error.
pub trait Identifiable {
    /// The identity, as a sequence of characters.
    spec fn identity_text(&self) -> Seq<char>;

    /// Returns the identity (e.g. an email address).
    fn identity(&self) -> (id: String)
        ensures
            id@ == self.identity_text(),
    ;
}

impl Identifiable for User {
    open spec fn identity_text(&self) -> Seq<char> {
        self.email@
    }

    fn identity(&self) -> (id: String) {
        self.email.clone()
    }
}

impl Identifiable for Claims {
    open spec fn identity_text(&self) -> Seq<char> {
        self.email@
    }

    fn identity(&self) -> (id: String) {
        self.email.clone()
    }
}

} // verus!
