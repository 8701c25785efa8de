//! Authentication and authorization.
//!
//! [`Authenticator`] is both in one value: a store of users and decisions
//! with literal scopes. The submodules offer each on its own.
use crate::auth::auth_n::{
    accounts_of, login_in, register_accounts, register_in, register_result, reset_accounts,
    reset_in, reset_result,
};
use crate::auth::auth_z::{grant_or_deny, verdict};
use crate::auth::authorizator::{authorize_literally, literal_decision};
use crate::error::{outcome_view, AuthError, AuthErrorView};
use crate::model::UserView;
pub use crate::model::{
    AuthContext, AuthStrategy, Claims, Identifiable, Permission, Resource, Role, User,
};
use vstd::hash_map::StringHashMap;
use vstd::prelude::*;

/// Registration, login and password reset.
pub mod auth_n;

/// Authorization by attributes, roles or scopes.
pub mod auth_z;

/// Authorization with literal scopes.
pub mod authorizator;

/// Scope tokens and their matching.
pub mod scope;

verus! {

/// Decides by a permission check of the caller's own.
///
/// The check is called once, on the subject, the service and the
/// permission. Access is granted where it returns `true`; where it returns
/// `false`, the denial names the three.
pub fn authorize<U, F>(user: &U, service: &str, permission: &str, check_permission: F) -> (res:
    Result<(), AuthError>) where F: Fn(&U, &str, &str) -> bool, U: Identifiable
    requires
        check_permission.requires((user, service, permission)),
    ensures
        check_permission.ensures((user, service, permission), res is Ok),
        outcome_view(res) == verdict(res is Ok, user.identity_text(), service@, permission@),
{
    let allowed = check_permission(user, service, permission);
    grant_or_deny(user, service, permission, allowed)
}

/// An in-memory store of users that also decides on access, by a strategy
/// named with each request.
pub struct Authenticator {
    /// The users, each under the user's email.
    pub users: StringHashMap<User>,
}

impl Authenticator {
    /// The users as plain values, by email.
    pub open spec fn accounts(&self) -> Map<Seq<char>, UserView> {
        accounts_of(self.users@)
    }

    /// Creates an authenticator without users.
    pub fn new() -> (auth: Self)
        ensures
            auth.accounts() == Map::<Seq<char>, UserView>::empty(),
    {
        Authenticator { users: StringHashMap::new() }
    }

    /// Registers a new user by email and password digest.
    ///
    /// Fails with `EmailAlreadyRegistered`, and changes nothing, where a
    /// user is registered under the email.
    pub fn register(&mut self, email: &str, password_hash: &str) -> (res: Result<(), AuthError>)
        ensures
            outcome_view(res) == register_result(old(self).accounts(), email@),
            final(self).accounts() == register_accounts(
                old(self).accounts(),
                email@,
                password_hash@,
            ),
    {
        register_in(&mut self.users, email, password_hash)
    }

    /// Looks up a user by email and returns a copy of the user.
    ///
    /// Fails with `UserNotFound` where no user is registered under the
    /// email; `Ok(None)` is never returned.
    pub fn login(&self, email: &str) -> (res: Result<Option<User>, AuthError>)
        ensures
            match res {
                Ok(Some(user)) => self.accounts().contains_key(email@) && user@
                    == self.accounts()[email@],
                Ok(None) => false,
                Err(e) => !self.accounts().contains_key(email@) && e@
                    == AuthErrorView::UserNotFound,
            },
    {
        login_in(&self.users, email)
    }

    /// Resets a user's password after `verify_token` has accepted the
    /// token.
    ///
    /// `verify_token` is called once, on `token`, and only for a known
    /// email. The reset succeeds exactly where the email is known and
    /// `verify_token` answered `true`. It fails with `UserNotFound` for an
    /// unknown email and with `InvalidToken` for a refused token, and then
    /// changes nothing.
    pub fn reset_password<F>(
        &mut self,
        email: &str,
        token: &str,
        new_password_hash: &str,
        verify_token: F,
    ) -> (res: Result<(), AuthError>) where F: Fn(&str) -> bool
        requires
            old(self).accounts().contains_key(email@) ==> verify_token.requires((token,)),
        ensures
            old(self).accounts().contains_key(email@) ==> verify_token.ensures((token,), res is Ok),
            outcome_view(res) == reset_result(old(self).accounts(), email@, res is Ok),
            final(self).accounts() == reset_accounts(
                old(self).accounts(),
                email@,
                new_password_hash@,
                res is Ok,
            ),
    {
        if !self.users.contains_key(email) {
            return Err(AuthError::UserNotFound);
        }
        let token_valid = verify_token(token);
        reset_in(&mut self.users, email, new_password_hash, token_valid)
    }

    /// Decides by `strategy` whether the context may use `permission` on
    /// `service`, with literal scopes. The users are not consulted and
    /// stay as they are.
    pub fn authorize_with_strategy(
        &mut self,
        context: &AuthContext,
        strategy: AuthStrategy,
        service: &str,
        permission: &str,
    ) -> (res: Result<(), AuthError>)
        ensures
            final(self).users == old(self).users,
            outcome_view(res) == literal_decision(strategy, context@, service@, permission@),
    {
        authorize_literally(strategy, context, service, permission)
    }
}

} // verus!
