//! Authentication: an in-memory store of users, keyed by email, with
//! registration, login and password reset.
use crate::error::{outcome_view, AuthError, AuthErrorView};
use crate::model::{Role, RoleView, User, UserView};
use vstd::hash_map::StringHashMap;
use vstd::prelude::*;
use vstd::string::StringExecFns;

verus! {

/// The users of a store as plain values, by the key they are stored under.
pub open spec fn accounts_of(users: Map<Seq<char>, User>) -> Map<Seq<char>, UserView> {
    users.map_values(|u: User| u@)
}

/// The user that registration creates: the email and the password digest
/// as given, a role without name or permissions, no department, and
/// clearance 0.
pub open spec fn fresh_user(email: Seq<char>, password_hash: Seq<char>) -> UserView {
    UserView {
        email,
        password_hash,
        role: RoleView { name: Seq::empty(), permissions: Seq::empty() },
        department: Seq::empty(),
        clearance_level: 0,
    }
}

/// The user with another password digest and nothing else changed.
pub open spec fn with_password(user: UserView, password_hash: Seq<char>) -> UserView {
    UserView { password_hash, ..user }
}

/// What registration answers: an email can be registered once.
pub open spec fn register_result(accounts: Map<Seq<char>, UserView>, email: Seq<char>) -> Result<
    (),
    AuthErrorView,
> {
    if accounts.contains_key(email) {
        Err(AuthErrorView::EmailAlreadyRegistered)
    } else {
        Ok(())
    }
}

/// The accounts after registration: a fresh user under a new email, and no
/// change where the email was taken.
pub open spec fn register_accounts(
    accounts: Map<Seq<char>, UserView>,
    email: Seq<char>,
    password_hash: Seq<char>,
) -> Map<Seq<char>, UserView> {
    if accounts.contains_key(email) {
        accounts
    } else {
        accounts.insert(email, fresh_user(email, password_hash))
    }
}

/// What a password reset answers. An unknown email is reported before the
/// token is looked at.
pub open spec fn reset_result(
    accounts: Map<Seq<char>, UserView>,
    email: Seq<char>,
    token_valid: bool,
) -> Result<(), AuthErrorView> {
    if !accounts.contains_key(email) {
        Err(AuthErrorView::UserNotFound)
    } else if !token_valid {
        Err(AuthErrorView::InvalidToken)
    } else {
        Ok(())
    }
}

/// The accounts after a password reset: the digest of a known user is
/// replaced where the token was valid, and nothing changes otherwise.
pub open spec fn reset_accounts(
    accounts: Map<Seq<char>, UserView>,
    email: Seq<char>,
    new_password_hash: Seq<char>,
    token_valid: bool,
) -> Map<Seq<char>, UserView> {
    if accounts.contains_key(email) && token_valid {
        accounts.insert(email, with_password(accounts[email], new_password_hash))
    } else {
        accounts
    }
}

/// Every user is stored under the user's own email.
pub open spec fn keyed_by_email(accounts: Map<Seq<char>, UserView>) -> bool {
    forall|email: Seq<char>| #[trigger]
        accounts.contains_key(email) ==> accounts[email].email == email
}

/// Adds a fresh user to `users` unless the email is taken.
pub(crate) fn register_in(users: &mut StringHashMap<User>, email: &str, password_hash: &str) -> (res:
    Result<(), AuthError>)
    ensures
        outcome_view(res) == register_result(accounts_of(old(users)@), email@),
        accounts_of(final(users)@) == register_accounts(
            accounts_of(old(users)@),
            email@,
            password_hash@,
        ),
{
    if users.contains_key(email) {
        return Err(AuthError::EmailAlreadyRegistered);
    }
    let user = User {
        email: String::from_str(email),
        password_hash: String::from_str(password_hash),
        role: Role { name: String::new(), permissions: Vec::new() },
        department: String::new(),
        clearance_level: 0,
    };
    users.insert(String::from_str(email), user);
    Ok(())
}

/// Looks a user up in `users` and hands out a copy.
pub(crate) fn login_in(users: &StringHashMap<User>, email: &str) -> (res: Result<
    Option<User>,
    AuthError,
>)
    ensures
        match res {
            Ok(Some(user)) => accounts_of(users@).contains_key(email@) && user@ == accounts_of(
                users@,
            )[email@],
            Ok(None) => false,
            Err(e) => !accounts_of(users@).contains_key(email@) && e@
                == AuthErrorView::UserNotFound,
        },
{
    match users.get(email) {
        Some(user) => Ok(Some(user.clone())),
        None => Err(AuthError::UserNotFound),
    }
}

/// Replaces the password digest of a user in `users`, given whether the
/// reset token was found valid.
pub(crate) fn reset_in(
    users: &mut StringHashMap<User>,
    email: &str,
    new_password_hash: &str,
    token_valid: bool,
) -> (res: Result<(), AuthError>)
    ensures
        outcome_view(res) == reset_result(accounts_of(old(users)@), email@, token_valid),
        accounts_of(final(users)@) == reset_accounts(
            accounts_of(old(users)@),
            email@,
            new_password_hash@,
            token_valid,
        ),
{
    let updated = match users.get(email) {
        Some(user) => {
            if !token_valid {
                return Err(AuthError::InvalidToken);
            }
            User {
                email: user.email.clone(),
                password_hash: String::from_str(new_password_hash),
                role: user.role.clone(),
                department: user.department.clone(),
                clearance_level: user.clearance_level,
            }
        },
        None => {
            return Err(AuthError::UserNotFound);
        },
    };
    users.insert(String::from_str(email), updated);
    Ok(())
}

/// A basic in-memory authentication service.
pub struct Authentication {
    /// The users, each under the user's email.
    pub users: StringHashMap<User>,
}

impl Authentication {
    /// The users as plain values, by email.
    pub open spec fn accounts(&self) -> Map<Seq<char>, UserView> {
        accounts_of(self.users@)
    }

    /// Creates a service without users.
    pub fn new() -> (auth: Self)
        ensures
            auth.accounts() == Map::<Seq<char>, UserView>::empty(),
    {
        Authentication { users: StringHashMap::new() }
    }

    /// Registers a new user by email and password digest.
    ///
    /// Fails with `EmailAlreadyRegistered`, and changes nothing, where a
    /// user is registered under the email.
    pub fn register(&mut self, email: &str, password_hash: &str) -> (res: Result<(), AuthError>)
        ensures
            outcome_view(res) == register_result(old(self).accounts(), email@),
            final(self).accounts() == register_accounts(
                old(self).accounts(),
                email@,
                password_hash@,
            ),
    {
        register_in(&mut self.users, email, password_hash)
    }

    /// Looks up a user by email and returns a copy of the user.
    ///
    /// Fails with `UserNotFound` where no user is registered under the
    /// email; `Ok(None)` is never returned.
    pub fn login(&self, email: &str) -> (res: Result<Option<User>, AuthError>)
        ensures
            match res {
                Ok(Some(user)) => self.accounts().contains_key(email@) && user@
                    == self.accounts()[email@],
                Ok(None) => false,
                Err(e) => !self.accounts().contains_key(email@) && e@
                    == AuthErrorView::UserNotFound,
            },
    {
        login_in(&self.users, email)
    }

    /// Replaces the password digest of a user, given whether the reset
    /// token was found valid.
    ///
    /// Fails with `UserNotFound` for an unknown email, whatever the token,
    /// and with `InvalidToken` where the token was not valid; either way
    /// nothing changes.
    pub fn reset_password_checked(
        &mut self,
        email: &str,
        new_password_hash: &str,
        token_valid: bool,
    ) -> (res: Result<(), AuthError>)
        ensures
            outcome_view(res) == reset_result(old(self).accounts(), email@, token_valid),
            final(self).accounts() == reset_accounts(
                old(self).accounts(),
                email@,
                new_password_hash@,
                token_valid,
            ),
    {
        reset_in(&mut self.users, email, new_password_hash, token_valid)
    }

    /// Resets a user's password after `verify_token` has accepted the
    /// token.
    ///
    /// `verify_token` is called once, on `token`, and only for a known
    /// email. The reset succeeds exactly where the email is known and
    /// `verify_token` answered `true`; the outcome is then that of
    /// [`Authentication::reset_password_checked`] on that answer.
    pub fn reset_password<F>(
        &mut self,
        email: &str,
        token: &str,
        new_password_hash: &str,
        verify_token: F,
    ) -> (res: Result<(), AuthError>) where F: Fn(&str) -> bool
        requires
            old(self).accounts().contains_key(email@) ==> verify_token.requires((token,)),
        ensures
            old(self).accounts().contains_key(email@) ==> verify_token.ensures((token,), res is Ok),
            outcome_view(res) == reset_result(old(self).accounts(), email@, res is Ok),
            final(self).accounts() == reset_accounts(
                old(self).accounts(),
                email@,
                new_password_hash@,
                res is Ok,
            ),
    {
        if !self.users.contains_key(email) {
            return Err(AuthError::UserNotFound);
        }
        let token_valid = verify_token(token);
        self.reset_password_checked(email, new_password_hash, token_valid)
    }
}

/// Registration and password reset keep every user under the user's own
/// email.
pub proof fn lemma_store_stays_keyed_by_email(
    accounts: Map<Seq<char>, UserView>,
    email: Seq<char>,
    password_hash: Seq<char>,
    token_valid: bool,
)
    requires
        keyed_by_email(accounts),
    ensures
        keyed_by_email(register_accounts(accounts, email, password_hash)),
        keyed_by_email(reset_accounts(accounts, email, password_hash, token_valid)),
{
}

/// A user that was registered with success is the user that a login with
/// the same email hands out, and no other user has changed.
pub proof fn lemma_registered_user_is_found(
    accounts: Map<Seq<char>, UserView>,
    email: Seq<char>,
    password_hash: Seq<char>,
)
    requires
        register_result(accounts, email) is Ok,
    ensures
        register_accounts(accounts, email, password_hash).contains_key(email),
        register_accounts(accounts, email, password_hash)[email] == fresh_user(email, password_hash),
        forall|other: Seq<char>|
            other != email ==> (#[trigger] register_accounts(
                accounts,
                email,
                password_hash,
            ).contains_key(other) <==> accounts.contains_key(other)),
        forall|other: Seq<char>|
            other != email && accounts.contains_key(other) ==> #[trigger] register_accounts(
                accounts,
                email,
                password_hash,
            )[other] == accounts[other],
{
}

/// A password reset changes the digest of one user at most: the same
/// emails are registered after it as before, every other user is as before,
/// and so is the user of the reset but for the digest.
pub proof fn lemma_reset_changes_one_digest(
    accounts: Map<Seq<char>, UserView>,
    email: Seq<char>,
    new_password_hash: Seq<char>,
    token_valid: bool,
)
    ensures
        reset_accounts(accounts, email, new_password_hash, token_valid).dom() == accounts.dom(),
        forall|other: Seq<char>|
            other != email && accounts.contains_key(other) ==> #[trigger] reset_accounts(
                accounts,
                email,
                new_password_hash,
                token_valid,
            )[other] == accounts[other],
        accounts.contains_key(email) ==> reset_accounts(
            accounts,
            email,
            new_password_hash,
            token_valid,
        )[email] == with_password(
            accounts[email],
            if token_valid {
                new_password_hash
            } else {
                accounts[email].password_hash
            },
        ),
{
}

} // verus!
