//! The errors of authentication and authorization.
use vstd::prelude::*;
use vstd::string::StringExecFns;

verus! {

/// Everything that can go wrong while authenticating or authorizing.
#[derive(Debug, PartialEq)]
pub enum AuthError {
    /// No user record exists for the given identity.
    UserNotFound,
    /// The provided password does not match the stored hash.
    InvalidPassword,
    /// The email to register already belongs to a user.
    EmailAlreadyRegistered,
    /// The token is missing, malformed, or expired.
    InvalidToken,
    /// The subject lacks the permission asked for on the service.
    AccessDenied {
        /// Identity of the subject that asked for access.
        user: String,
        /// Service that the subject asked to use.
        service: String,
        /// Permission that the subject asked for.
        permission: String,
    },
    /// Hashing a password failed, for the reason given.
    PasswordHashingFailed(String),
    /// The strategy needs a user and the context holds none.
    MissingUser,
    /// The strategy needs claims and the context holds none.
    MissingClaims,
    /// The strategy needs a resource and the context holds none.
    MissingResource,
    /// The name given at construction selects no strategy.
    InvalidStrategy(String),
}

/// An [`AuthError`] with its texts as sequences of characters.
pub enum AuthErrorView {
    UserNotFound,
    InvalidPassword,
    EmailAlreadyRegistered,
    InvalidToken,
    AccessDenied { user: Seq<char>, service: Seq<char>, permission: Seq<char> },
    PasswordHashingFailed(Seq<char>),
    MissingUser,
    MissingClaims,
    MissingResource,
    InvalidStrategy(Seq<char>),
}

impl View for AuthError {
    type V = AuthErrorView;

    open spec fn view(&self) -> AuthErrorView {
        match self {
            AuthError::UserNotFound => AuthErrorView::UserNotFound,
            AuthError::InvalidPassword => AuthErrorView::InvalidPassword,
            AuthError::EmailAlreadyRegistered => AuthErrorView::EmailAlreadyRegistered,
            AuthError::InvalidToken => AuthErrorView::InvalidToken,
            AuthError::AccessDenied { user, service, permission } => AuthErrorView::AccessDenied {
                user: user@,
                service: service@,
                permission: permission@,
            },
            AuthError::PasswordHashingFailed(reason) => AuthErrorView::PasswordHashingFailed(
                reason@,
            ),
            AuthError::MissingUser => AuthErrorView::MissingUser,
            AuthError::MissingClaims => AuthErrorView::MissingClaims,
            AuthError::MissingResource => AuthErrorView::MissingResource,
            AuthError::InvalidStrategy(name) => AuthErrorView::InvalidStrategy(name@),
        }
    }
}

impl AuthErrorView {
    /// The message that describes the error to a reader.
    pub open spec fn message(self) -> Seq<char> {
        match self {
            AuthErrorView::UserNotFound => "User not found"@,
            AuthErrorView::InvalidPassword => "Invalid password"@,
            AuthErrorView::EmailAlreadyRegistered => "Email is already registered"@,
            AuthErrorView::InvalidToken => "Invalid or expired token"@,
            AuthErrorView::AccessDenied { user, service, permission } => {
                "Access denied to user '"@ + user + "' for service '"@ + service
                    + "' with permission '"@ + permission + "'"@
            },
            AuthErrorView::PasswordHashingFailed(reason) => "Password hashing failed: "@ + reason,
            AuthErrorView::MissingUser => "Missing user in context"@,
            AuthErrorView::MissingClaims => "Missing claims in context"@,
            AuthErrorView::MissingResource => "Missing resource in context"@,
            AuthErrorView::InvalidStrategy(name) => "Invalid strategy in context: "@ + name,
        }
    }
}

/// The view of an outcome without a value: `Ok` stays `Ok`, an error is
/// taken by its view.
pub open spec fn outcome_view(res: Result<(), AuthError>) -> Result<(), AuthErrorView> {
    match res {
        Ok(()) => Ok(()),
        Err(e) => Err(e@),
    }
}

impl AuthError {
    /// The message that describes the error to a reader.
    pub fn to_string(&self) -> (text: String)
        ensures
            text@ == self@.message(),
    {
        match self {
            AuthError::UserNotFound => String::from_str("User not found"),
            AuthError::InvalidPassword => String::from_str("Invalid password"),
            AuthError::EmailAlreadyRegistered => String::from_str("Email is already registered"),
            AuthError::InvalidToken => String::from_str("Invalid or expired token"),
            AuthError::AccessDenied { user, service, permission } => {
                let mut text = String::from_str("Access denied to user '");
                text.append(user.as_str());
                text.append("' for service '");
                text.append(service.as_str());
                text.append("' with permission '");
                text.append(permission.as_str());
                text.append("'");
                text
            },
            AuthError::PasswordHashingFailed(reason) => {
                let mut text = String::from_str("Password hashing failed: ");
                text.append(reason.as_str());
                text
            },
            AuthError::MissingUser => String::from_str("Missing user in context"),
            AuthError::MissingClaims => String::from_str("Missing claims in context"),
            AuthError::MissingResource => String::from_str("Missing resource in context"),
            AuthError::InvalidStrategy(name) => {
                let mut text = String::from_str("Invalid strategy in context: ");
                text.append(name.as_str());
                text
            },
        }
    }
}

} // verus!
