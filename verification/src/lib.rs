//! Authentication and authorization with a choice of strategies.
//!
//! - [`auth::auth_z`] decides whether a subject may use a permission on a
//!   service: by attributes (ABAC), by roles (RBAC) or by scopes (SBA).
//! - [`auth::scope`] matches the scope tokens that a subject holds against
//!   the token that a request requires, with wildcards and a choice of
//!   delimiters.
//! - [`auth::auth_n`] keeps users in memory: registration, login and
//!   password reset.
//! - [`auth::authorizator`] and [`auth::Authenticator`] decide with literal
//!   scopes.
//! - [`model`] and [`error`] hold the data and the errors, [`text`] the
//!   work on characters.
//!
//! The functions are verified with Verus. What each one returns is stated
//! in its contract over the views of its arguments, and the rules that
//! hold between them are proved as lemmas beside them.

pub mod auth;
pub mod error;
pub mod model;
pub mod text;
