use auth_kit::auth::authorizator::{authorize_literally, has_literal_scope, Authorizator};
use auth_kit::auth::{authorize, Authenticator};
use auth_kit::error::AuthError;
use auth_kit::model::{AuthContext, AuthStrategy, Claims, Permission, Resource, Role, User};

fn admin() -> User {
    User {
        email: "admin@example.com".to_string(),
        password_hash: "digest".to_string(),
        role: Role { name: "admin".to_string(), permissions: vec![Permission::Create, Permission::Read] },
        department: "engineering".to_string(),
        clearance_level: 5,
    }
}

fn token(scopes: &[&str]) -> Claims {
    Claims {
        email: "jwtuser@example.com".to_string(),
        service: "admin_service".to_string(),
        scopes: scopes.iter().map(|s| s.to_string()).collect(),
    }
}

fn denied(user: &str, service: &str, permission: &str) -> Result<(), AuthError> {
    Err(AuthError::AccessDenied {
        user: user.to_string(),
        service: service.to_string(),
        permission: permission.to_string(),
    })
}

#[test]
fn authenticator_decides_by_the_strategy_of_the_request() {
    let mut auth = Authenticator::new();
    let rbac = AuthContext { user: Some(admin()), claims: None, resource: None };
    assert_eq!(auth.authorize_with_strategy(&rbac, AuthStrategy::RBAC, "admin_service", "create"), Ok(()));
    assert_eq!(
        auth.authorize_with_strategy(&rbac, AuthStrategy::RBAC, "admin_service", "delete"),
        denied("admin@example.com", "admin_service", "delete")
    );
    let abac = AuthContext {
        user: Some(admin()),
        claims: None,
        resource: Some(Resource { department: "engineering".to_string(), required_level: 3 }),
    };
    assert_eq!(auth.authorize_with_strategy(&abac, AuthStrategy::ABAC, "internal_docs", "read"), Ok(()));
    assert_eq!(
        auth.authorize_with_strategy(&rbac, AuthStrategy::ABAC, "internal_docs", "read"),
        Err(AuthError::MissingResource)
    );
    let jwt = AuthContext {
        user: None,
        claims: Some(token(&["admin_service:create", "admin_service:read"])),
        resource: None,
    };
    assert_eq!(auth.authorize_with_strategy(&jwt, AuthStrategy::SBA, "admin_service", "create"), Ok(()));
    assert_eq!(
        auth.authorize_with_strategy(&jwt, AuthStrategy::SBA, "admin_service", "delete"),
        denied("jwtuser@example.com", "admin_service", "delete")
    );
    assert_eq!(
        auth.authorize_with_strategy(&jwt, AuthStrategy::RBAC, "admin_service", "create"),
        Err(AuthError::MissingUser)
    );
    assert_eq!(
        auth.authorize_with_strategy(&rbac, AuthStrategy::SBA, "admin_service", "create"),
        Err(AuthError::MissingClaims)
    );
}

#[test]
fn a_literal_scope_is_matched_letter_for_letter() {
    let held = token(&["svc:read", "svc:*", "*", "docs.read", "a b:c"]);
    assert!(has_literal_scope(&held, "svc", "read"));
    assert!(has_literal_scope(&held, "svc", "*"));
    assert!(has_literal_scope(&held, "a b", "c"));
    assert!(!has_literal_scope(&held, "svc", "write"));
    assert!(!has_literal_scope(&held, "docs", "read"));
    assert!(!has_literal_scope(&held, "Svc", "read"));
    assert!(!has_literal_scope(&held, "", ""));
    assert!(!has_literal_scope(&token(&[]), "svc", "read"));
    assert!(has_literal_scope(&token(&[":"]), "", ""));
}

#[test]
fn authorizator_keeps_its_strategy() {
    let jwt = AuthContext { user: None, claims: Some(token(&["admin_service:create"])), resource: None };
    let mut sba = match Authorizator::new("sba") {
        Ok(engine) => engine,
        Err(e) => panic!("{:?}", e),
    };
    assert_eq!(sba.authorize_with_strategy(&jwt, "admin_service", "create"), Ok(()));
    assert_eq!(
        sba.authorize_with_strategy(&jwt, "admin_service", "read"),
        denied("jwtuser@example.com", "admin_service", "read")
    );
    assert_eq!(sba.authorize_with_strategy(&jwt, "admin_service", "create"), Ok(()));
    let mut rbac = match Authorizator::new("Rbac") {
        Ok(engine) => engine,
        Err(e) => panic!("{:?}", e),
    };
    assert_eq!(rbac.authorize_with_strategy(&jwt, "admin_service", "create"), Err(AuthError::MissingUser));
    assert_eq!(Authorizator::new("JWT").err(), Some(AuthError::InvalidStrategy("JWT".to_string())));
}

#[test]
fn literal_decisions_agree_with_the_rules() {
    let context = AuthContext {
        user: Some(admin()),
        claims: Some(token(&["x:y"])),
        resource: Some(Resource { department: "engineering".to_string(), required_level: 6 }),
    };
    assert_eq!(authorize_literally(AuthStrategy::RBAC, &context, "s", "READ"), Ok(()));
    assert_eq!(
        authorize_literally(AuthStrategy::ABAC, &context, "s", "read"),
        denied("admin@example.com", "s", "read")
    );
    assert_eq!(authorize_literally(AuthStrategy::SBA, &context, "x", "y"), Ok(()));
    assert_eq!(
        authorize_literally(AuthStrategy::SBA, &context, "x", "z"),
        denied("jwtuser@example.com", "x", "z")
    );
    let empty = AuthContext { user: None, claims: None, resource: None };
    assert_eq!(authorize_literally(AuthStrategy::ABAC, &empty, "", ""), Err(AuthError::MissingUser));
}

#[test]
fn authorize_follows_the_check() {
    let subject = admin();
    assert_eq!(authorize(&subject, "svc", "read", |_, _, _| true), Ok(()));
    assert_eq!(
        authorize(&subject, "svc", "read", |_, _, _| false),
        denied("admin@example.com", "svc", "read")
    );
    assert_eq!(
        authorize(&subject, "svc", "read", |u: &User, _, p| u.role.permissions.iter().any(|q| q.as_str() == p)),
        Ok(())
    );
}

#[test]
fn authenticator_registers_and_logs_in() {
    let mut auth = Authenticator::new();
    assert_eq!(auth.login("admin@example.com").err(), Some(AuthError::UserNotFound));
    assert_eq!(auth.register("admin@example.com", "hash-1"), Ok(()));
    assert_eq!(auth.register("admin@example.com", "hash-2"), Err(AuthError::EmailAlreadyRegistered));
    let user = auth.login("admin@example.com").unwrap().unwrap();
    assert_eq!(user.email, "admin@example.com");
    assert_eq!(user.password_hash, "hash-1");
    assert_eq!(user.role.name, "");
    assert!(user.role.permissions.is_empty());
    assert_eq!(user.department, "");
    assert_eq!(user.clearance_level, 0);
    assert_eq!(
        auth.reset_password("admin@example.com", "t", "hash-3", |t| t == "other"),
        Err(AuthError::InvalidToken)
    );
    assert_eq!(auth.login("admin@example.com").unwrap().unwrap().password_hash, "hash-1");
    assert_eq!(auth.reset_password("admin@example.com", "t", "hash-3", |t| t == "t"), Ok(()));
    assert_eq!(auth.login("admin@example.com").unwrap().unwrap().password_hash, "hash-3");
    assert_eq!(
        auth.reset_password("nobody@example.com", "t", "hash-3", |_| true),
        Err(AuthError::UserNotFound)
    );
}
