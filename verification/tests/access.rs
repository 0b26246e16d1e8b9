use multiview_control::auth::{
    authorize_object, authorize_output, authorize_scope, principal_from_config,
    provision_admin_keys, provision_with, register_config_api_keys, scope_permits, Action,
    ApiKeyConfig, ApiKeyRole, ApiKeyStore, AuthzScope, AuthzScopes, Principal, Role,
};
use multiview_control::error::ControlError;

fn principal(role: Role) -> Principal {
    Principal {
        key_id: "k1".to_owned(),
        role,
        scoped_object_ids: None,
        scoped_output_ids: None,
        scoped_discovery_domains: None,
    }
}

#[test]
fn operator_supplied_secret_authenticates_and_is_not_surfaced() {
    let (store, bootstrap) = provision_admin_keys(Some("s3cret".to_owned()));
    // Nothing to log back: the operator already holds the secret.
    assert!(bootstrap.is_none());
    // The presented bearer token is `admin.<secret>` and authenticates as Admin.
    let principal = store.verify("admin.s3cret").expect("admin token verifies");
    assert_eq!(principal.role, Role::Admin);
    assert_eq!(principal.key_id, "admin");
    // A wrong secret is rejected.
    assert!(store.verify("admin.wrong").is_err());
}

#[test]
fn config_key_maps_role_and_all_three_scope_axes() {
    let key = ApiKeyConfig::new("site-a-op", "ENV_A", ApiKeyRole::Operator)
        .with_scoped_object_ids(vec!["cam-3".to_owned()])
        .with_scoped_output_ids(vec!["out-1".to_owned(), "program:main".to_owned()])
        .with_scoped_discovery_domains(vec!["site-a".to_owned()]);
    let principal = principal_from_config(&key);
    assert_eq!(principal.key_id, "site-a-op");
    assert_eq!(principal.role, Role::Operator);
    assert_eq!(principal.scoped_object_ids.as_deref(), Some(&["cam-3".to_owned()][..]));
    assert_eq!(
        principal.scoped_output_ids.as_deref(),
        Some(&["out-1".to_owned(), "program:main".to_owned()][..])
    );
    assert_eq!(principal.scoped_discovery_domains.as_deref(), Some(&["site-a".to_owned()][..]));
}

#[test]
fn register_config_api_keys_registers_and_authenticates() {
    let mut store = ApiKeyStore::new(b"pepper".to_vec());
    let keys = vec![ApiKeyConfig::new("k1", "ENV_K1", ApiKeyRole::Viewer)];
    register_config_api_keys(&mut store, &keys, |name: &str| {
        if name == "ENV_K1" {
            Some("the-secret".to_owned())
        } else {
            None
        }
    })
    .expect("registration succeeds when the secret env is present");
    let principal = store.verify("k1.the-secret").expect("the registered key authenticates");
    assert_eq!(principal.role, Role::Viewer);
}

#[test]
fn register_config_api_keys_errors_on_missing_secret() {
    let mut store = ApiKeyStore::new(b"pepper".to_vec());
    let keys = vec![ApiKeyConfig::new("k1", "ENV_MISSING", ApiKeyRole::Operator)];
    // A scoped key whose secret env is unset is a hard startup error, never a
    // silent no-op (an un-authenticatable key is a latent misconfiguration).
    let err = register_config_api_keys(&mut store, &keys, |_: &str| None)
        .expect_err("a missing secret env is a startup error");
    assert!(err.contains("ENV_MISSING"), "the error names the missing env var: {err}");
}

#[test]
fn generated_bootstrap_token_is_returned_and_authenticates() {
    let (store, bootstrap) = provision_admin_keys(None);
    // A full bearer token is surfaced for first access.
    let token = bootstrap.expect("a bootstrap token is generated when none supplied");
    assert!(
        token.starts_with("admin."),
        "the bootstrap token is the full `admin.<secret>` bearer value"
    );
    // The verbatim surfaced token authenticates as Admin.
    let principal = store
        .verify(token.strip_prefix("Bearer ").unwrap_or(&token))
        .expect("the surfaced bootstrap token verifies");
    assert_eq!(principal.role, Role::Admin);
}

#[test]
fn two_generations_differ_and_are_not_cross_valid() {
    let (store_a, token_a) = provision_admin_keys(None);
    let (_store_b, token_b) = provision_admin_keys(None);
    let token_a = token_a.unwrap();
    let token_b = token_b.unwrap();
    assert_ne!(token_a, token_b, "each generated secret is random");
    // store_a must not accept store_b's token (distinct secrets + peppers).
    assert!(store_a.verify(&token_b).is_err());
}

#[test]
fn roles_gate_actions() {
    for role in [Role::ReadOnly, Role::Viewer] {
        assert!(role.can(Action::Read));
        assert!(!role.can(Action::Write));
        assert!(!role.can(Action::Administer));
    }
    assert!(Role::Operator.can(Action::Write));
    assert!(!Role::Operator.can(Action::Administer));
    assert!(Role::Admin.can(Action::Administer));
    assert!(Role::Operator.require(Action::Write).is_ok());
    assert_eq!(
        Role::Viewer.require(Action::Write),
        Err(ControlError::Forbidden("role Viewer may not perform Write".to_owned()))
    );
    assert!(Role::ReadOnly < Role::Viewer && Role::Operator < Role::Admin);
}

#[test]
fn digest_is_the_keyed_sha256_of_the_secret() {
    let store = ApiKeyStore::new(b"key".to_vec());
    let hex: String = store
        .digest("The quick brown fox jumps over the lazy dog")
        .iter()
        .map(|b| format!("{b:02x}"))
        .collect();
    assert_eq!(hex, "f7bc83f430538424b13298e6aa6fb143ef4d59a14946175997479dbc2d1a3cd8");
}

#[test]
fn malformed_and_unknown_tokens_are_refused() {
    let mut store = ApiKeyStore::new(b"pepper".to_vec());
    store.register("k1", "a.b.c", principal(Role::Viewer));
    // The token is cut at the first full stop, so a secret may hold some.
    assert_eq!(store.verify("k1.a.b.c").unwrap().key_id, "k1");
    assert_eq!(store.verify("k1"), Err(ControlError::Unauthenticated));
    assert_eq!(store.verify("k2.a.b.c"), Err(ControlError::Unauthenticated));
    assert_eq!(store.verify("k1.a.b"), Err(ControlError::Unauthenticated));
}

#[test]
fn authorization_header_takes_the_bearer_scheme_in_two_spellings() {
    let mut store = ApiKeyStore::new(b"pepper".to_vec());
    store.register("k1", "s", principal(Role::Viewer));
    assert!(store.verify_authorization(Some("Bearer k1.s")).is_ok());
    assert!(store.verify_authorization(Some("bearer   k1.s ")).is_ok());
    assert!(store.verify_authorization(Some("BEARER k1.s")).is_err());
    assert!(store.verify_authorization(Some("k1.s")).is_err());
    assert!(store.verify_authorization(None).is_err());
}

#[test]
fn revoking_and_rescoping_move_the_generation() {
    let mut store = ApiKeyStore::new(b"pepper".to_vec());
    store.register("k1", "s", principal(Role::Operator));
    assert_eq!(store.generation(), 0, "registration does not move it");
    assert!(store.set_principal("k1", principal(Role::Viewer)));
    assert_eq!(store.generation(), 1);
    assert_eq!(store.verify("k1.s").unwrap().role, Role::Viewer, "the secret stays");
    assert!(!store.set_principal("nobody", principal(Role::Admin)));
    assert!(!store.revoke("nobody"));
    assert_eq!(store.generation(), 1, "an unknown key moves nothing");
    assert_eq!(store.principal_for_key("k1").unwrap().role, Role::Viewer);
    assert!(store.revoke("k1"));
    assert_eq!(store.generation(), 2);
    assert!(store.principal_for_key("k1").is_none());
    assert!(store.verify("k1.s").is_err());
}

#[test]
fn allowlists_fail_closed() {
    let objects = ["cam-1".to_owned()];
    let outputs = ["out-1".to_owned(), "program:main".to_owned()];
    let domains = ["site-a".to_owned()];
    let scopes = AuthzScopes::new(Some(&objects), Some(&outputs), Some(&domains));
    assert!(scope_permits(&scopes, AuthzScope::Public));
    assert!(scope_permits(&scopes, AuthzScope::Object("cam-1")));
    assert!(!scope_permits(&scopes, AuthzScope::Object("cam-2")));
    assert!(scope_permits(&scopes, AuthzScope::Output("out-1")));
    // A program and an output that share an id do not share a grant.
    assert!(scope_permits(&scopes, AuthzScope::Program("main")));
    assert!(!scope_permits(&scopes, AuthzScope::Output("main")));
    assert!(!scope_permits(&scopes, AuthzScope::Output("program:main")));
    assert!(!scope_permits(&scopes, AuthzScope::Program("out-1")));
    // A row without a domain is hidden from a scoped principal.
    assert!(scope_permits(&scopes, AuthzScope::DiscoveryDomain(Some("site-a"))));
    assert!(!scope_permits(&scopes, AuthzScope::DiscoveryDomain(None)));
    assert!(scope_permits(
        &scopes,
        AuthzScope::ObjectAndOutput { object: "cam-1", output: "out-1" }
    ));
    assert!(!scope_permits(
        &scopes,
        AuthzScope::ObjectAndOutput { object: "cam-1", output: "out-2" }
    ));
    let none = AuthzScopes::new(Some(&[]), Some(&[]), Some(&[]));
    assert!(!scope_permits(&none, AuthzScope::Object("cam-1")));
    assert!(!scope_permits(&none, AuthzScope::DiscoveryDomain(None)));
    let all = AuthzScopes::new(None, None, None);
    assert!(scope_permits(&all, AuthzScope::DiscoveryDomain(None)));
    assert!(scope_permits(&all, AuthzScope::Output("program:main")));
}

#[test]
fn refusals_name_the_principal_and_the_scope() {
    let mut p = principal(Role::Operator);
    assert!(!p.is_scoped() && !p.is_output_scoped() && !p.is_discovery_scoped());
    assert!(authorize_object(&p, "cam-1").is_ok());
    p.scoped_object_ids = Some(vec!["cam-\"1".to_owned()]);
    p.scoped_output_ids = Some(Vec::new());
    p.scoped_discovery_domains = Some(Vec::new());
    assert!(p.is_scoped() && p.is_output_scoped() && p.is_discovery_scoped());
    assert_eq!(
        authorize_object(&p, "cam-\"2"),
        Err(ControlError::Forbidden(
            "principal \"k1\" is not authorized for Object(\"cam-\\\"2\")".to_owned()
        ))
    );
    assert_eq!(
        authorize_output(&p, "out"),
        Err(ControlError::Forbidden(
            "principal \"k1\" is not authorized for Output(\"out\")".to_owned()
        ))
    );
    assert_eq!(
        authorize_scope(&p, AuthzScope::DiscoveryDomain(None)),
        Err(ControlError::Forbidden(
            "principal \"k1\" is not authorized for DiscoveryDomain(None)".to_owned()
        ))
    );
    assert_eq!(
        authorize_scope(&p, AuthzScope::ObjectAndOutput { object: "a", output: "b" }),
        Err(ControlError::Forbidden(
            "principal \"k1\" is not authorized for ObjectAndOutput { object: \"a\", output: \"b\" }"
                .to_owned()
        ))
    );
}

#[test]
fn local_admin_is_unrestricted() {
    let p = Principal::local_admin();
    assert_eq!(p.key_id, "local-admin");
    assert_eq!(p.role, Role::Admin);
    assert!(!p.is_scoped());
    assert!(scope_permits(&p.scopes(), AuthzScope::Program("main")));
}

#[test]
fn drawn_secret_is_surfaced_as_a_token() {
    let (store, token) = provision_with(b"p".to_vec(), None, "drawn".to_owned());
    assert_eq!(token.as_deref(), Some("admin.drawn"));
    assert!(store.verify("admin.drawn").is_ok());
    let (store, token) = provision_with(b"p".to_vec(), Some("own".to_owned()), "drawn".to_owned());
    assert!(token.is_none());
    assert!(store.verify("admin.own").is_ok());
    assert!(store.verify("admin.drawn").is_err());
}

#[test]
fn over_a_history_the_generation_counts_and_the_last_principal_stands() {
    let mut store = ApiKeyStore::new(vec![1; 16]);
    let role = |store: &ApiKeyStore, id: &str| store.principal_for_key(id).map(|p| p.role);
    assert!(!store.set_principal("a", principal(Role::Admin)));
    assert_eq!((store.generation(), role(&store, "a")), (0, None));
    store.register("a", "s", principal(Role::Viewer));
    assert_eq!((store.generation(), role(&store, "a")), (0, Some(Role::Viewer)));
    assert!(store.set_principal("a", principal(Role::Operator)));
    assert_eq!((store.generation(), role(&store, "a")), (1, Some(Role::Operator)));
    assert_eq!(store.verify("a.s").unwrap().role, Role::Operator);
    assert!(store.revoke("a"));
    assert!(!store.revoke("a"));
    assert_eq!((store.generation(), role(&store, "a")), (2, None));
    store.register("a", "t", principal(Role::Admin));
    assert_eq!((store.generation(), role(&store, "a")), (2, Some(Role::Admin)));
    assert!(store.verify("a.s").is_err());
    assert_eq!(store.verify("a.t").unwrap().role, Role::Admin);
}
