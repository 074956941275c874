use openfga_demo::authz::{
    classify_failure, conclude_check, prepare_check, user_for, AuthzError, MissingSetting, OpenFgaConfig,
};

fn config() -> OpenFgaConfig {
    OpenFgaConfig { store_id: "store-1".to_string(), authorization_model_id: Some("model-1".to_string()) }
}

#[test]
fn check_sends_the_prefixed_tuple() {
    let q = prepare_check(&config(), "alice", "viewer", "resource:a/b/c/d").unwrap();
    assert_eq!(q.user, "user:alice");
    assert_eq!(q.relation, "viewer");
    assert_eq!(q.object, "resource:a/b/c/d");
    assert_eq!(q.store_id, "store-1");
    assert_eq!(q.authorization_model_id, "model-1");
}

#[test]
fn check_returns_the_decision_verbatim() {
    assert!(matches!(conclude_check(Ok(true)), Ok(true)));
    assert!(matches!(conclude_check(Ok(false)), Ok(false)));
}

#[test]
fn empty_store_is_a_configuration_error() {
    let c = OpenFgaConfig { store_id: String::new(), authorization_model_id: Some("m".to_string()) };
    assert!(matches!(
        prepare_check(&c, "alice", "viewer", "o:1"),
        Err(AuthzError::ConfigurationError(MissingSetting::StoreId))
    ));
    let c = OpenFgaConfig { store_id: String::new(), authorization_model_id: None };
    assert!(matches!(
        prepare_check(&c, "alice", "viewer", "o:1"),
        Err(AuthzError::ConfigurationError(MissingSetting::StoreId))
    ));
}

#[test]
fn absent_model_is_a_configuration_error() {
    let c = OpenFgaConfig { store_id: "s".to_string(), authorization_model_id: None };
    assert!(matches!(
        prepare_check(&c, "alice", "viewer", "o:1"),
        Err(AuthzError::ConfigurationError(MissingSetting::AuthorizationModelId))
    ));
}

#[test]
fn transport_failures_are_unavailable() {
    assert!(matches!(classify_failure("status: Unknown, message: \"transport error\""), AuthzError::Unavailable));
    assert!(matches!(classify_failure("tcp connect error: Connection refused (os error 111)"), AuthzError::Unavailable));
    assert!(matches!(
        conclude_check(Err("error trying to connect: Connection refused".to_string())),
        Err(AuthzError::Unavailable)
    ));
}

#[test]
fn other_failures_are_remote_errors() {
    match classify_failure("status: InvalidArgument, message: \"bad tuple\"") {
        AuthzError::RemoteError(m) => assert_eq!(m, "status: InvalidArgument, message: \"bad tuple\""),
        other => panic!("unexpected {:?}", other),
    }
    match classify_failure("transport") {
        AuthzError::RemoteError(m) => assert_eq!(m, "transport"),
        other => panic!("unexpected {:?}", other),
    }
}

#[test]
fn error_messages() {
    assert_eq!(AuthzError::ConfigurationError(MissingSetting::StoreId).message(), "OpenFGA store ID not configured");
    assert_eq!(
        AuthzError::ConfigurationError(MissingSetting::AuthorizationModelId).message(),
        "OpenFGA authorization model ID not configured"
    );
    assert_eq!(
        AuthzError::Unavailable.message(),
        "OpenFGA server is not available. Please check server status and configuration."
    );
    assert_eq!(AuthzError::RemoteError("boom".to_string()).message(), "OpenFGA permission check failed: boom");
}

#[test]
fn user_names_are_prefixed() {
    assert_eq!(user_for("bob"), "user:bob");
    assert_eq!(user_for("ä/x"), "user:ä/x");
}

#[test]
fn config_from_settings() {
    let c = OpenFgaConfig::from_settings(None, Some("m".to_string()));
    assert_eq!(c.store_id, "");
    assert_eq!(c.authorization_model_id.as_deref(), Some("m"));
    let c = OpenFgaConfig::from_settings(Some("s".to_string()), None);
    assert_eq!(c.store_id, "s");
    assert!(c.authorization_model_id.is_none());
}
