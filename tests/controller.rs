use openfga_demo::authz::{AuthzError, OpenFgaConfig};
use openfga_demo::controller::{
    conclude_operation, plan_operation, resource_key, target_object, Operation, Outcome, Receipt, ResourceParams,
};
use openfga_demo::relation::Relation;

fn config() -> OpenFgaConfig {
    OpenFgaConfig { store_id: "store-1".to_string(), authorization_model_id: Some("model-1".to_string()) }
}

fn params(org: &str) -> ResourceParams {
    ResourceParams {
        service_name: "svcA".to_string(),
        service_type: "typeB".to_string(),
        org_id: org.to_string(),
        name: "res1".to_string(),
    }
}

#[test]
fn denied_delete_does_nothing() {
    let p = params("org1");
    let q = plan_operation(&config(), "alice", Operation::Delete, &p).unwrap();
    assert_eq!(q.user, "user:alice");
    assert_eq!(q.relation, "owner");
    assert_eq!(q.object, "resource:svcA/typeB/org1/res1");
    let outcome = conclude_operation(Operation::Delete, &p, Ok(false));
    assert!(matches!(outcome, Outcome::Denied));
    assert_eq!(outcome.status(), 403);
}

#[test]
fn granted_create_echoes_the_organisation() {
    let p = params("org1");
    let q = plan_operation(&config(), "bob", Operation::Create, &p).unwrap();
    assert_eq!(q.user, "user:bob");
    assert_eq!(q.relation, "admin");
    assert_eq!(q.object, "organisation:org1");
    let outcome = conclude_operation(Operation::Create, &p, Ok(true));
    assert_eq!(outcome.status(), 201);
    match outcome {
        Outcome::Done(Receipt::Created { organisation }) => assert_eq!(organisation, "org1"),
        _ => panic!("creation was not performed"),
    }
}

#[test]
fn operations_map_to_relations_and_targets() {
    let p = params("o");
    assert_eq!(Operation::Create.relation(), Relation::Admin);
    assert_eq!(Operation::Update.relation(), Relation::Editor);
    assert_eq!(Operation::Read.relation(), Relation::Viewer);
    assert_eq!(Operation::Delete.relation(), Relation::Owner);
    assert_eq!(resource_key(&p), "svcA/typeB/o/res1");
    assert_eq!(target_object(Operation::Create, &p), "organisation:o");
    assert_eq!(target_object(Operation::Update, &p), "resource:svcA/typeB/o/res1");
    assert_eq!(target_object(Operation::Read, &p), "resource:svcA/typeB/o/res1");
}

#[test]
fn allowed_operations_echo_their_fields() {
    let p = params("org1");
    match conclude_operation(Operation::Update, &p, Ok(true)) {
        Outcome::Done(Receipt::Updated { resource_id }) => assert_eq!(resource_id, "svcA/typeB/org1/res1"),
        _ => panic!("update was not performed"),
    }
    match conclude_operation(Operation::Read, &p, Ok(true)) {
        Outcome::Done(Receipt::Fetched { resource_id, name, service_name, service_type, org_id }) => {
            assert_eq!(resource_id, "svcA/typeB/org1/res1");
            assert_eq!((name.as_str(), service_name.as_str(), service_type.as_str(), org_id.as_str()), ("res1", "svcA", "typeB", "org1"));
        }
        _ => panic!("read was not performed"),
    }
    let outcome = conclude_operation(Operation::Delete, &p, Ok(true));
    assert_eq!(outcome.status(), 200);
    assert!(matches!(outcome, Outcome::Done(Receipt::Deleted { .. })));
}

#[test]
fn failed_check_is_not_a_denial() {
    let outcome = conclude_operation(Operation::Read, &params("o"), Err(AuthzError::Unavailable));
    assert!(matches!(outcome, Outcome::Failed(AuthzError::Unavailable)));
    assert_eq!(outcome.status(), 500);
}

#[test]
fn operation_needs_configuration() {
    let c = OpenFgaConfig { store_id: String::new(), authorization_model_id: None };
    assert!(matches!(plan_operation(&c, "bob", Operation::Read, &params("o")), Err(AuthzError::ConfigurationError(_))));
}
