use openfga_demo::authz::{AuthzError, MissingSetting, OpenFgaConfig};
use openfga_demo::discovery::{
    merge_discovery, parse_object, DiscoveryError, FanOutReply, ObjectKind, SharedResourcesResponse,
};
use openfga_demo::listing::{list_response, plan_discovery, plan_listing, ListQueryParams};
use openfga_demo::relation::Relation;

fn ok(kind: ObjectKind, relation: Relation, ids: &[&str]) -> FanOutReply {
    FanOutReply { kind, relation, outcome: Ok(ids.iter().map(|s| s.to_string()).collect()) }
}

fn failed(kind: ObjectKind, relation: Relation) -> FanOutReply {
    FanOutReply { kind, relation, outcome: Err("status: Internal".to_string()) }
}

fn config() -> OpenFgaConfig {
    OpenFgaConfig { store_id: "store-1".to_string(), authorization_model_id: Some("model-1".to_string()) }
}

fn service_map(r: &SharedResourcesResponse) -> Vec<(String, Vec<Relation>)> {
    let mut v: Vec<(String, Vec<Relation>)> = r.services.iter().map(|s| (s.id.clone(), s.permissions.clone())).collect();
    v.sort_by(|a, b| a.0.cmp(&b.0));
    v
}

fn resource_map(r: &SharedResourcesResponse) -> Vec<(String, Vec<Relation>)> {
    let mut v: Vec<(String, Vec<Relation>)> = r.resources.iter().map(|s| (s.id.clone(), s.permissions.clone())).collect();
    v.sort_by(|a, b| a.0.cmp(&b.0));
    v
}

fn type_map(r: &SharedResourcesResponse) -> Vec<(String, Vec<Relation>)> {
    let mut v: Vec<(String, Vec<Relation>)> =
        r.service_types.iter().map(|s| (s.id.clone(), s.permissions.clone())).collect();
    v.sort_by(|a, b| a.0.cmp(&b.0));
    v
}

#[test]
fn parse_service_keeps_whole_path() {
    let r = parse_object(ObjectKind::Service, &"service:svcA".to_string()).unwrap();
    assert_eq!(r, vec!["svcA".to_string()]);
    let r = parse_object(ObjectKind::Service, &"service:a/b".to_string()).unwrap();
    assert_eq!(r, vec!["a/b".to_string()]);
    assert_eq!(parse_object(ObjectKind::Service, &"resource:a/b/c".to_string()), None);
}

#[test]
fn parse_service_type_needs_two_segments() {
    let r = parse_object(ObjectKind::ServiceType, &"service_type:svc/typeA".to_string()).unwrap();
    assert_eq!(r, vec!["svc".to_string(), "typeA".to_string()]);
    assert_eq!(parse_object(ObjectKind::ServiceType, &"service_type:svc/typeA/extra".to_string()), None);
    assert_eq!(parse_object(ObjectKind::ServiceType, &"service_type:svc".to_string()), None);
}

#[test]
fn parse_resource_needs_three_segments() {
    let r = parse_object(ObjectKind::Resource, &"resource:svc/t/res".to_string()).unwrap();
    assert_eq!(r, vec!["svc".to_string(), "t".to_string(), "res".to_string()]);
    let r = parse_object(ObjectKind::Resource, &"resource://".to_string()).unwrap();
    assert_eq!(r, vec![String::new(), String::new(), String::new()]);
    assert_eq!(parse_object(ObjectKind::Resource, &"resource:svc/t/org/res".to_string()), None);
    assert_eq!(parse_object(ObjectKind::Resource, &"resource:".to_string()), None);
}

#[test]
fn three_segment_service_type_is_dropped() {
    let replies = vec![ok(
        ObjectKind::ServiceType,
        Relation::Viewer,
        &["service_type:svc/typeA/extra", "service_type:svc/typeB"],
    )];
    let r = merge_discovery(&replies).unwrap();
    assert_eq!(type_map(&r), vec![("service_type:svc/typeB".to_string(), vec![Relation::Viewer])]);
    assert_eq!(r.service_types[0].service_name, "svc");
    assert_eq!(r.service_types[0].service_type, "typeB");
}

#[test]
fn duplicate_objects_merge_their_relations() {
    let replies = vec![
        ok(ObjectKind::Service, Relation::Viewer, &["service:a", "service:b"]),
        ok(ObjectKind::Service, Relation::Editor, &["service:a"]),
        ok(ObjectKind::Service, Relation::Admin, &["service:a", "service:a"]),
    ];
    let r = merge_discovery(&replies).unwrap();
    assert_eq!(
        service_map(&r),
        vec![
            ("service:a".to_string(), vec![Relation::Admin, Relation::Editor, Relation::Viewer]),
            ("service:b".to_string(), vec![Relation::Viewer]),
        ]
    );
    let a = r.services.iter().find(|s| s.id == "service:a").unwrap();
    assert_eq!(a.name, "a");
    assert_eq!(a.shared_via, "parent_organization");
}

#[test]
fn objects_go_to_the_collection_of_their_query() {
    let replies = vec![
        ok(ObjectKind::Resource, Relation::Viewer, &["resource:s/t/r", "service:x"]),
        ok(ObjectKind::Service, Relation::Viewer, &["resource:s/t/q"]),
    ];
    let r = merge_discovery(&replies).unwrap();
    assert_eq!(resource_map(&r), vec![("resource:s/t/r".to_string(), vec![Relation::Viewer])]);
    assert!(r.services.is_empty());
    assert!(r.service_types.is_empty());
    let res = &r.resources[0];
    assert_eq!((res.service_name.as_str(), res.service_type.as_str(), res.resource_name.as_str()), ("s", "t", "r"));
}

#[test]
fn merge_ignores_reply_order() {
    let a = ok(ObjectKind::Resource, Relation::Viewer, &["resource:s/t/r1", "resource:s/t/r2"]);
    let b = ok(ObjectKind::Resource, Relation::Admin, &["resource:s/t/r2"]);
    let c = ok(ObjectKind::Service, Relation::Editor, &["service:s"]);
    let first = merge_discovery(&vec![a, b, c]).unwrap();
    let a = ok(ObjectKind::Resource, Relation::Viewer, &["resource:s/t/r1", "resource:s/t/r2"]);
    let b = ok(ObjectKind::Resource, Relation::Admin, &["resource:s/t/r2"]);
    let c = ok(ObjectKind::Service, Relation::Editor, &["service:s"]);
    let second = merge_discovery(&vec![c, b, a]).unwrap();
    assert_eq!(resource_map(&first), resource_map(&second));
    assert_eq!(service_map(&first), service_map(&second));
    assert_eq!(
        resource_map(&first),
        vec![
            ("resource:s/t/r1".to_string(), vec![Relation::Viewer]),
            ("resource:s/t/r2".to_string(), vec![Relation::Admin, Relation::Viewer]),
        ]
    );
}

#[test]
fn one_failed_query_keeps_the_other_eight() {
    let kinds = [ObjectKind::Service, ObjectKind::ServiceType, ObjectKind::Resource];
    let relations = [Relation::Viewer, Relation::Editor, Relation::Admin];
    let mut replies = Vec::new();
    for k in kinds {
        for r in relations {
            if k == ObjectKind::Service && r == Relation::Editor {
                replies.push(failed(k, r));
            } else {
                let id = match k {
                    ObjectKind::Service => "service:s",
                    ObjectKind::ServiceType => "service_type:s/t",
                    ObjectKind::Resource => "resource:s/t/r",
                };
                replies.push(ok(k, r, &[id]));
            }
        }
    }
    let r = merge_discovery(&replies).unwrap();
    assert_eq!(service_map(&r), vec![("service:s".to_string(), vec![Relation::Admin, Relation::Viewer])]);
    assert_eq!(
        type_map(&r),
        vec![("service_type:s/t".to_string(), vec![Relation::Admin, Relation::Editor, Relation::Viewer])]
    );
    assert_eq!(
        resource_map(&r),
        vec![("resource:s/t/r".to_string(), vec![Relation::Admin, Relation::Editor, Relation::Viewer])]
    );
}

#[test]
fn all_queries_failed_is_an_error() {
    let replies = vec![failed(ObjectKind::Service, Relation::Viewer), failed(ObjectKind::Resource, Relation::Admin)];
    assert!(matches!(merge_discovery(&replies), Err(DiscoveryError::NoQuerySucceeded)));
    assert!(matches!(merge_discovery(&Vec::new()), Err(DiscoveryError::NoQuerySucceeded)));
}

#[test]
fn empty_answers_merge_to_empty_collections() {
    let replies = vec![ok(ObjectKind::Service, Relation::Viewer, &[])];
    let r = merge_discovery(&replies).unwrap();
    assert!(r.services.is_empty() && r.service_types.is_empty() && r.resources.is_empty());
}

#[test]
fn fan_out_covers_every_kind_and_relation() {
    let qs = plan_discovery(&config(), "alice").unwrap();
    assert_eq!(qs.len(), 9);
    let got: Vec<(String, String)> = qs.iter().map(|q| (q.request.object_type.clone(), q.request.relation.clone())).collect();
    let want: Vec<(String, String)> = ["service", "service_type", "resource"]
        .iter()
        .flat_map(|t| ["viewer", "editor", "admin"].iter().map(move |r| (t.to_string(), r.to_string())))
        .collect();
    assert_eq!(got, want);
    for q in &qs {
        assert_eq!(q.request.user, "user:alice");
        assert_eq!(q.request.store_id, "store-1");
        assert_eq!(q.request.authorization_model_id, "model-1");
    }
    assert_eq!(qs[4].kind, ObjectKind::ServiceType);
    assert_eq!(qs[4].relation, Relation::Editor);
}

#[test]
fn fan_out_needs_configuration() {
    let c = OpenFgaConfig { store_id: String::new(), authorization_model_id: Some("m".to_string()) };
    assert!(matches!(plan_discovery(&c, "alice"), Err(AuthzError::ConfigurationError(MissingSetting::StoreId))));
}

#[test]
fn listing_takes_defaults() {
    let p = ListQueryParams { relation: None, object_type: None };
    let q = plan_listing(&config(), "bob", &p).unwrap();
    assert_eq!(q.relation, "viewer");
    assert_eq!(q.object_type, "resource");
    assert_eq!(q.user, "user:bob");
    let p = ListQueryParams { relation: Some("editor".to_string()), object_type: Some("service".to_string()) };
    let q = plan_listing(&config(), "bob", &p).unwrap();
    assert_eq!((q.relation.as_str(), q.object_type.as_str()), ("editor", "service"));
    let r = list_response(q, vec!["service:a".to_string(), "service:b".to_string()]);
    assert_eq!(r.total_count, 2);
    assert_eq!(r.objects, vec!["service:a".to_string(), "service:b".to_string()]);
    assert_eq!((r.relation.as_str(), r.object_type.as_str()), ("editor", "service"));
}

#[test]
fn listing_needs_a_model() {
    let c = OpenFgaConfig { store_id: "s".to_string(), authorization_model_id: None };
    let p = ListQueryParams { relation: None, object_type: None };
    assert!(matches!(
        plan_listing(&c, "bob", &p),
        Err(AuthzError::ConfigurationError(MissingSetting::AuthorizationModelId))
    ));
}

#[test]
fn kind_and_relation_names() {
    assert_eq!(ObjectKind::ServiceType.name(), "service_type");
    assert_eq!(Relation::Owner.name(), "owner");
    assert_eq!(Relation::Admin.name(), "admin");
}
