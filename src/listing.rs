//! List queries: the single query of a listing, and the fan-out of list
//! queries that discovery sends.

use vstd::prelude::*;
use crate::authz::{OpenFgaConfig, AuthzError, config_gap, principal_user, resolve_config, user_for};
use crate::discovery::{ObjectKind, kind_name};
use crate::relation::{Relation, relation_name};

verus! {

/// One list query: which objects of `object_type` does `user` hold
/// `relation` on, in the given store and model.
pub struct ListQuery {
    pub store_id: String,
    pub authorization_model_id: String,
    pub object_type: String,
    pub relation: String,
    pub user: String,
}

/// The consistency level every list query asks for.
pub const LIST_CONSISTENCY: i32 = 8;

/// `q` is the list query for `principal`, `object_type` and `relation` in
/// the store and model of `config`.
pub open spec fn list_query_for(
    q: ListQuery,
    config: OpenFgaConfig,
    principal: Seq<char>,
    object_type: Seq<char>,
    relation: Seq<char>,
) -> bool {
    &&& q.store_id@ == config.store_id@
    &&& q.authorization_model_id@ == config.authorization_model_id->Some_0@
    &&& q.object_type@ == object_type
    &&& q.relation@ == relation
    &&& q.user@ == principal_user(principal)
}

/// What a listing asks for; absent fields take their defaults.
pub struct ListQueryParams {
    pub relation: Option<String>,
    pub object_type: Option<String>,
}

/// The relation a listing asks about.
pub open spec fn listing_relation(p: ListQueryParams) -> Seq<char> {
    match p.relation {
        Some(r) => r@,
        None => "viewer"@,
    }
}

/// The object type a listing asks about.
pub open spec fn listing_object_type(p: ListQueryParams) -> Seq<char> {
    match p.object_type {
        Some(t) => t@,
        None => "resource"@,
    }
}

/// The single query of a listing for `principal`; with a setting missing,
/// the configuration error instead.
pub fn plan_listing(config: &OpenFgaConfig, principal: &str, params: &ListQueryParams) -> (r: Result<ListQuery, AuthzError>)
    ensures
        r is Err <==> config_gap(*config) is Some,
        r matches Err(e) ==> e == AuthzError::ConfigurationError(config_gap(*config)->Some_0),
        r matches Ok(q) ==> list_query_for(q, *config, principal@, listing_object_type(*params), listing_relation(*params)),
{
    let (store_id, authorization_model_id) = match resolve_config(config) {
        Ok(ids) => ids,
        Err(e) => return Err(e),
    };
    let relation = match &params.relation {
        Some(r) => r.clone(),
        None => "viewer".to_owned(),
    };
    let object_type = match &params.object_type {
        Some(t) => t.clone(),
        None => "resource".to_owned(),
    };
    Ok(ListQuery { store_id, authorization_model_id, object_type, relation, user: user_for(principal) })
}

/// The answer to a listing: the identifiers as the authority listed them,
/// their number, and what was asked.
pub struct ListResponse {
    pub objects: Vec<String>,
    pub total_count: usize,
    pub object_type: String,
    pub relation: String,
}

/// The response to `query` whose answer listed `objects`.
pub fn list_response(query: ListQuery, objects: Vec<String>) -> (r: ListResponse)
    ensures
        r.objects@ == objects@,
        r.total_count == objects@.len(),
        r.object_type@ == query.object_type@,
        r.relation@ == query.relation@,
{
    let total_count = objects.len();
    ListResponse { objects, total_count, object_type: query.object_type, relation: query.relation }
}

/// One query of the discovery fan-out.
pub struct FanOutQuery {
    pub kind: ObjectKind,
    pub relation: Relation,
    pub request: ListQuery,
}

/// The kind and relation of each query of the fan-out, in the order sent:
/// every kind with every relation a principal can be granted through its
/// organization.
pub open spec fn fan_out_plan() -> Seq<(ObjectKind, Relation)> {
    seq![
        (ObjectKind::Service, Relation::Viewer),
        (ObjectKind::Service, Relation::Editor),
        (ObjectKind::Service, Relation::Admin),
        (ObjectKind::ServiceType, Relation::Viewer),
        (ObjectKind::ServiceType, Relation::Editor),
        (ObjectKind::ServiceType, Relation::Admin),
        (ObjectKind::Resource, Relation::Viewer),
        (ObjectKind::Resource, Relation::Editor),
        (ObjectKind::Resource, Relation::Admin),
    ]
}

fn fan_out_query(store_id: &String, model_id: &String, user: &String, kind: ObjectKind, relation: Relation) -> (q: FanOutQuery)
    ensures
        q.kind == kind,
        q.relation == relation,
        q.request.store_id@ == store_id@,
        q.request.authorization_model_id@ == model_id@,
        q.request.user@ == user@,
        q.request.object_type@ == kind_name(kind),
        q.request.relation@ == relation_name(relation),
{
    FanOutQuery {
        kind,
        relation,
        request: ListQuery {
            store_id: store_id.clone(),
            authorization_model_id: model_id.clone(),
            object_type: kind.name(),
            relation: relation.name(),
            user: user.clone(),
        },
    }
}

/// The queries of the discovery fan-out for `principal`, one per entry of
/// the plan and in its order; with a setting missing, the configuration
/// error instead.
pub fn plan_discovery(config: &OpenFgaConfig, principal: &str) -> (r: Result<Vec<FanOutQuery>, AuthzError>)
    ensures
        r is Err <==> config_gap(*config) is Some,
        r matches Err(e) ==> e == AuthzError::ConfigurationError(config_gap(*config)->Some_0),
        r matches Ok(qs) ==> {
            &&& qs@.len() == fan_out_plan().len()
            &&& forall|i: int| 0 <= i < qs@.len() ==> {
                &&& (#[trigger] qs@[i]).kind == fan_out_plan()[i].0
                &&& qs@[i].relation == fan_out_plan()[i].1
                &&& list_query_for(qs@[i].request, *config, principal@, kind_name(qs@[i].kind), relation_name(qs@[i].relation))
            }
        },
{
    let (store_id, model_id) = match resolve_config(config) {
        Ok(ids) => ids,
        Err(e) => return Err(e),
    };
    let user = user_for(principal);
    let mut qs: Vec<FanOutQuery> = Vec::new();
    qs.push(fan_out_query(&store_id, &model_id, &user, ObjectKind::Service, Relation::Viewer));
    qs.push(fan_out_query(&store_id, &model_id, &user, ObjectKind::Service, Relation::Editor));
    qs.push(fan_out_query(&store_id, &model_id, &user, ObjectKind::Service, Relation::Admin));
    qs.push(fan_out_query(&store_id, &model_id, &user, ObjectKind::ServiceType, Relation::Viewer));
    qs.push(fan_out_query(&store_id, &model_id, &user, ObjectKind::ServiceType, Relation::Editor));
    qs.push(fan_out_query(&store_id, &model_id, &user, ObjectKind::ServiceType, Relation::Admin));
    qs.push(fan_out_query(&store_id, &model_id, &user, ObjectKind::Resource, Relation::Viewer));
    qs.push(fan_out_query(&store_id, &model_id, &user, ObjectKind::Resource, Relation::Editor));
    qs.push(fan_out_query(&store_id, &model_id, &user, ObjectKind::Resource, Relation::Admin));
    Ok(qs)
}

} // verus!
