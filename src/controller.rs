//! Resource operations: the relation each operation needs, the object it
//! is checked against, and what the operation yields once the check has
//! been decided.

use vstd::prelude::*;
use crate::authz::{OpenFgaConfig, AuthzError, CheckQuery, config_gap, prepare_check, principal_user};
use crate::relation::{Relation, relation_name};
use crate::text::{chars_of, string_of, push_all};

verus! {

/// The path fields that name a resource.
#[derive(Clone, Debug)]
pub struct ResourceParams {
    pub service_name: String,
    pub service_type: String,
    pub org_id: String,
    pub name: String,
}

/// An operation on a resource.
#[derive(Clone, Copy, Debug, PartialEq, Eq, Structural)]
pub enum Operation {
    Create,
    Update,
    Read,
    Delete,
}

/// The relation an operation requires of the principal.
pub open spec fn required_relation(op: Operation) -> Relation {
    match op {
        Operation::Create => Relation::Admin,
        Operation::Update => Relation::Editor,
        Operation::Read => Relation::Viewer,
        Operation::Delete => Relation::Owner,
    }
}

/// The key of a resource: its four path fields joined by `/`.
pub open spec fn resource_path(p: ResourceParams) -> Seq<char> {
    p.service_name@ + "/"@ + p.service_type@ + "/"@ + p.org_id@ + "/"@ + p.name@
}

/// The object an operation is checked against: the organisation for a
/// creation, the resource itself otherwise.
pub open spec fn target_of(op: Operation, p: ResourceParams) -> Seq<char> {
    if op == Operation::Create {
        "organisation:"@ + p.org_id@
    } else {
        "resource:"@ + resource_path(p)
    }
}

impl Operation {
    /// The relation the operation requires.
    pub fn relation(&self) -> (r: Relation)
        ensures
            r == required_relation(*self),
    {
        match self {
            Operation::Create => Relation::Admin,
            Operation::Update => Relation::Editor,
            Operation::Read => Relation::Viewer,
            Operation::Delete => Relation::Owner,
        }
    }
}

/// The key of the resource that `params` name.
pub fn resource_key(params: &ResourceParams) -> (r: String)
    ensures
        r@ == resource_path(*params),
{
    let slash = chars_of("/");
    let mut v = chars_of(params.service_name.as_str());
    push_all(&mut v, &slash);
    push_all(&mut v, &chars_of(params.service_type.as_str()));
    push_all(&mut v, &slash);
    push_all(&mut v, &chars_of(params.org_id.as_str()));
    push_all(&mut v, &slash);
    push_all(&mut v, &chars_of(params.name.as_str()));
    string_of(&v)
}

/// The object that `op` on the resource of `params` is checked against.
pub fn target_object(op: Operation, params: &ResourceParams) -> (r: String)
    ensures
        r@ == target_of(op, *params),
{
    if op == Operation::Create {
        let mut v = chars_of("organisation:");
        push_all(&mut v, &chars_of(params.org_id.as_str()));
        string_of(&v)
    } else {
        let mut v = chars_of("resource:");
        let key = resource_key(params);
        push_all(&mut v, &chars_of(key.as_str()));
        string_of(&v)
    }
}

/// The check that authorizes `op` by `principal` on the resource of
/// `params`; with a setting missing, the configuration error instead.
pub fn plan_operation(config: &OpenFgaConfig, principal: &str, op: Operation, params: &ResourceParams) -> (r: Result<CheckQuery, AuthzError>)
    ensures
        r is Err <==> config_gap(*config) is Some,
        r matches Err(e) ==> e == AuthzError::ConfigurationError(config_gap(*config)->Some_0),
        r matches Ok(q) ==> {
            &&& q.store_id@ == config.store_id@
            &&& q.authorization_model_id@ == config.authorization_model_id->Some_0@
            &&& q.user@ == principal_user(principal@)
            &&& q.relation@ == relation_name(required_relation(op))
            &&& q.object@ == target_of(op, *params)
        },
{
    let relation = op.relation().name();
    let target = target_object(op, params);
    prepare_check(config, principal, relation.as_str(), target.as_str())
}

/// What an authorized operation hands back: the fields that identify what
/// it acted on.
pub enum Receipt {
    Created { organisation: String },
    Updated { resource_id: String },
    Fetched { resource_id: String, name: String, service_name: String, service_type: String, org_id: String },
    Deleted { resource_id: String },
}

/// `rc` is the receipt of `op` on the resource of `p`.
pub open spec fn receipt_for(rc: Receipt, op: Operation, p: ResourceParams) -> bool {
    match op {
        Operation::Create => rc matches Receipt::Created { organisation } && organisation@ == p.org_id@,
        Operation::Update => rc matches Receipt::Updated { resource_id } && resource_id@ == resource_path(p),
        Operation::Read => rc matches Receipt::Fetched { resource_id, name, service_name, service_type, org_id }
            && resource_id@ == resource_path(p) && name@ == p.name@ && service_name@ == p.service_name@
            && service_type@ == p.service_type@ && org_id@ == p.org_id@,
        Operation::Delete => rc matches Receipt::Deleted { resource_id } && resource_id@ == resource_path(p),
    }
}

/// How an operation ended.
pub enum Outcome {
    /// Authorized and performed.
    Done(Receipt),
    /// The authority denied the required relation; nothing was done.
    Denied,
    /// No decision could be had; nothing was done.
    Failed(AuthzError),
}

/// Ends `op` on the resource of `params` by the check's decision: performed
/// when allowed, denied when refused, failed when the check failed.
pub fn conclude_operation(op: Operation, params: &ResourceParams, decision: Result<bool, AuthzError>) -> (r: Outcome)
    ensures
        decision == Ok::<bool, AuthzError>(true) ==> (r matches Outcome::Done(rc) && receipt_for(rc, op, *params)),
        decision == Ok::<bool, AuthzError>(false) ==> r is Denied,
        decision matches Err(e) ==> r == Outcome::Failed(e),
{
    match decision {
        Ok(true) => {
            let rc = match op {
                Operation::Create => Receipt::Created { organisation: params.org_id.clone() },
                Operation::Update => Receipt::Updated { resource_id: resource_key(params) },
                Operation::Read => Receipt::Fetched {
                    resource_id: resource_key(params),
                    name: params.name.clone(),
                    service_name: params.service_name.clone(),
                    service_type: params.service_type.clone(),
                    org_id: params.org_id.clone(),
                },
                Operation::Delete => Receipt::Deleted { resource_id: resource_key(params) },
            };
            Outcome::Done(rc)
        },
        Ok(false) => Outcome::Denied,
        Err(e) => Outcome::Failed(e),
    }
}

/// The HTTP status that reports an outcome.
pub open spec fn status_of(o: Outcome) -> u16 {
    match o {
        Outcome::Done(Receipt::Created { .. }) => 201,
        Outcome::Done(_) => 200,
        Outcome::Denied => 403,
        Outcome::Failed(_) => 500,
    }
}

impl Outcome {
    /// The HTTP status that reports this outcome.
    pub fn status(&self) -> (r: u16)
        ensures
            r == status_of(*self),
    {
        match self {
            Outcome::Done(Receipt::Created { .. }) => 201,
            Outcome::Done(_) => 200,
            Outcome::Denied => 403,
            Outcome::Failed(_) => 500,
        }
    }
}

} // verus!
