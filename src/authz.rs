//! The permission checker: what a check asks the authority, and how its
//! answer or failure is read.

use vstd::prelude::*;
use crate::text::{chars_of, string_of, push_all, contains_text, occurs_in};

verus! {

/// Where the authority keeps the relations that checks consult.
#[derive(Clone, Debug)]
pub struct OpenFgaConfig {
    /// The store to query; empty when it was not configured.
    pub store_id: String,
    /// The authorization model to query, if configured.
    pub authorization_model_id: Option<String>,
}

impl OpenFgaConfig {
    /// The configuration from the settings found, an absent store taken as
    /// empty.
    pub fn from_settings(store_id: Option<String>, authorization_model_id: Option<String>) -> (r: OpenFgaConfig)
        ensures
            store_id matches Some(s) ==> r.store_id@ == s@,
            store_id is None ==> r.store_id@.len() == 0,
            r.authorization_model_id == authorization_model_id,
    {
        let store_id = match store_id {
            Some(s) => s,
            None => String::new(),
        };
        OpenFgaConfig { store_id, authorization_model_id }
    }
}

/// A setting without which no query can be sent.
#[derive(Clone, Copy, Debug, PartialEq, Eq, Structural)]
pub enum MissingSetting {
    StoreId,
    AuthorizationModelId,
}

/// Why a check gave no decision.
#[derive(Debug)]
pub enum AuthzError {
    /// A required setting is missing; nothing was sent.
    ConfigurationError(MissingSetting),
    /// The authority could not be reached.
    Unavailable,
    /// The authority was reached and failed the query, with its message.
    RemoteError(String),
}

/// The first setting that `c` lacks, if any.
pub open spec fn config_gap(c: OpenFgaConfig) -> Option<MissingSetting> {
    if c.store_id@.len() == 0 {
        Some(MissingSetting::StoreId)
    } else if c.authorization_model_id is None {
        Some(MissingSetting::AuthorizationModelId)
    } else {
        None
    }
}

/// The store and model identifiers of a complete configuration, or the
/// configuration error of an incomplete one.
pub fn resolve_config(config: &OpenFgaConfig) -> (r: Result<(String, String), AuthzError>)
    ensures
        r is Err <==> config_gap(*config) is Some,
        r matches Err(e) ==> e == AuthzError::ConfigurationError(config_gap(*config)->Some_0),
        r matches Ok(ids) ==> ids.0@ == config.store_id@ && ids.1@ == config.authorization_model_id->Some_0@,
{
    if config.store_id.as_str().is_empty() {
        return Err(AuthzError::ConfigurationError(MissingSetting::StoreId));
    }
    match &config.authorization_model_id {
        Some(model) => Ok((config.store_id.clone(), model.clone())),
        None => Err(AuthzError::ConfigurationError(MissingSetting::AuthorizationModelId)),
    }
}

/// The form in which the authority knows a principal.
pub open spec fn principal_user(p: Seq<char>) -> Seq<char> {
    "user:"@ + p
}

/// The authority's name for `principal`.
pub fn user_for(principal: &str) -> (r: String)
    ensures
        r@ == principal_user(principal@),
{
    let mut v = chars_of("user:");
    let p = chars_of(principal);
    push_all(&mut v, &p);
    string_of(&v)
}

/// One check to send to the authority: does `user` hold `relation` on
/// `object`, in the given store and model.
pub struct CheckQuery {
    pub store_id: String,
    pub authorization_model_id: String,
    pub user: String,
    pub relation: String,
    pub object: String,
}

/// The check that asks whether `principal` holds `relation` on
/// `object_id`; with a setting missing, the configuration error instead,
/// so that nothing is sent.
pub fn prepare_check(config: &OpenFgaConfig, principal: &str, relation: &str, object_id: &str) -> (r: Result<CheckQuery, AuthzError>)
    ensures
        r is Err <==> config_gap(*config) is Some,
        r matches Err(e) ==> e == AuthzError::ConfigurationError(config_gap(*config)->Some_0),
        r matches Ok(q) ==> {
            &&& q.store_id@ == config.store_id@
            &&& q.authorization_model_id@ == config.authorization_model_id->Some_0@
            &&& q.user@ == principal_user(principal@)
            &&& q.relation@ == relation@
            &&& q.object@ == object_id@
        },
{
    let (store_id, authorization_model_id) = match resolve_config(config) {
        Ok(ids) => ids,
        Err(e) => return Err(e),
    };
    Ok(CheckQuery {
        store_id,
        authorization_model_id,
        user: user_for(principal),
        relation: relation.to_owned(),
        object: object_id.to_owned(),
    })
}

/// A failure text that tells of a transport failure: the authority was not
/// reached.
pub open spec fn unreachable_text(m: Seq<char>) -> bool {
    occurs_in("transport error"@, m) || occurs_in("Connection refused"@, m)
}

/// `e` is how a failure with text `m` is classified.
pub open spec fn classifies(e: AuthzError, m: Seq<char>) -> bool {
    if unreachable_text(m) {
        e is Unavailable
    } else {
        e matches AuthzError::RemoteError(t) && t@ == m
    }
}

/// Classifies the failure of a call to the authority by its text.
pub fn classify_failure(message: &str) -> (r: AuthzError)
    ensures
        classifies(r, message@),
{
    let text = chars_of(message);
    let transport = chars_of("transport error");
    let refused = chars_of("Connection refused");
    if contains_text(&text, &transport) || contains_text(&text, &refused) {
        AuthzError::Unavailable
    } else {
        AuthzError::RemoteError(message.to_owned())
    }
}

/// The result of a check from the authority's reply: its decision as it
/// came, or the classified failure.
pub fn conclude_check(reply: Result<bool, String>) -> (r: Result<bool, AuthzError>)
    ensures
        reply matches Ok(b) ==> r == Ok::<bool, AuthzError>(b),
        reply matches Err(m) ==> r matches Err(e) && classifies(e, m@),
{
    match reply {
        Ok(allowed) => Ok(allowed),
        Err(m) => Err(classify_failure(m.as_str())),
    }
}

/// The text of an error, as it is reported to the caller.
pub open spec fn error_text(e: AuthzError) -> Seq<char> {
    match e {
        AuthzError::ConfigurationError(MissingSetting::StoreId) => "OpenFGA store ID not configured"@,
        AuthzError::ConfigurationError(MissingSetting::AuthorizationModelId) =>
            "OpenFGA authorization model ID not configured"@,
        AuthzError::Unavailable =>
            "OpenFGA server is not available. Please check server status and configuration."@,
        AuthzError::RemoteError(m) => "OpenFGA permission check failed: "@ + m@,
    }
}

impl AuthzError {
    /// The text of the error.
    pub fn message(&self) -> (r: String)
        ensures
            r@ == error_text(*self),
    {
        match self {
            AuthzError::ConfigurationError(MissingSetting::StoreId) => "OpenFGA store ID not configured".to_owned(),
            AuthzError::ConfigurationError(MissingSetting::AuthorizationModelId) =>
                "OpenFGA authorization model ID not configured".to_owned(),
            AuthzError::Unavailable =>
                "OpenFGA server is not available. Please check server status and configuration.".to_owned(),
            AuthzError::RemoteError(m) => {
                let mut v = chars_of("OpenFGA permission check failed: ");
                let t = chars_of(m.as_str());
                push_all(&mut v, &t);
                string_of(&v)
            },
        }
    }
}

} // verus!
