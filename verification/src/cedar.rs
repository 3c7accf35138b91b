//! The engine's seam to the Cedar policy engine: parsing schemas, policies
//! and entity uids, building entity stores and contexts from the engine's
//! own JSON values, and evaluating one request. Everything around these
//! calls — which entities exist, which requests are made, how the two
//! per-view decisions combine — is verified; Cedar's parsing and evaluation
//! are its own.

use vstd::prelude::*;

use crate::codec::value_from_json;
use crate::json::Json;

verus! {

/// Cedar's compiled schema; opaque to the engine.
#[verifier::external_type_specification]
#[verifier::external_body]
pub struct ExSchema(cedar_policy::Schema);

/// One parsed Cedar policy; opaque to the engine.
#[verifier::external_type_specification]
#[verifier::external_body]
pub struct ExPolicy(cedar_policy::Policy);

/// A set of parsed Cedar policies; opaque to the engine.
#[verifier::external_type_specification]
#[verifier::external_body]
pub struct ExPolicySet(cedar_policy::PolicySet);

/// Cedar's entity store; opaque to the engine.
#[verifier::external_type_specification]
#[verifier::external_body]
pub struct ExEntities(cedar_policy::Entities);

/// A Cedar request context; opaque to the engine.
#[verifier::external_type_specification]
#[verifier::external_body]
pub struct ExContext(cedar_policy::Context);

/// A Cedar entity uid; opaque to the engine.
#[verifier::external_type_specification]
#[verifier::external_body]
pub struct ExEntityUid(cedar_policy::EntityUid);

/// Whether Cedar's schema parser accepts this JSON document.
pub uninterp spec fn schema_json_ok(s: Seq<char>) -> bool;

/// Whether Cedar's policy parser accepts this policy text.
pub uninterp spec fn policy_text_ok(s: Seq<char>) -> bool;

/// Whether Cedar's entity-uid grammar accepts this string.
pub uninterp spec fn entity_uid_ok(s: Seq<char>) -> bool;

/// Relies on cedar_policy::Schema::from_json_str: compiles a schema from its
/// JSON form; acceptance depends on the document alone.
#[verifier::external_body]
pub fn parse_schema_json(s: &str) -> (r: Option<cedar_policy::Schema>)
    ensures
        r is Some <==> schema_json_ok(s@),
{
    cedar_policy::Schema::from_json_str(s).ok()
}

/// Relies on cedar_policy::Policy::parse: parses one policy under the given
/// id; acceptance depends on the policy text alone.
#[verifier::external_body]
pub fn parse_policy(id: &str, src: &str) -> (r: Option<cedar_policy::Policy>)
    ensures
        r is Some <==> policy_text_ok(src@),
{
    cedar_policy::Policy::parse(Some(cedar_policy::PolicyId::new(id)), src).ok()
}

/// Relies on cedar_policy::PolicySet::from_policies: collects policies into
/// a set, refusing duplicate policy ids.
#[verifier::external_body]
pub fn policy_set_from(policies: Vec<cedar_policy::Policy>) -> Option<cedar_policy::PolicySet> {
    cedar_policy::PolicySet::from_policies(policies.into_iter()).ok()
}

/// Relies on cedar_policy::EntityUid's FromStr: parses an entity uid such as
/// `Ns::Action::"Update"`; acceptance depends on the string alone.
#[verifier::external_body]
pub fn parse_entity_uid(s: &str) -> (r: Option<cedar_policy::EntityUid>)
    ensures
        r is Some <==> entity_uid_ok(s@),
{
    <cedar_policy::EntityUid as std::str::FromStr>::from_str(s).ok()
}

/// Relies on cedar_policy::Entities::from_json_value: builds and validates
/// the entity store from the entities JSON the engine constructed.
#[verifier::external_body]
pub fn entities_from_json(
    v: &Json,
    schema: &cedar_policy::Schema,
) -> Result<cedar_policy::Entities, String> {
    cedar_policy::Entities::from_json_value(value_from_json(v), Some(schema))
        .map_err(|e| e.to_string())
}

/// Relies on cedar_policy::Context::from_json_value: builds the request
/// context, validated against the schema's declaration for the action.
#[verifier::external_body]
pub fn context_from_json(
    v: &Json,
    schema: &cedar_policy::Schema,
    action: &cedar_policy::EntityUid,
) -> Result<cedar_policy::Context, String> {
    cedar_policy::Context::from_json_value(value_from_json(v), Some((schema, action)))
        .map_err(|e| e.to_string())
}

/// One Cedar decision.
#[derive(Clone, Copy, Debug, PartialEq, Eq, Structural)]
pub enum Decision {
    Allow,
    Deny,
}

/// What one evaluation produced: the decision, the ids of the policies that
/// determined it, and any evaluation errors.
pub struct EvalResponse {
    pub decision: Decision,
    pub reason: Vec<String>,
    pub errors: Vec<String>,
}

/// Relies on cedar_policy::Request::new and Authorizer::is_authorized:
/// builds a schema-validated request and evaluates it, handing back the
/// decision and diagnostics as plain values. Fails exactly when the request
/// does not conform to the schema.
#[verifier::external_body]
pub fn authorize_request(
    schema: &cedar_policy::Schema,
    policies: &cedar_policy::PolicySet,
    entities: &cedar_policy::Entities,
    principal: &cedar_policy::EntityUid,
    action: &cedar_policy::EntityUid,
    resource: &cedar_policy::EntityUid,
    context: &cedar_policy::Context,
) -> Result<EvalResponse, String> {
    let request = cedar_policy::Request::new(
        principal.clone(), action.clone(), resource.clone(), context.clone(), Some(schema),
    ).map_err(|e| e.to_string())?;
    let response = cedar_policy::Authorizer::new().is_authorized(&request, policies, entities);
    let decision = match response.decision() {
        cedar_policy::Decision::Allow => Decision::Allow,
        cedar_policy::Decision::Deny => Decision::Deny,
    };
    let reason = response.diagnostics().reason().map(|p| p.to_string()).collect();
    let errors = response.diagnostics().errors().map(|e| e.to_string()).collect();
    Ok(EvalResponse { decision, reason, errors })
}

} // verus!
