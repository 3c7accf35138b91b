use base64::Engine;
use cedarling_pdp::authz::entities::create_resource_entity;
use cedarling_pdp::authz::entities::ResourceData;
use cedarling_pdp::codec::parse_json;
use cedarling_pdp::authz::Authz;
use cedarling_pdp::authz::AuthzConfig;
use cedarling_pdp::authz::AuthorizationConfig;
use cedarling_pdp::authz::AuthorizeError;
use cedarling_pdp::authz::JwtConfig;
use cedarling_pdp::authz::Request;
use cedarling_pdp::authz::WorkloadUserOperator;
use cedarling_pdp::cedar::Decision;
use cedarling_pdp::facade::BootstrapConfig;
use cedarling_pdp::facade::Cedarling;
use cedarling_pdp::facade::PolicyStoreSource;
use cedarling_pdp::json::Json;
use cedarling_pdp::jwt::Alg;
use cedarling_pdp::jwt::JwtValidatorError;
use cedarling_pdp::jwt::KeyService;
use cedarling_pdp::log::LogEntry;
use cedarling_pdp::log::LogSink;
use cedarling_pdp::metrics::MetricCounter;
use cedarling_pdp::metrics::MetricRate;
use cedarling_pdp::policy_store::PolicyStore;

const NOW: u64 = 1_700_000_000;
const SECRET: &[u8] = b"a shared test signing secret";

fn schema_json(context_attrs: &str) -> String {
    format!(
        r#"{{
  "Jans": {{
    "entityTypes": {{
      "Role": {{}},
      "User": {{
        "memberOfTypes": ["Role"],
        "shape": {{"type": "Record", "attributes": {{
          "sub": {{"type": "String", "required": false}},
          "country": {{"type": "String", "required": false}},
          "jti": {{"type": "String", "required": false}},
          "role": {{"type": "Set", "element": {{"type": "String"}}, "required": false}}
        }}}}
      }},
      "Workload": {{
        "shape": {{"type": "Record", "attributes": {{
          "client_id": {{"type": "String", "required": false}},
          "jti": {{"type": "String", "required": false}}
        }}}}
      }},
      "Access_token": {{
        "shape": {{"type": "Record", "attributes": {{
          "client_id": {{"type": "String", "required": false}}
        }}}}
      }},
      "id_token": {{
        "shape": {{"type": "Record", "attributes": {{
          "country": {{"type": "String", "required": false}},
          "role": {{"type": "Set", "element": {{"type": "String"}}, "required": false}}
        }}}}
      }},
      "Userinfo_token": {{
        "shape": {{"type": "Record", "attributes": {{
          "sub": {{"type": "String", "required": false}}
        }}}}
      }},
      "Issue": {{
        "shape": {{"type": "Record", "attributes": {{
          "org_id": {{"type": "String", "required": false}}
        }}}}
      }}
    }},
    "actions": {{
      "Update": {{
        "appliesTo": {{
          "principalTypes": ["User", "Workload"],
          "resourceTypes": ["Issue"],
          "context": {{"type": "Record", "attributes": {{{context_attrs}}}}}
        }}
      }}
    }}
  }}
}}"#
    )
}

fn store_json(policy: &str, context_attrs: &str) -> String {
    let policy_text = serde_json::Value::String(policy.to_string()).to_string();
    format!(
        r#"{{
  "id": "scenario-store",
  "cedar_version": "v4.0.0",
  "schema": {schema},
  "policies": {{
    "p1": {{
      "description": "scenario policy",
      "creation_date": "2024-11-07T07:49:11.813002",
      "policy_content": {policy_text}
    }}
  }},
  "trusted_issuers": {{}}
}}"#,
        schema = schema_json(context_attrs),
    )
}

fn authz_config(use_workload: bool, use_user: bool, op: WorkloadUserOperator) -> AuthorizationConfig {
    AuthorizationConfig {
        use_workload_principal: use_workload,
        use_user_principal: use_user,
        user_workload_operator: op,
        mapping_workload: None,
        mapping_user: None,
        mapping_role: None,
        mapping_access_token: None,
        mapping_id_token: None,
        mapping_userinfo_token: None,
        decision_log_workload_claims: vec!["client_id".to_string()],
        decision_log_user_claims: vec!["sub".to_string(), "country".to_string()],
        decision_log_default_jwt_id: "jti".to_string(),
    }
}

fn engine(policy: &str, use_workload: bool, use_user: bool, op: WorkloadUserOperator) -> Authz {
    let store = PolicyStore::from_json_str(&store_json(policy, "")).expect("store should parse");
    Authz::new(AuthzConfig {
        pdp_id: "pdp-test".to_string(),
        application_name: "scenario-app".to_string(),
        policy_store: store,
        jwt_config: JwtConfig {
            enabled: false,
            algs: vec![],
            required_claims: vec![],
        },
        authorization: authz_config(use_workload, use_user, op),
        key_service: KeyService::new_empty(),
    })
}

fn b64url(bytes: &[u8]) -> String {
    base64::engine::general_purpose::URL_SAFE_NO_PAD.encode(bytes)
}

/// A compact token for decode-only mode: a header, the claims, and a
/// placeholder signature segment.
fn unsigned_token(claims: &str) -> String {
    let header = r#"{"alg":"HS256","typ":"JWT"}"#;
    format!(
        "{}.{}.{}",
        b64url(header.as_bytes()),
        b64url(claims.as_bytes()),
        b64url(b"unchecked")
    )
}

fn request(
    access: Option<&str>,
    id: Option<&str>,
    userinfo: Option<&str>,
) -> Request {
    Request {
        access_token: access.map(|c| unsigned_token(c)),
        id_token: id.map(|c| unsigned_token(c)),
        userinfo_token: userinfo.map(|c| unsigned_token(c)),
        action: "Jans::Action::\"Update\"".to_string(),
        context: Json::Obj(vec![]),
        resource: ResourceData {
            id: "R1".to_string(),
            resource_type: "Jans::Issue".to_string(),
            payload: vec![],
        },
    }
}

const USER_COUNTRY_POLICY: &str = "permit(principal is Jans::User, action == Jans::Action::\"Update\", resource == Jans::Issue::\"R1\") when { principal.country == \"Easter Island\" };";

#[test]
fn happy_path_user_principal_only() {
    let authz = engine(USER_COUNTRY_POLICY, false, true, WorkloadUserOperator::And);
    let req = request(
        None,
        Some(r#"{"country":"Easter Island","jti":"idtkn"}"#),
        Some(r#"{"sub":"drofio","jti":"uitkn"}"#),
    );
    let result = authz.authorize(&req, NOW).expect("authorize should succeed");
    assert!(result.is_allowed());
    assert_eq!(result.decision, Decision::Allow);
    let user = result.user.expect("the user view should have been evaluated");
    assert_eq!(user.decision, Decision::Allow);
    assert!(result.workload.is_none(), "the workload view is disabled");
    assert_eq!(user.reason, vec!["p1".to_string()]);
}

#[test]
fn expired_access_token_fails_and_logs_deny() {
    // Token validation on: an access token with exp in the past is refused.
    let mut header = jsonwebtoken::Header::new(jsonwebtoken::Algorithm::HS256);
    header.kid = Some("k1".to_string());
    let mut claims = serde_json::Map::new();
    claims.insert(
        "client_id".to_string(),
        serde_json::Value::String("w1".to_string()),
    );
    claims.insert(
        "jti".to_string(),
        serde_json::Value::String("attkn".to_string()),
    );
    claims.insert("exp".to_string(), serde_json::Value::from(0u64));
    let token = jsonwebtoken::encode(
        &header,
        &serde_json::Value::Object(claims),
        &jsonwebtoken::EncodingKey::from_secret(SECRET),
    )
    .expect("should sign the token");

    let jwks = format!(
        "{{\"test_idp\": [{{\"kty\": \"oct\", \"kid\": \"k1\", \"k\": \"{}\"}}]}}",
        b64url(SECRET)
    );
    let mut cedarling = Cedarling::new(BootstrapConfig {
        application_name: "scenario-app".to_string(),
        pdp_id: "pdp-test".to_string(),
        log_sink: LogSink::Lock,
        policy_store_source: PolicyStoreSource::Json(store_json(USER_COUNTRY_POLICY, "")),
        jwt_config: JwtConfig {
            enabled: true,
            algs: vec![Alg::HS256],
            required_claims: vec![],
        },
        authorization: authz_config(true, false, WorkloadUserOperator::And),
        jwks: Some(jwks),
    })
    .expect("the engine should come up");

    let req = Request {
        access_token: Some(token),
        id_token: None,
        userinfo_token: None,
        action: "Jans::Action::\"Update\"".to_string(),
        context: Json::Obj(vec![]),
        resource: ResourceData {
            id: "R1".to_string(),
            resource_type: "Jans::Issue".to_string(),
            payload: vec![],
        },
    };
    let result = cedarling.authorize(&req);
    assert!(matches!(
        result,
        Err(AuthorizeError::ProcessTokens(JwtValidatorError::ExpiredToken))
    ));

    // the failed validation is metered: one request, no validated token,
    // one failed validation, no allow
    let meter = cedarling.metrics();
    assert_eq!(meter.counter_value(MetricCounter::TotalAuthzRequests), 1);
    assert_eq!(meter.counter_value(MetricCounter::TotalJwtsValidated), 0);
    assert_eq!(meter.rate_value(MetricRate::ValidJwtRate), (0, 1));
    assert_eq!(meter.rate_value(MetricRate::AuthzAllowRate), (0, 1));

    // the decision log records the call as a deny
    let logs = cedarling.drain_logs();
    let decision = logs
        .iter()
        .find_map(|e| match e {
            LogEntry::Decision(d) => Some(d),
            _ => None,
        })
        .expect("a decision record should have been written");
    assert_eq!(decision.decision, Decision::Deny);
    assert!(decision.error.is_some());
}

#[test]
fn missing_workload_principal_is_rejected() {
    let authz = engine(USER_COUNTRY_POLICY, true, false, WorkloadUserOperator::And);
    let req = request(None, None, Some(r#"{"sub":"drofio","jti":"uitkn"}"#));
    let result = authz.authorize(&req, NOW);
    assert!(matches!(
        result,
        Err(AuthorizeError::MissingPrincipal(view)) if view == "Workload"
    ));
}

#[test]
fn context_schema_violation_is_rejected_before_evaluation() {
    let store = store_json(
        USER_COUNTRY_POLICY,
        r#""thingz": {"type": "String"}"#,
    );
    let store = PolicyStore::from_json_str(&store).expect("store should parse");
    let authz = Authz::new(AuthzConfig {
        pdp_id: "pdp-test".to_string(),
        application_name: "scenario-app".to_string(),
        policy_store: store,
        jwt_config: JwtConfig {
            enabled: false,
            algs: vec![],
            required_claims: vec![],
        },
        authorization: authz_config(false, true, WorkloadUserOperator::And),
        key_service: KeyService::new_empty(),
    });
    let mut req = request(
        None,
        Some(r#"{"country":"Easter Island","jti":"idtkn"}"#),
        Some(r#"{"sub":"drofio","jti":"uitkn"}"#),
    );
    req.context = Json::Obj(vec![("thingz".to_string(), Json::Int(42))]);
    let result = authz.authorize(&req, NOW);
    match result {
        Err(AuthorizeError::CreateContext(_)) => {},
        Err(other) => panic!("expected a context error, got: {other:?}"),
        Ok(out) => panic!(
            "expected a context error, got a decision: allowed={}",
            out.is_allowed()
        ),
    }
}

#[test]
fn role_based_allow_builds_both_roles() {
    let policy = "permit(principal in Jans::Role::\"admin\", action, resource);";
    let authz = engine(policy, false, true, WorkloadUserOperator::And);
    let req = request(
        None,
        Some(r#"{"role":["admin","member"],"jti":"idtkn"}"#),
        Some(r#"{"sub":"drofio","jti":"uitkn"}"#),
    );

    // two Role entities, and the User's parents carry both
    let tokens = authz.decode_tokens(&req, NOW).expect("tokens should decode");
    let data = authz
        .build_entities(&req, &tokens)
        .expect("entities should build");
    assert_eq!(data.role.len(), 2);
    let mut role_ids: Vec<String> = data.role.iter().map(|r| r.id.clone()).collect();
    role_ids.sort();
    assert_eq!(role_ids, vec!["admin".to_string(), "member".to_string()]);
    let user = data.user.as_ref().expect("the user entity should exist");
    assert_eq!(user.parents.len(), 2);

    let result = authz.authorize(&req, NOW).expect("authorize should succeed");
    assert_eq!(result.decision, Decision::Allow);
}

#[test]
fn duplicate_role_names_collapse() {
    let policy = "permit(principal in Jans::Role::\"admin\", action, resource);";
    let authz = engine(policy, false, true, WorkloadUserOperator::And);
    let req = request(
        None,
        Some(r#"{"role":["admin"],"jti":"idtkn"}"#),
        Some(r#"{"sub":"drofio","role":"admin","jti":"uitkn"}"#),
    );
    let tokens = authz.decode_tokens(&req, NOW).expect("tokens should decode");
    let data = authz
        .build_entities(&req, &tokens)
        .expect("entities should build");
    assert_eq!(data.role.len(), 1);
    assert_eq!(data.role[0].id, "admin");
}

#[test]
fn combine_operator_or_allows_when_user_allows() {
    let policy = "permit(principal is Jans::User, action, resource);";
    let authz = engine(policy, true, true, WorkloadUserOperator::Or);
    let req = request(
        Some(r#"{"client_id":"w1","jti":"attkn"}"#),
        None,
        Some(r#"{"sub":"drofio","jti":"uitkn"}"#),
    );
    let result = authz.authorize(&req, NOW).expect("authorize should succeed");
    let workload = result.workload.as_ref().expect("workload view evaluated");
    let user = result.user.as_ref().expect("user view evaluated");
    assert_eq!(workload.decision, Decision::Deny);
    assert_eq!(user.decision, Decision::Allow);
    assert_eq!(result.decision, Decision::Allow);

    // the same views under AND deny
    let authz = engine(policy, true, true, WorkloadUserOperator::And);
    let result = authz.authorize(&req, NOW).expect("authorize should succeed");
    assert_eq!(result.decision, Decision::Deny);
}

#[test]
fn authorize_is_deterministic_for_fixed_inputs_and_clock() {
    let authz = engine(USER_COUNTRY_POLICY, false, true, WorkloadUserOperator::And);
    let req = request(
        None,
        Some(r#"{"country":"Easter Island","jti":"idtkn"}"#),
        Some(r#"{"sub":"drofio","jti":"uitkn"}"#),
    );
    let first = authz.authorize(&req, NOW).expect("authorize should succeed");
    let second = authz.authorize(&req, NOW).expect("authorize should succeed");
    assert_eq!(first.decision, second.decision);
    assert_eq!(
        first.user.as_ref().map(|u| u.decision),
        second.user.as_ref().map(|u| u.decision)
    );
    assert_eq!(
        first.user.as_ref().map(|u| u.reason.clone()),
        second.user.as_ref().map(|u| u.reason.clone())
    );
}

#[test]
fn unparseable_action_is_rejected() {
    let authz = engine(USER_COUNTRY_POLICY, false, true, WorkloadUserOperator::And);
    let mut req = request(
        None,
        Some(r#"{"country":"Easter Island","jti":"idtkn"}"#),
        Some(r#"{"sub":"drofio","jti":"uitkn"}"#),
    );
    req.action = "this is no entity uid".to_string();
    let result = authz.authorize(&req, NOW);
    assert!(matches!(result, Err(AuthorizeError::Action)));
}

#[test]
fn workload_and_user_tie_breaks() {
    let policy = "permit(principal is Jans::User, action, resource);";
    let authz = engine(policy, true, true, WorkloadUserOperator::And);
    let req = request(
        Some(r#"{"client_id":"from-access","jti":"attkn"}"#),
        Some(r#"{"client_id":"from-id","sub":"from-id-sub","jti":"idtkn"}"#),
        Some(r#"{"sub":"from-userinfo","jti":"uitkn"}"#),
    );
    let tokens = authz.decode_tokens(&req, NOW).expect("tokens should decode");
    let data = authz
        .build_entities(&req, &tokens)
        .expect("entities should build");

    // the access token wins conflicting workload attributes
    let workload = data.workload.as_ref().expect("workload entity");
    assert_eq!(workload.id, "from-access");
    let client_id = workload
        .attrs
        .iter()
        .find(|(k, _)| k == "client_id")
        .map(|(_, v)| v.duplicate());
    assert_eq!(client_id, Some(Json::Str("from-access".to_string())));

    // the userinfo token wins conflicting user attributes
    let user = data.user.as_ref().expect("user entity");
    assert_eq!(user.id, "from-userinfo");
}

#[test]
fn resource_attributes_are_coerced_against_the_schema() {
    let schema = parse_json(
        r#"{"Jans": {"entityTypes": {"Issue": {"shape": {"type": "Record", "attributes": {
            "org_id": {"type": "String"},
            "level": {"type": "Long", "required": false}
        }}}}}}"#,
    )
    .expect("schema JSON should parse");

    // a present, well-typed payload comes through
    let ok = create_resource_entity(
        &ResourceData {
            id: "R1".to_string(),
            resource_type: "Jans::Issue".to_string(),
            payload: vec![
                ("org_id".to_string(), Json::Str("org1".to_string())),
                ("level".to_string(), Json::Int(3)),
                ("unrelated".to_string(), Json::Bool(true)),
            ],
        },
        &schema,
    )
    .expect("the resource should build");
    assert_eq!(ok.attrs.len(), 2, "undeclared attributes are dropped");

    // a required attribute must be present
    let missing = create_resource_entity(
        &ResourceData {
            id: "R1".to_string(),
            resource_type: "Jans::Issue".to_string(),
            payload: vec![],
        },
        &schema,
    );
    assert!(missing.is_err());

    // a value of the wrong kind is refused
    let wrong = create_resource_entity(
        &ResourceData {
            id: "R1".to_string(),
            resource_type: "Jans::Issue".to_string(),
            payload: vec![("org_id".to_string(), Json::Int(42))],
        },
        &schema,
    );
    assert!(wrong.is_err());

    // a type the schema does not declare is refused
    let unknown = create_resource_entity(
        &ResourceData {
            id: "R1".to_string(),
            resource_type: "Jans::Unknown".to_string(),
            payload: vec![],
        },
        &schema,
    );
    assert!(unknown.is_err());
}

#[test]
fn facade_authorizes_an_agama_store_and_logs_the_decision() {
    let policy_b64 = base64::engine::general_purpose::STANDARD.encode(USER_COUNTRY_POLICY);
    let schema_b64 = base64::engine::general_purpose::STANDARD.encode(schema_json(""));
    let agama = format!(
        r#"{{
  "cedar_version": "v4.0.0",
  "policy_stores": {{
    "scenario": {{
      "name": "scenario",
      "schema": "{schema_b64}",
      "policies": {{
        "p1": {{
          "description": "scenario policy",
          "creation_date": "2024-11-07T07:49:11.813002",
          "policy_content": "{policy_b64}"
        }}
      }},
      "trusted_issuers": {{}}
    }}
  }}
}}"#
    );
    let mut cedarling = Cedarling::new(BootstrapConfig {
        application_name: "scenario-app".to_string(),
        pdp_id: "pdp-test".to_string(),
        log_sink: LogSink::Lock,
        policy_store_source: PolicyStoreSource::Agama(agama),
        jwt_config: JwtConfig {
            enabled: false,
            algs: vec![],
            required_claims: vec![],
        },
        authorization: authz_config(false, true, WorkloadUserOperator::And),
        jwks: None,
    })
    .expect("the engine should come up");

    let req = request(
        None,
        Some(r#"{"country":"Easter Island","jti":"idtkn"}"#),
        Some(r#"{"sub":"drofio","jti":"uitkn"}"#),
    );
    let result = cedarling.authorize(&req).expect("authorize should succeed");
    assert!(result.is_allowed());

    // the call was metered: one request, one allow; with token validation
    // disabled nothing counts as a validated JWT
    let meter = cedarling.metrics();
    assert_eq!(meter.counter_value(MetricCounter::TotalAuthzRequests), 1);
    assert_eq!(meter.counter_value(MetricCounter::TotalJwtsValidated), 0);
    assert_eq!(meter.rate_value(MetricRate::AuthzAllowRate), (1, 0));
    assert_eq!(meter.rate_value(MetricRate::ValidJwtRate), (0, 0));

    let logs = cedarling.drain_logs();
    // one init record, one decision record
    assert_eq!(logs.len(), 2);
    let decision = logs
        .iter()
        .find_map(|e| match e {
            LogEntry::Decision(d) => Some(d),
            _ => None,
        })
        .expect("a decision record should have been written");
    assert_eq!(decision.decision, Decision::Allow);
    assert_eq!(decision.policystore_id, "scenario");
    let user_claims = decision.user_claims.as_ref().expect("projected user claims");
    assert_eq!(user_claims.len(), 2);
    assert_eq!(user_claims[0].0, "sub");
    assert_eq!(user_claims[0].1, Json::Str("drofio".to_string()));
    assert_eq!(user_claims[1].0, "country");
    assert_eq!(user_claims[1].1, Json::Str("Easter Island".to_string()));
    let id_info = decision.id_token.as_ref().expect("id token info");
    assert_eq!(id_info.jti.as_deref(), Some("idtkn"));
}
