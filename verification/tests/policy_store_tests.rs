use base64::Engine;
use cedarling_pdp::codec::parse_json;
use cedarling_pdp::json::Json;
use cedarling_pdp::policy_store::AgamaPolicyStore;
use cedarling_pdp::policy_store::PolicyStore;
use cedarling_pdp::policy_store::PolicyStoreError;
use cedarling_pdp::policy_store::SemverVersion;
use cedarling_pdp::policy_store::TokenEntityMetadata;
use cedarling_pdp::policy_store::TrustedIssuerMetadata;

const ADMIN_POLICY: &str = r#"@id("Admin")
permit
(
 principal == somecompany::store::Role::"Admin",
 action in [somecompany::store::Action::"DELETE",somecompany::store::Action::"GET",somecompany::store::Action::"PUT"],
 resource == somecompany::store::HTTP_Request::"root"
)
;"#;

const MEMBER_POLICY: &str = r#"@id("Member")
permit
(
 principal == somecompany::store::Role::"Member",
 action in [somecompany::store::Action::"PUT"],
 resource == somecompany::store::HTTP_Request::"root"
)
;"#;

const STORE_SCHEMA: &str = r#"{
  "somecompany::store": {
    "entityTypes": {
      "Role": {},
      "HTTP_Request": {}
    },
    "actions": {
      "DELETE": {"appliesTo": {"principalTypes": ["Role"], "resourceTypes": ["HTTP_Request"]}},
      "GET": {"appliesTo": {"principalTypes": ["Role"], "resourceTypes": ["HTTP_Request"]}},
      "PUT": {"appliesTo": {"principalTypes": ["Role"], "resourceTypes": ["HTTP_Request"]}}
    }
  }
}"#;

fn b64(s: &str) -> String {
    base64::engine::general_purpose::STANDARD.encode(s.as_bytes())
}

fn agama_store_json() -> String {
    format!(
        r#"{{
  "cedar_version": "v4.0.0",
  "policy_stores": {{
    "store1": {{
      "name": "jans::store",
      "description": "",
      "schema": "{schema}",
      "policies": {{
        "fbd921a51b8b78b3b8af5f93e94fbdc57f3e2238b29f": {{
          "description": "Admin",
          "creation_date": "2024-11-07T07:49:11.813002",
          "policy_content": "{admin}"
        }},
        "1a2dd16865cf220ea9807608c6648a457bdf4057c4a4": {{
          "description": "Member",
          "creation_date": "2024-11-07T07:50:05.520757",
          "policy_content": "{member}"
        }}
      }},
      "trusted_issuers": {{}}
    }}
  }}
}}"#,
        schema = b64(STORE_SCHEMA),
        admin = b64(ADMIN_POLICY),
        member = b64(MEMBER_POLICY),
    )
}

#[test]
fn can_parse_agama_policy_store() {
    let policy_store_json = agama_store_json();

    let parsed = AgamaPolicyStore::parse(&policy_store_json).expect("should parse Agama Policy Store");

    assert_eq!(
        parsed.name, "jans::store",
        "Expected name to be parsed correctly: {:?}",
        parsed.name
    );

    assert_eq!(
        parsed.description, None,
        "Expected description to be parsed correctly: {:?}",
        parsed.description
    );

    assert_eq!(
        parsed.cedar_version,
        Some(SemverVersion { major: 4, minor: 0, patch: 0 }),
        "Expected Cedar Version to be parsed correctly: {:?}",
        parsed.cedar_version
    );

    let expected_policies = [
        (
            "fbd921a51b8b78b3b8af5f93e94fbdc57f3e2238b29f",
            "Admin",
            "2024-11-07T07:49:11.813002",
            ADMIN_POLICY,
        ),
        (
            "1a2dd16865cf220ea9807608c6648a457bdf4057c4a4",
            "Member",
            "2024-11-07T07:50:05.520757",
            MEMBER_POLICY,
        ),
    ];
    for (policy_id, description, creation_date, text) in expected_policies {
        let parsed_policy = parsed
            .policies
            .iter()
            .find(|(id, _)| id == policy_id)
            .map(|(_, p)| p)
            .expect("Expected to find a policy store with the same id.");

        assert_eq!(parsed_policy.description, description);
        assert_eq!(parsed_policy.creation_date, creation_date);
        assert_eq!(parsed_policy.policy_src, text);
    }

    assert_eq!(parsed.trusted_issuers.len(), 0);
}

#[test]
fn agama_store_count_must_be_one() {
    let none = r#"{"policy_stores": {}}"#;
    assert!(matches!(
        AgamaPolicyStore::parse(none),
        Err(PolicyStoreError::NoPolicyStore)
    ));

    let two = format!(
        r#"{{"policy_stores": {{
            "a": {{"name": "one", "schema": "{schema}", "policies": {{}}, "trusted_issuers": {{}}}},
            "b": {{"name": "two", "schema": "{schema}", "policies": {{}}, "trusted_issuers": {{}}}}
        }}}}"#,
        schema = b64(STORE_SCHEMA)
    );
    assert!(matches!(
        AgamaPolicyStore::parse(&two),
        Err(PolicyStoreError::MultiplePolicyStores)
    ));
}

#[test]
fn agama_store_rejects_bad_content() {
    // schema that is not base64
    let bad_b64 = r#"{"policy_stores": {"a": {"name": "x", "schema": "%%%", "policies": {}, "trusted_issuers": {}}}}"#;
    assert!(matches!(
        AgamaPolicyStore::parse(bad_b64),
        Err(PolicyStoreError::BadBase64)
    ));

    // schema that decodes but is no cedar schema
    let not_schema = format!(
        r#"{{"policy_stores": {{"a": {{"name": "x", "schema": "{s}", "policies": {{}}, "trusted_issuers": {{}}}}}}}}"#,
        s = b64("{\"this is\": \"no schema\"}")
    );
    assert!(matches!(
        AgamaPolicyStore::parse(&not_schema),
        Err(PolicyStoreError::SchemaParse)
    ));

    // policy text that cedar refuses
    let bad_policy = format!(
        r#"{{"policy_stores": {{"a": {{"name": "x", "schema": "{s}", "policies": {{
            "p1": {{"description": "d", "creation_date": "t", "policy_content": "{p}"}}
        }}, "trusted_issuers": {{}}}}}}}}"#,
        s = b64(STORE_SCHEMA),
        p = b64("this is not cedar")
    );
    assert!(matches!(
        AgamaPolicyStore::parse(&bad_policy),
        Err(PolicyStoreError::PolicyParse)
    ));

    // a cedar_version that is not semver
    let bad_version = format!(
        r#"{{"cedar_version": "vfour", "policy_stores": {{"a": {{"name": "x", "schema": "{s}", "policies": {{}}, "trusted_issuers": {{}}}}}}}}"#,
        s = b64(STORE_SCHEMA)
    );
    assert!(matches!(
        AgamaPolicyStore::parse(&bad_version),
        Err(PolicyStoreError::InvalidSemver)
    ));
}

#[test]
fn can_parse_trusted_issuer_metadata() {
    let metadata_json = r#"{
        "name": "Google",
        "description": "Consumer IDP",
        "openid_configuration_endpoint": "https://accounts.google.com/.well-known/openid-configuration",
        "access_tokens": {
            "user_id": "",
            "role_mapping": "",
            "claim_mapping": {}
        },
        "id_tokens": {
            "user_id": "sub",
            "role_mapping": "role",
            "claim_mapping": {}
        },
        "userinfo_tokens": {
            "user_id": "",
            "role_mapping": "",
            "claim_mapping": {}
        },
        "tx_tokens": {
            "user_id": "",
            "role_mapping": "",
            "claim_mapping": {}
        }
    }"#;

    let parsed = TrustedIssuerMetadata::from_json_str(metadata_json)
        .expect("Should parse Trusted Issuer Metadata JSON");

    let expected = TrustedIssuerMetadata {
        name: "Google".to_string(),
        description: "Consumer IDP".to_string(),
        openid_configuration_endpoint:
            "https://accounts.google.com/.well-known/openid-configuration".to_string(),
        access_tokens: TokenEntityMetadata {
            user_id: None,
            role_mapping: None,
            claim_mapping: Vec::new(),
        },
        id_tokens: TokenEntityMetadata {
            user_id: Some("sub".to_string()),
            role_mapping: Some("role".to_string()),
            claim_mapping: Vec::new(),
        },
        userinfo_tokens: TokenEntityMetadata {
            user_id: None,
            role_mapping: None,
            claim_mapping: Vec::new(),
        },
        tx_tokens: TokenEntityMetadata {
            user_id: None,
            role_mapping: None,
            claim_mapping: Vec::new(),
        },
    };

    assert_eq!(
        parsed, expected,
        "Expected to parse Trusted Issuer Metadata to be parsed correctly: {:?}",
        parsed
    );
}

fn json_to_text(v: &Json) -> String {
    match v {
        Json::Null => "null".to_string(),
        Json::Bool(b) => format!("{}", b),
        Json::Int(i) => format!("{}", i),
        Json::Str(s) => serde_json::Value::String(s.clone()).to_string(),
        Json::Arr(items) => {
            let parts: Vec<String> = items.iter().map(json_to_text).collect();
            format!("[{}]", parts.join(","))
        },
        Json::Obj(entries) => {
            let parts: Vec<String> = entries
                .iter()
                .map(|(k, v)| {
                    format!(
                        "{}:{}",
                        serde_json::Value::String(k.clone()),
                        json_to_text(v)
                    )
                })
                .collect();
            format!("{{{}}}", parts.join(","))
        },
    }
}

#[test]
fn schema_json_round_trips() {
    let store_json = agama_store_json();
    let parsed = AgamaPolicyStore::parse(&store_json).expect("should parse Agama Policy Store");

    // write the schema JSON back out and parse it again
    let text = json_to_text(&parsed.cedar_schema.json);
    let reparsed = parse_json(&text).expect("the schema JSON should parse again");
    assert_eq!(reparsed, parsed.cedar_schema.json);

    // and Cedar still accepts the re-serialized schema
    let native = format!(
        r#"{{"id": "rt", "schema": {text}, "policies": {{}}, "trusted_issuers": {{}}}}"#,
    );
    let store = PolicyStore::from_json_str(&native).expect("Cedar should accept the schema again");
    assert_eq!(store.cedar_schema.json, parsed.cedar_schema.json);
}
