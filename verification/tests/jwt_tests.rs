use base64::Engine;
use cedarling_pdp::json::Json;
use cedarling_pdp::jwt::check_missing_claims;
use cedarling_pdp::jwt::decode;
use cedarling_pdp::jwt::decode_and_validate_token;
use cedarling_pdp::jwt::Alg;
use cedarling_pdp::jwt::JwtValidatorError;
use cedarling_pdp::jwt::KeyService;

const SECRET: &[u8] = b"a shared test signing secret";
const KID: &str = "some_hs256_key";
const NOW: u64 = 1_700_000_000;

fn claims_value(extra: &[(&str, serde_json::Value)]) -> serde_json::Value {
    let mut m = serde_json::Map::new();
    m.insert(
        "sub".to_string(),
        serde_json::Value::String("1234567890".to_string()),
    );
    m.insert(
        "name".to_string(),
        serde_json::Value::String("John Doe".to_string()),
    );
    m.insert("iat".to_string(), serde_json::Value::from(1516239022u64));
    for (k, v) in extra {
        m.insert(k.to_string(), v.clone());
    }
    serde_json::Value::Object(m)
}

fn generate_token_using_claims(claims: &serde_json::Value) -> String {
    let mut header = jsonwebtoken::Header::new(jsonwebtoken::Algorithm::HS256);
    header.kid = Some(KID.to_string());
    jsonwebtoken::encode(
        &header,
        claims,
        &jsonwebtoken::EncodingKey::from_secret(SECRET),
    )
    .expect("Should generate token using keys")
}

fn key_service() -> KeyService {
    let k = base64::engine::general_purpose::URL_SAFE_NO_PAD.encode(SECRET);
    let jwks = format!(
        "{{\"test_idp\": [{{\"kty\": \"oct\", \"kid\": \"{}\", \"k\": \"{}\"}}]}}",
        KID, k
    );
    KeyService::new_from_str(&jwks).expect("Should create KeyService")
}

// Keys in the order the token writes them.
fn expected_claims(extra: &[(&str, Json)]) -> Json {
    let mut entries: Vec<(String, Json)> = vec![
        ("sub".to_string(), Json::Str("1234567890".to_string())),
        ("name".to_string(), Json::Str("John Doe".to_string())),
        ("iat".to_string(), Json::Int(1516239022)),
    ];
    for (k, v) in extra {
        entries.push((k.to_string(), v.duplicate()));
    }
    Json::Obj(entries)
}

#[test]
fn can_decode_jwt() {
    let claims = claims_value(&[]);
    let token = generate_token_using_claims(&claims);

    let result = decode(&token).expect("Should decode JWT");

    assert_eq!(result, expected_claims(&[]));
}

#[test]
fn can_decode_and_validate_jwt() {
    let claims = claims_value(&[]);
    let token = generate_token_using_claims(&claims);

    let key_service = key_service();

    let result = decode_and_validate_token(&token, &vec![Alg::HS256], &key_service, NOW)
        .expect("Should decode and validate token");

    assert_eq!(result, expected_claims(&[]));
}

#[test]
fn errors_on_expired_token() {
    let claims = claims_value(&[("exp", serde_json::Value::from(0u64))]);
    let token = generate_token_using_claims(&claims);

    let key_service = key_service();

    let result = decode_and_validate_token(&token, &vec![Alg::HS256], &key_service, NOW);

    assert!(
        matches!(result, Err(JwtValidatorError::ExpiredToken)),
        "Expected validation to fail due to the token being expired."
    );
}

#[test]
fn errors_on_immature_token() {
    let claims = claims_value(&[("nbf", serde_json::Value::from(u64::MAX))]);
    let token = generate_token_using_claims(&claims);

    let key_service = key_service();

    let result = decode_and_validate_token(&token, &vec![Alg::HS256], &key_service, NOW);

    assert!(
        matches!(result, Err(JwtValidatorError::ImmatureToken)),
        "Expected validation to fail due to the token being immature."
    );
}

#[test]
fn can_check_missing_claims() {
    let claims = expected_claims(&[]);

    // Base case where all required claims are present
    let required_claims: Vec<String> = ["sub", "name", "iat"].map(|x| x.to_string()).to_vec();
    let result =
        check_missing_claims(claims.duplicate(), &required_claims).expect("Expected check to be successful");
    assert_eq!(result, claims);

    // Error case where `nbf` is missing from the token.
    let required_claims: Vec<String> =
        ["sub", "name", "iat", "nbf"].map(|x| x.to_string()).to_vec();
    let result = check_missing_claims(claims.duplicate(), &required_claims);
    assert!(
        matches!(
            result,
            Err(JwtValidatorError::MissingClaims(missing_claims))
            if missing_claims == Vec::from(["nbf".to_string()])
        ),
        "Expected an error due to missing `nbf` claim"
    );
}

#[test]
fn errors_on_unknown_key_and_bad_signature() {
    let claims = claims_value(&[]);
    let token = generate_token_using_claims(&claims);

    // No key registered under the token's kid.
    let other = base64::engine::general_purpose::URL_SAFE_NO_PAD.encode(b"other-secret");
    let jwks = format!(
        "{{\"test_idp\": [{{\"kty\": \"oct\", \"kid\": \"another_key\", \"k\": \"{}\"}}]}}",
        other
    );
    let service = KeyService::new_from_str(&jwks).expect("Should create KeyService");
    let result = decode_and_validate_token(&token, &vec![Alg::HS256], &service, NOW);
    assert!(matches!(result, Err(JwtValidatorError::KeyNotFound)));

    // A key under the right kid, but with the wrong secret.
    let jwks = format!(
        "{{\"test_idp\": [{{\"kty\": \"oct\", \"kid\": \"{}\", \"k\": \"{}\"}}]}}",
        KID, other
    );
    let service = KeyService::new_from_str(&jwks).expect("Should create KeyService");
    let result = decode_and_validate_token(&token, &vec![Alg::HS256], &service, NOW);
    assert!(matches!(result, Err(JwtValidatorError::InvalidSignature)));

    // An algorithm outside the accepted set.
    let service = key_service();
    let result = decode_and_validate_token(&token, &vec![Alg::RS256], &service, NOW);
    assert!(matches!(result, Err(JwtValidatorError::UnsupportedAlg(_))));

    // Not a compact JWT at all.
    let result = decode_and_validate_token("not-a-token", &vec![Alg::HS256], &service, NOW);
    assert!(matches!(result, Err(JwtValidatorError::MalformedJwt)));
}

#[test]
fn issuer_refresh_replaces_keys_atomically() {
    let mut service = key_service();
    let token = generate_token_using_claims(&claims_value(&[]));
    assert!(decode_and_validate_token(&token, &vec![Alg::HS256], &service, NOW).is_ok());

    // a failed refresh leaves the prior keyset in place
    let result = service.update_issuer("test_idp".to_string(), "not json at all");
    assert!(result.is_err());
    assert!(decode_and_validate_token(&token, &vec![Alg::HS256], &service, NOW).is_ok());

    // a successful refresh replaces the keyset
    let other = base64::engine::general_purpose::URL_SAFE_NO_PAD.encode(b"a different secret");
    let keys_doc = format!(
        "[{{\"kty\": \"oct\", \"kid\": \"fresh_key\", \"k\": \"{}\"}}]",
        other
    );
    service
        .update_issuer("test_idp".to_string(), &keys_doc)
        .expect("the refresh should succeed");
    let result = decode_and_validate_token(&token, &vec![Alg::HS256], &service, NOW);
    assert!(matches!(result, Err(JwtValidatorError::KeyNotFound)));
}

#[test]
fn key_of_another_family_cannot_validate_an_hmac_token() {
    let claims = claims_value(&[]);
    let token = generate_token_using_claims(&claims);

    // an RSA key registered under the token's kid: the families mismatch,
    // so validation reports an invalid signature instead of aborting
    let n = base64::engine::general_purpose::URL_SAFE_NO_PAD.encode([7u8; 256]);
    let jwks = format!(
        "{{\"test_idp\": [{{\"kty\": \"RSA\", \"kid\": \"{}\", \"n\": \"{}\", \"e\": \"AQAB\"}}]}}",
        KID, n
    );
    let service = KeyService::new_from_str(&jwks).expect("Should create KeyService");
    let result = decode_and_validate_token(&token, &vec![Alg::HS256], &service, NOW);
    assert!(matches!(result, Err(JwtValidatorError::InvalidSignature)));
}
