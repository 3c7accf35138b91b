//! JWT validation: splitting a compact token, decoding its header and
//! claims, checking the algorithm, resolving the verification key, checking
//! the signature, and enforcing the temporal and required-claim rules.
//!
//! The signature check itself is cryptography from an outside crate; every
//! rule around it is verified.

use vstd::prelude::*;
use vstd::string::*;

use crate::codec::b64_url_decode;
use crate::codec::b64_url_of;
use crate::codec::json_of;
use crate::codec::parse_json;
use crate::codec::utf8_of;
use crate::codec::utf8_to_string;
use crate::json::field_of;
use crate::json::Json;
use crate::json::JsonV;
use crate::text::find_char;
use crate::text::find_char_in;
use crate::text::lemma_find_char_bounds;

verus! {

/// A signature algorithm the engine accepts.
#[derive(Clone, Copy, Debug, PartialEq, Eq, Structural)]
pub enum Alg {
    HS256,
    HS384,
    HS512,
    RS256,
    RS384,
    RS512,
    ES256,
    ES384,
    EdDSA,
}

/// What an `alg` header value names.
pub open spec fn parse_alg_v(s: Seq<char>) -> Option<Alg> {
    if s == "HS256"@ {
        Some(Alg::HS256)
    } else if s == "HS384"@ {
        Some(Alg::HS384)
    } else if s == "HS512"@ {
        Some(Alg::HS512)
    } else if s == "RS256"@ {
        Some(Alg::RS256)
    } else if s == "RS384"@ {
        Some(Alg::RS384)
    } else if s == "RS512"@ {
        Some(Alg::RS512)
    } else if s == "ES256"@ {
        Some(Alg::ES256)
    } else if s == "ES384"@ {
        Some(Alg::ES384)
    } else if s == "EdDSA"@ {
        Some(Alg::EdDSA)
    } else {
        None
    }
}

/// Parses an `alg` header value.
pub fn parse_alg(s: &String) -> (r: Option<Alg>)
    ensures
        r == parse_alg_v(s@),
{
    if *s == String::from_str("HS256") {
        Some(Alg::HS256)
    } else if *s == String::from_str("HS384") {
        Some(Alg::HS384)
    } else if *s == String::from_str("HS512") {
        Some(Alg::HS512)
    } else if *s == String::from_str("RS256") {
        Some(Alg::RS256)
    } else if *s == String::from_str("RS384") {
        Some(Alg::RS384)
    } else if *s == String::from_str("RS512") {
        Some(Alg::RS512)
    } else if *s == String::from_str("ES256") {
        Some(Alg::ES256)
    } else if *s == String::from_str("ES384") {
        Some(Alg::ES384)
    } else if *s == String::from_str("EdDSA") {
        Some(Alg::EdDSA)
    } else {
        None
    }
}

/// Why a token was rejected.
#[derive(Debug, PartialEq, Eq)]
pub enum JwtValidatorError {
    /// The token is not three base64url segments of JSON, or lacks `alg`.
    MalformedJwt,
    /// The `alg` header is unknown or not in the accepted set.
    UnsupportedAlg(String),
    /// No key matches the token's `kid` or issuer.
    KeyNotFound,
    /// The signature does not verify.
    InvalidSignature,
    /// `exp` is not in the future.
    ExpiredToken,
    /// `nbf` is in the future.
    ImmatureToken,
    /// Required claims that the token lacks.
    MissingClaims(Vec<String>),
    /// The key-set document is not in the expected shape.
    InvalidJwks,
}

/// The three segments of a compact JWT: header, payload, signature.
pub open spec fn jwt_split(token: Seq<char>) -> Option<(Seq<char>, Seq<char>, Seq<char>)> {
    let i1 = find_char(token, '.');
    if i1 == -1 {
        None
    } else {
        let rest = token.skip(i1 + 1);
        let i2 = find_char(rest, '.');
        if i2 == -1 {
            None
        } else {
            Some((token.take(i1), rest.take(i2), rest.skip(i2 + 1)))
        }
    }
}

/// What a base64url segment decodes to as text.
pub open spec fn segment_text(seg: Seq<char>) -> Option<Seq<char>> {
    match b64_url_of(seg) {
        Some(bytes) => utf8_of(bytes),
        None => None,
    }
}

/// What a base64url segment decodes to as JSON.
pub open spec fn segment_json(seg: Seq<char>) -> Option<JsonV> {
    match segment_text(seg) {
        Some(text) => json_of(text),
        None => None,
    }
}

/// The decoded claims of a token, when every layer decodes.
pub open spec fn jwt_payload_json(token: Seq<char>) -> Option<JsonV> {
    match jwt_split(token) {
        Some(parts) => segment_json(parts.1),
        None => None,
    }
}

/// The decoded header of a token, when every layer decodes.
pub open spec fn jwt_header_json(token: Seq<char>) -> Option<JsonV> {
    match jwt_split(token) {
        Some(parts) => segment_json(parts.0),
        None => None,
    }
}

/// Decodes one base64url segment into JSON.
fn decode_segment(seg: &str) -> (r: Option<Json>)
    ensures
        r matches Some(j) ==> segment_json(seg@) == Some(j@),
        r is None ==> segment_json(seg@) is None,
{
    let bytes = match b64_url_decode(seg) {
        Some(b) => b,
        None => {
            return None;
        },
    };
    let text = match utf8_to_string(bytes) {
        Some(t) => t,
        None => {
            return None;
        },
    };
    parse_json(text.as_str())
}

/// Decodes the claims of a compact JWT without any validation.
pub fn decode(token: &str) -> (r: Result<Json, JwtValidatorError>)
    ensures
        r matches Ok(c) ==> jwt_payload_json(token@) == Some(c@),
        r matches Err(e) ==> e is MalformedJwt && jwt_payload_json(token@) is None,
{
    let len = token.unicode_len();
    let d1 = match find_char_in(token, '.') {
        Some(i) => i,
        None => {
            return Err(JwtValidatorError::MalformedJwt);
        },
    };
    proof {
        lemma_find_char_bounds(token@, '.');
    }
    let rest = token.substring_char(d1 + 1, len);
    proof {
        assert(rest@ =~= token@.skip(d1 + 1));
    }
    let i2 = match find_char_in(rest, '.') {
        Some(i) => i,
        None => {
            return Err(JwtValidatorError::MalformedJwt);
        },
    };
    proof {
        lemma_find_char_bounds(rest@, '.');
    }
    let payload_str = rest.substring_char(0, i2);
    proof {
        assert(payload_str@ =~= token@.skip(d1 + 1).take(i2 as int));
    }
    match decode_segment(payload_str) {
        Some(c) => Ok(c),
        None => Err(JwtValidatorError::MalformedJwt),
    }
}

/// Whether jsonwebtoken accepts this base64url RSA modulus and exponent.
pub uninterp spec fn rsa_key_ok(n: Seq<char>, e: Seq<char>) -> bool;

/// Whether jsonwebtoken accepts this base64url elliptic-curve point.
pub uninterp spec fn ec_key_ok(x: Seq<char>, y: Seq<char>) -> bool;

/// Whether jsonwebtoken accepts this base64url Ed25519 public point.
pub uninterp spec fn okp_key_ok(x: Seq<char>) -> bool;

/// Whether the signature signs the message under this key material and
/// algorithm: the signature verdict, a function of these values alone.
pub uninterp spec fn sig_ok(
    kty: Seq<char>,
    material: Seq<Seq<char>>,
    alg: Seq<char>,
    message: Seq<char>,
    signature: Seq<char>,
) -> bool;

/// Relies on jsonwebtoken::DecodingKey::from_rsa_components: whether it
/// accepts the modulus and exponent depends on the two strings alone.
#[verifier::external_body]
fn rsa_components_accepted(n: &str, e: &str) -> (r: bool)
    ensures
        r == rsa_key_ok(n@, e@),
{
    jsonwebtoken::DecodingKey::from_rsa_components(n, e).is_ok()
}

/// Relies on jsonwebtoken::DecodingKey::from_ec_components: whether it
/// accepts the point depends on the two strings alone.
#[verifier::external_body]
fn ec_components_accepted(x: &str, y: &str) -> (r: bool)
    ensures
        r == ec_key_ok(x@, y@),
{
    jsonwebtoken::DecodingKey::from_ec_components(x, y).is_ok()
}

/// Relies on jsonwebtoken::DecodingKey::from_ed_components: whether it
/// accepts the point depends on the string alone.
#[verifier::external_body]
fn okp_component_accepted(x: &str) -> (r: bool)
    ensures
        r == okp_key_ok(x@),
{
    jsonwebtoken::DecodingKey::from_ed_components(x).is_ok()
}

/// jsonwebtoken's algorithm selector, declared so the converter below may
/// hand one back; the engine never looks inside it.
#[verifier::external_type_specification]
#[verifier::external_body]
pub struct ExJwtAlgorithm(jsonwebtoken::Algorithm);

/// Relies on jsonwebtoken::Algorithm: names the same algorithm.
#[verifier::external_body]
fn to_jwt_algorithm(alg: Alg) -> jsonwebtoken::Algorithm {
    match alg {
        Alg::HS256 => jsonwebtoken::Algorithm::HS256,
        Alg::HS384 => jsonwebtoken::Algorithm::HS384,
        Alg::HS512 => jsonwebtoken::Algorithm::HS512,
        Alg::RS256 => jsonwebtoken::Algorithm::RS256,
        Alg::RS384 => jsonwebtoken::Algorithm::RS384,
        Alg::RS512 => jsonwebtoken::Algorithm::RS512,
        Alg::ES256 => jsonwebtoken::Algorithm::ES256,
        Alg::ES384 => jsonwebtoken::Algorithm::ES384,
        Alg::EdDSA => jsonwebtoken::Algorithm::EdDSA,
    }
}

/// The algorithm's name, as a header spells it.
pub open spec fn alg_label(a: Alg) -> Seq<char> {
    match a {
        Alg::HS256 => "HS256"@,
        Alg::HS384 => "HS384"@,
        Alg::HS512 => "HS512"@,
        Alg::RS256 => "RS256"@,
        Alg::RS384 => "RS384"@,
        Alg::RS512 => "RS512"@,
        Alg::ES256 => "ES256"@,
        Alg::ES384 => "ES384"@,
        Alg::EdDSA => "EdDSA"@,
    }
}

/// The JWK key type an algorithm's keys must carry.
pub open spec fn family_kty(a: Alg) -> Seq<char> {
    match a {
        Alg::HS256 | Alg::HS384 | Alg::HS512 => "oct"@,
        Alg::RS256 | Alg::RS384 | Alg::RS512 => "RSA"@,
        Alg::ES256 | Alg::ES384 => "EC"@,
        Alg::EdDSA => "OKP"@,
    }
}

/// One verification key, as its JWK declared it: the optional key id, the
/// key type, and the key material strings (`k` for oct; `n`, `e` for RSA;
/// `x`, `y` for EC; `x` for OKP).
pub struct KeyEntry {
    kid: Option<String>,
    kty: String,
    material: Vec<String>,
}

/// The key id a JWK declares, when it is a string.
pub open spec fn jwk_kid(v: JsonV) -> Option<Seq<char>> {
    match field_of(v, "kid"@) {
        Some(JsonV::Str(s)) => Some(s),
        _ => None,
    }
}

/// The key ids of a sequence of JWKs.
pub open spec fn jwk_kids_of(vs: Seq<JsonV>) -> Seq<Option<Seq<char>>> {
    Seq::new(vs.len(), |j: int| jwk_kid(vs[j]))
}

pub open spec fn kid_view(k: Option<String>) -> Option<Seq<char>> {
    match k {
        Some(s) => Some(s@),
        None => None,
    }
}

/// The mathematical shape of one verification key.
pub ghost struct KeyEntryV {
    pub kid: Option<Seq<char>>,
    pub kty: Seq<char>,
    pub material: Seq<Seq<char>>,
}

impl View for KeyEntry {
    type V = KeyEntryV;

    closed spec fn view(&self) -> KeyEntryV {
        KeyEntryV {
            kid: kid_view(self.kid),
            kty: self.kty@,
            material: self.material.deep_view(),
        }
    }
}

impl KeyEntry {
    pub closed spec fn spec_kid(self) -> Option<Seq<char>> {
        kid_view(self.kid)
    }

    /// Whether this key's type is `wanted`.
    pub fn kty_is(&self, wanted: &String) -> (r: bool)
        ensures
            r == (self@.kty == wanted@),
    {
        self.kty == *wanted
    }
}

/// A well-formed key entry: a known key type with material of the right
/// arity that the crypto library accepts.
pub open spec fn key_entry_wf(e: KeyEntryV) -> bool {
    if e.kty == "oct"@ {
        e.material.len() == 1 && b64_url_of(e.material[0]) is Some
    } else if e.kty == "RSA"@ {
        e.material.len() == 2 && rsa_key_ok(e.material[0], e.material[1])
    } else if e.kty == "EC"@ {
        e.material.len() == 2 && ec_key_ok(e.material[0], e.material[1])
    } else if e.kty == "OKP"@ {
        e.material.len() == 1 && okp_key_ok(e.material[0])
    } else {
        false
    }
}

/// Whether a JWK is usable: a known `kty` with the material fields that
/// kind needs, accepted by the crypto library.
pub open spec fn jwk_accepted(v: JsonV) -> bool {
    match str_field(v, "kty"@) {
        Some(kty) => if kty == "oct"@ {
            str_field(v, "k"@) matches Some(k) && b64_url_of(k) is Some
        } else if kty == "RSA"@ {
            str_field(v, "n"@) matches Some(n) && (str_field(v, "e"@) matches Some(e)
                && rsa_key_ok(n, e))
        } else if kty == "EC"@ {
            str_field(v, "x"@) matches Some(x) && (str_field(v, "y"@) matches Some(y)
                && ec_key_ok(x, y))
        } else if kty == "OKP"@ {
            str_field(v, "x"@) matches Some(x) && okp_key_ok(x)
        } else {
            false
        },
        None => false,
    }
}

/// The material strings an accepted JWK carries, in their fixed order.
pub open spec fn jwk_material(v: JsonV) -> Seq<Seq<char>> {
    let kty = str_field(v, "kty"@)->Some_0;
    if kty == "oct"@ {
        seq![str_field(v, "k"@)->Some_0]
    } else if kty == "RSA"@ {
        seq![str_field(v, "n"@)->Some_0, str_field(v, "e"@)->Some_0]
    } else if kty == "EC"@ {
        seq![str_field(v, "x"@)->Some_0, str_field(v, "y"@)->Some_0]
    } else {
        seq![str_field(v, "x"@)->Some_0]
    }
}

/// Relies on jsonwebtoken's DecodingKey constructors and crypto::verify:
/// true exactly when `signature` (base64url) signs `message` under the
/// entry's key material and `alg`. The key is built fresh from its material,
/// whose kind must match the algorithm's family, which keeps the library on
/// the path its source covers; the verdict is a function of the arguments
/// alone.
#[verifier::external_body]
fn verify_signature(entry: &KeyEntry, alg: Alg, message: &str, signature: &str) -> (r: bool)
    requires
        key_entry_wf(entry@),
        entry@.kty == family_kty(alg),
    ensures
        r == sig_ok(entry@.kty, entry@.material, alg_label(alg), message@, signature@),
{
    let m = &entry.material;
    let key = match entry.kty.as_str() {
        "oct" => b64_url_decode(&m[0]).map(|s| jsonwebtoken::DecodingKey::from_secret(&s)),
        "RSA" => jsonwebtoken::DecodingKey::from_rsa_components(&m[0], &m[1]).ok(),
        "EC" => jsonwebtoken::DecodingKey::from_ec_components(&m[0], &m[1]).ok(),
        "OKP" => jsonwebtoken::DecodingKey::from_ed_components(&m[0]).ok(),
        _ => None,
    };
    match key {
        Some(k) => jsonwebtoken::crypto::verify(signature, message.as_bytes(), &k, to_jwt_algorithm(alg)).unwrap_or(false),
        None => false,
    }
}

/// The first key in the list carrying this key id.
pub open spec fn find_in_list(list: Seq<KeyEntryV>, k: Seq<char>) -> Option<KeyEntryV>
    decreases list.len(),
{
    if list.len() == 0 {
        None
    } else if list[0].kid == Some(k) {
        Some(list[0])
    } else {
        find_in_list(list.skip(1), k)
    }
}

/// The first key of any issuer carrying this key id.
pub open spec fn find_by_kid(entries: Seq<(Seq<char>, Seq<KeyEntryV>)>, k: Seq<char>) -> Option<
    KeyEntryV,
>
    decreases entries.len(),
{
    if entries.len() == 0 {
        None
    } else {
        match find_in_list(entries[0].1, k) {
            Some(e) => Some(e),
            None => find_by_kid(entries.skip(1), k),
        }
    }
}

/// The first key of the first non-empty entry under this issuer name.
pub open spec fn find_by_issuer(entries: Seq<(Seq<char>, Seq<KeyEntryV>)>, iss: Seq<char>) -> Option<
    KeyEntryV,
>
    decreases entries.len(),
{
    if entries.len() == 0 {
        None
    } else if entries[0].0 == iss && entries[0].1.len() > 0 {
        Some(entries[0].1[0])
    } else {
        find_by_issuer(entries.skip(1), iss)
    }
}

/// The key the service resolves: by key id when the token names one, else
/// by issuer.
pub open spec fn find_key(
    entries: Seq<(Seq<char>, Seq<KeyEntryV>)>,
    iss: Option<Seq<char>>,
    kid: Option<Seq<char>>,
) -> Option<KeyEntryV> {
    match kid {
        Some(k) => find_by_kid(entries, k),
        None => match iss {
            Some(s) => find_by_issuer(entries, s),
            None => None,
        },
    }
}

proof fn lemma_find_in_list_at(list: Seq<KeyEntryV>, k: Seq<char>, j: int)
    requires
        0 <= j <= list.len(),
        forall|b: int| 0 <= b < j ==> (#[trigger] list[b]).kid != Some(k),
        j < list.len() ==> list[j].kid == Some(k),
    ensures
        j == list.len() ==> find_in_list(list, k) is None,
        j < list.len() ==> find_in_list(list, k) == Some(list[j]),
    decreases list.len(),
{
    if list.len() > 0 && list[0].kid != Some(k) {
        assert(j > 0);
        lemma_find_in_list_at(list.skip(1), k, j - 1);
        assert forall|b: int| 0 <= b < j - 1 implies (#[trigger] list.skip(1)[b]).kid != Some(
            k,
        ) by {
            assert(list.skip(1)[b] == list[b + 1]);
        }
        if j < list.len() {
            assert(list.skip(1)[j - 1] == list[j]);
        }
    }
}

proof fn lemma_find_by_kid_at(entries: Seq<(Seq<char>, Seq<KeyEntryV>)>, k: Seq<char>, i: int)
    requires
        0 <= i <= entries.len(),
        forall|a: int| 0 <= a < i ==> find_in_list((#[trigger] entries[a]).1, k) is None,
        i < entries.len() ==> find_in_list(entries[i].1, k) is Some,
    ensures
        i == entries.len() ==> find_by_kid(entries, k) is None,
        i < entries.len() ==> find_by_kid(entries, k) == find_in_list(entries[i].1, k),
    decreases entries.len(),
{
    if entries.len() > 0 && find_in_list(entries[0].1, k) is None {
        assert(i > 0);
        lemma_find_by_kid_at(entries.skip(1), k, i - 1);
        assert forall|a: int| 0 <= a < i - 1 implies find_in_list(
            (#[trigger] entries.skip(1)[a]).1,
            k,
        ) is None by {
            assert(entries.skip(1)[a] == entries[a + 1]);
        }
        if i < entries.len() {
            assert(entries.skip(1)[i - 1] == entries[i]);
        }
    }
}

proof fn lemma_find_by_issuer_at(entries: Seq<(Seq<char>, Seq<KeyEntryV>)>, iss: Seq<char>, i: int)
    requires
        0 <= i <= entries.len(),
        forall|a: int|
            0 <= a < i ==> !((#[trigger] entries[a]).0 == iss && entries[a].1.len() > 0),
        i < entries.len() ==> entries[i].0 == iss && entries[i].1.len() > 0,
    ensures
        i == entries.len() ==> find_by_issuer(entries, iss) is None,
        i < entries.len() ==> find_by_issuer(entries, iss) == Some(entries[i].1[0]),
    decreases entries.len(),
{
    if entries.len() > 0 && !(entries[0].0 == iss && entries[0].1.len() > 0) {
        assert(i > 0);
        lemma_find_by_issuer_at(entries.skip(1), iss, i - 1);
        assert forall|a: int| 0 <= a < i - 1 implies !((#[trigger] entries.skip(1)[a]).0 == iss
            && entries.skip(1)[a].1.len() > 0) by {
            assert(entries.skip(1)[a] == entries[a + 1]);
        }
        if i < entries.len() {
            assert(entries.skip(1)[i - 1] == entries[i]);
        }
    }
}

/// A usable key-set document: a map from issuer to an array of JWKs, every
/// one of them accepted.
pub open spec fn jwks_doc_valid(top: JsonV) -> bool {
    &&& top is Obj
    &&& forall|i: int| 0 <= i < top->Obj_0.len() ==> (#[trigger] top->Obj_0[i]).1 is Arr
    &&& forall|i: int, j: int|
        0 <= i < top->Obj_0.len() && 0 <= j < top->Obj_0[i].1->Arr_0.len() ==> jwk_accepted(
            #[trigger] top->Obj_0[i].1->Arr_0[j],
        )
}

/// Per-issuer verification keys, looked up by key id or by issuer.
pub struct KeyService {
    issuers: Vec<(String, Vec<KeyEntry>)>,
}

impl KeyService {
    /// The issuers and the key ids each one holds.
    pub closed spec fn kids(self) -> Seq<(Seq<char>, Seq<Option<Seq<char>>>)> {
        Seq::new(
            self.issuers@.len(),
            |i: int|
                (
                    self.issuers@[i].0@,
                    Seq::new(
                        self.issuers@[i].1@.len(),
                        |j: int| self.issuers@[i].1@[j].spec_kid(),
                    ),
                ),
        )
    }

    /// The issuers and the full shape of each one's keys.
    pub closed spec fn entries_view(self) -> Seq<(Seq<char>, Seq<KeyEntryV>)> {
        Seq::new(
            self.issuers@.len(),
            |i: int|
                (
                    self.issuers@[i].0@,
                    Seq::new(self.issuers@[i].1@.len(), |j: int| self.issuers@[i].1@[j]@),
                ),
        )
    }

    /// Every held key is well-formed.
    pub open spec fn wf(self) -> bool {
        forall|i: int, j: int|
            0 <= i < self.entries_view().len() && 0 <= j < self.entries_view()[i].1.len()
                ==> key_entry_wf(#[trigger] self.entries_view()[i].1[j])
    }

    /// Resolves a verification key: the first key with the named id when the
    /// token names one, else the first key of the named issuer.
    pub fn lookup(&self, issuer: Option<&String>, kid: Option<&String>) -> (r: Option<&KeyEntry>)
        ensures
            ({
                let kv: Option<Seq<char>> = match kid {
                    Some(k) => Some(k@),
                    None => None,
                };
                let sv: Option<Seq<char>> = match issuer {
                    Some(i) => Some(i@),
                    None => None,
                };
                match r {
                    Some(e) => find_key(self.entries_view(), sv, kv) == Some(e@),
                    None => find_key(self.entries_view(), sv, kv) is None,
                }
            }),
            self.wf() && r is Some ==> key_entry_wf(r->0@),
    {
        if let Some(k) = kid {
            let n = self.issuers.len();
            let mut i: usize = 0;
            while i < n
                invariant
                    kid == Some(k),
                    0 <= i <= n,
                    n == self.issuers@.len(),
                    self.entries_view().len() == n,
                    forall|a: int|
                        0 <= a < i ==> find_in_list(
                            (#[trigger] self.entries_view()[a]).1,
                            k@,
                        ) is None,
                decreases n - i,
            {
                let keys = &self.issuers[i].1;
                let m = keys.len();
                let mut j: usize = 0;
                while j < m
                    invariant
                        kid == Some(k),
                        0 <= j <= m,
                        0 <= i < n,
                        n == self.issuers@.len(),
                        self.entries_view().len() == n,
                        m == keys@.len(),
                        keys@ == self.issuers@[i as int].1@,
                        m == self.entries_view()[i as int].1.len(),
                        forall|a: int|
                            0 <= a < i ==> find_in_list(
                                (#[trigger] self.entries_view()[a]).1,
                                k@,
                            ) is None,
                        forall|b: int|
                            0 <= b < j ==> (#[trigger] self.entries_view()[i as int].1[b]).kid
                                != Some(k@),
                    decreases m - j,
                {
                    let matches_kid = match &keys[j].kid {
                        Some(entry_kid) => *entry_kid == *k,
                        None => false,
                    };
                    if matches_kid {
                        proof {
                            let list = self.entries_view()[i as int].1;
                            assert(list[j as int] == keys@[j as int]@);
                            assert(list[j as int].kid == Some(k@));
                            lemma_find_in_list_at(list, k@, j as int);
                            lemma_find_by_kid_at(self.entries_view(), k@, i as int);
                            if self.wf() {
                                assert(key_entry_wf(self.entries_view()[i as int].1[j as int]));
                            }
                        }
                        return Some(&keys[j]);
                    }
                    assert(self.entries_view()[i as int].1[j as int].kid != Some(k@));
                    j = j + 1;
                }
                proof {
                    lemma_find_in_list_at(self.entries_view()[i as int].1, k@, m as int);
                }
                i = i + 1;
            }
            proof {
                lemma_find_by_kid_at(self.entries_view(), k@, n as int);
            }
            None
        } else if let Some(iss) = issuer {
            let n = self.issuers.len();
            let mut i: usize = 0;
            while i < n
                invariant
                    kid is None,
                    issuer == Some(iss),
                    0 <= i <= n,
                    n == self.issuers@.len(),
                    self.entries_view().len() == n,
                    forall|a: int|
                        0 <= a < i ==> !((#[trigger] self.entries_view()[a]).0 == iss@
                            && self.entries_view()[a].1.len() > 0),
                decreases n - i,
            {
                if self.issuers[i].0 == *iss && self.issuers[i].1.len() > 0 {
                    proof {
                        assert(self.entries_view()[i as int].0 == iss@);
                        assert(self.entries_view()[i as int].1.len() > 0);
                        assert(self.entries_view()[i as int].1[0] == self.issuers@[i as int].1@[0]@);
                        lemma_find_by_issuer_at(self.entries_view(), iss@, i as int);
                        if self.wf() {
                            assert(key_entry_wf(self.entries_view()[i as int].1[0]));
                        }
                    }
                    return Some(&self.issuers[i].1[0]);
                }
                assert(!(self.entries_view()[i as int].0 == iss@ && self.entries_view()[i as int].1.len()
                    > 0));
                i = i + 1;
            }
            proof {
                lemma_find_by_issuer_at(self.entries_view(), iss@, n as int);
            }
            None
        } else {
            None
        }
    }

    /// A key service with no keys.
    pub fn new_empty() -> (r: KeyService)
        ensures
            r.kids().len() == 0,
            r.wf(),
            r.entries_view().len() == 0,
    {
        let issuers: Vec<(String, Vec<KeyEntry>)> = Vec::new();
        let r = KeyService { issuers };
        proof {
            assert(r.kids() =~= Seq::<(Seq<char>, Seq<Option<Seq<char>>>)>::empty());
            assert(r.entries_view() =~= Seq::<(Seq<char>, Seq<KeyEntryV>)>::empty());
        }
        r
    }

    /// Builds a key service from a JSON document mapping each issuer to its
    /// list of JWKs. On success the issuers and their key ids are exactly
    /// those of the document; a document that is not such a map, or a key
    /// whose material the crypto library rejects, is refused.
    pub fn new_from_str(s: &str) -> (r: Result<KeyService, JwtValidatorError>)
        ensures
            r is Ok <==> (json_of(s@) matches Some(top) && jwks_doc_valid(top)),
            r matches Err(e) ==> e is InvalidJwks,
            r matches Ok(ks) ==> {
                &&& ks.wf()
                &&& json_of(s@) matches Some(top)
                &&& top is Obj
                &&& ks.kids().len() == top->Obj_0.len()
                &&& forall|i: int|
                    0 <= i < top->Obj_0.len() ==> {
                        &&& (#[trigger] ks.kids()[i]).0 == top->Obj_0[i].0
                        &&& top->Obj_0[i].1 is Arr
                        &&& ks.kids()[i].1.len() == top->Obj_0[i].1->Arr_0.len()
                        &&& forall|j: int|
                            0 <= j < ks.kids()[i].1.len() ==> #[trigger] ks.kids()[i].1[j]
                                == jwk_kid(top->Obj_0[i].1->Arr_0[j])
                    }
            },
    {
        let top = match parse_json(s) {
            Some(j) => j,
            None => {
                return Err(JwtValidatorError::InvalidJwks);
            },
        };
        let entries = match top {
            Json::Obj(entries) => entries,
            _ => {
                return Err(JwtValidatorError::InvalidJwks);
            },
        };
        proof {
            crate::json::lemma_entries_v(entries@);
        }
        let ghost expected = json_of(s@)->Some_0->Obj_0;
        let mut issuers: Vec<(String, Vec<KeyEntry>)> = Vec::new();
        let n = entries.len();
        let mut i: usize = 0;
        while i < n
            invariant
                0 <= i <= n,
                n == entries@.len(),
                expected.len() == n,
                json_of(s@) is Some,
                json_of(s@)->Some_0 is Obj,
                json_of(s@)->Some_0->Obj_0 == expected,
                forall|a: int|
                    0 <= a < n ==> #[trigger] expected[a] == (entries@[a].0@, entries@[a].1@),
                issuers@.len() == i,
                forall|a: int| 0 <= a < i ==> (#[trigger] issuers@[a]).0@ == expected[a].0,
                forall|a: int| 0 <= a < i ==> (#[trigger] expected[a]).1 is Arr,
                forall|a: int|
                    0 <= a < i ==> (#[trigger] issuers@[a]).1@.len()
                        == expected[a].1->Arr_0.len(),
                forall|a: int, b: int|
                    0 <= a < i && 0 <= b < issuers@[a].1@.len() ==> (
                    #[trigger] issuers@[a].1@[b]).spec_kid() == jwk_kid(expected[a].1->Arr_0[b]),
                forall|a: int, b: int|
                    0 <= a < i && 0 <= b < issuers@[a].1@.len() ==> key_entry_wf(
                        (#[trigger] issuers@[a].1@[b])@,
                    ),
                forall|a: int, b: int|
                    0 <= a < i && 0 <= b < expected[a].1->Arr_0.len() ==> jwk_accepted(
                        #[trigger] expected[a].1->Arr_0[b],
                    ),
            decreases n - i,
        {
            let keys = match &entries[i].1 {
                Json::Arr(keys) => keys,
                _ => {
                    proof {
                        assert(!(expected[i as int].1 is Arr));
                        assert(!jwks_doc_valid(json_of(s@)->Some_0));
                    }
                    return Err(JwtValidatorError::InvalidJwks);
                },
            };
            proof {
                crate::json::lemma_seq_v(keys@);
            }
            let mut built: Vec<KeyEntry> = Vec::new();
            let m = keys.len();
            let mut j: usize = 0;
            while j < m
                invariant
                    0 <= j <= m,
                    0 <= i < n,
                    n == entries@.len(),
                    m == keys@.len(),
                    expected.len() == n,
                    json_of(s@) is Some,
                    json_of(s@)->Some_0 is Obj,
                    json_of(s@)->Some_0->Obj_0 == expected,
                    forall|a: int|
                        0 <= a < n ==> #[trigger] expected[a] == (entries@[a].0@, entries@[a].1@),
                    entries@[i as int].1 == Json::Arr(*keys),
                    expected[i as int].1 == entries@[i as int].1@,
                    entries@[i as int].1@->Arr_0.len() == m,
                    forall|b: int|
                        0 <= b < m ==> #[trigger] entries@[i as int].1@->Arr_0[b] == keys@[b]@,
                    built@.len() == j,
                    forall|b: int|
                        0 <= b < j ==> (#[trigger] built@[b]).spec_kid() == jwk_kid(
                            entries@[i as int].1@->Arr_0[b],
                        ),
                    forall|b: int| 0 <= b < j ==> key_entry_wf((#[trigger] built@[b])@),
                    forall|b: int|
                        0 <= b < j ==> jwk_accepted(
                            #[trigger] entries@[i as int].1@->Arr_0[b],
                        ),
                decreases m - j,
            {
                let entry = match build_key(&keys[j]) {
                    Ok(e) => e,
                    Err(e) => {
                        proof {
                            assert(!jwk_accepted(
                                json_of(s@)->Some_0->Obj_0[i as int].1->Arr_0[j as int],
                            ));
                            assert(!jwks_doc_valid(json_of(s@)->Some_0));
                        }
                        return Err(JwtValidatorError::InvalidJwks);
                    },
                };
                built.push(entry);
                j = j + 1;
            }
            let issuer_name = entries[i].0.clone();
            let ghost pre = issuers@;
            issuers.push((issuer_name, built));
            proof {
                assert forall|a: int| 0 <= a < i + 1 implies {
                    &&& (#[trigger] issuers@[a]).0@ == expected[a].0
                    &&& expected[a].1 is Arr
                    &&& issuers@[a].1@.len() == expected[a].1->Arr_0.len()
                } by {
                    if a < i {
                        assert(issuers@[a] == pre[a]);
                    } else {
                        assert(issuers@[a] == issuers@[i as int]);
                    }
                }
                assert forall|a: int, b: int|
                    0 <= a < i + 1 && 0 <= b < issuers@[a].1@.len() implies {
                    &&& (#[trigger] issuers@[a].1@[b]).spec_kid() == jwk_kid(
                        expected[a].1->Arr_0[b],
                    )
                    &&& key_entry_wf(issuers@[a].1@[b]@)
                    &&& jwk_accepted(expected[a].1->Arr_0[b])
                } by {
                    if a < i {
                        assert(issuers@[a] == pre[a]);
                    } else {
                        assert(issuers@[a] == issuers@[i as int]);
                        assert(issuers@[a].1@[b] == built@[b]);
                    }
                }
            }
            i = i + 1;
        }
        let ks = KeyService { issuers };
        proof {
            let top = json_of(s@)->Some_0;
            assert forall|a: int| 0 <= a < top->Obj_0.len() implies (
            #[trigger] top->Obj_0[a]).1 is Arr by {
                assert(expected[a].1 is Arr);
            }
            assert forall|a: int, b: int|
                0 <= a < top->Obj_0.len() && 0 <= b < top->Obj_0[a].1->Arr_0.len()
                    implies jwk_accepted(#[trigger] top->Obj_0[a].1->Arr_0[b]) by {
                assert(issuers@[a].1@.len() == expected[a].1->Arr_0.len());
                assert(jwk_accepted(expected[a].1->Arr_0[b]));
            }
            assert(jwks_doc_valid(json_of(s@)->Some_0));
            assert forall|a: int, b: int|
                0 <= a < ks.entries_view().len() && 0 <= b < ks.entries_view()[a].1.len()
                    implies key_entry_wf(#[trigger] ks.entries_view()[a].1[b]) by {
                assert(ks.entries_view()[a].1[b] == issuers@[a].1@[b]@);
            }
            assert forall|a: int| 0 <= a < n implies {
                &&& (#[trigger] ks.kids()[a]).0 == expected[a].0
                &&& expected[a].1 is Arr
                &&& ks.kids()[a].1.len() == expected[a].1->Arr_0.len()
                &&& forall|b: int|
                    0 <= b < ks.kids()[a].1.len() ==> #[trigger] ks.kids()[a].1[b] == jwk_kid(
                        expected[a].1->Arr_0[b],
                    )
            } by {
                assert(ks.kids()[a].0 == issuers@[a].0@);
                assert forall|b: int| 0 <= b < ks.kids()[a].1.len() implies #[trigger] ks.kids()[a].1[b]
                    == jwk_kid(expected[a].1->Arr_0[b]) by {
                    assert(ks.kids()[a].1[b] == issuers@[a].1@[b].spec_kid());
                }
            }
        }
        Ok(ks)
    }
}

impl KeyService {
    /// Replaces one issuer's keyset with the keys of a JWKS `keys` array,
    /// atomically: on success that issuer holds exactly the document's keys
    /// and every other issuer is untouched; on failure the whole service is
    /// left as it was.
    pub fn update_issuer(&mut self, issuer: String, keys_doc: &str) -> (r: Result<
        (),
        JwtValidatorError,
    >)
        ensures
            r is Err ==> final(self).kids() == old(self).kids() && final(self).entries_view()
                == old(self).entries_view(),
            r matches Err(e) ==> e is InvalidJwks,
            r is Ok <==> (json_of(keys_doc@) matches Some(top) && top is Arr && (forall|j: int|
                0 <= j < top->Arr_0.len() ==> jwk_accepted(#[trigger] top->Arr_0[j]))),
            old(self).wf() && r is Ok ==> final(self).wf(),
            r is Ok ==> {
                &&& json_of(keys_doc@) matches Some(top)
                &&& top is Arr
                &&& {
                    ||| exists|i: int|
                        0 <= i < old(self).kids().len() && old(self).kids()[i].0 == issuer@
                            && #[trigger] final(self).kids() == old(self).kids().update(
                            i,
                            (issuer@, jwk_kids_of(top->Arr_0)),
                        )
                    ||| final(self).kids() == old(self).kids().push(
                        (issuer@, jwk_kids_of(top->Arr_0)),
                    )
                }
            },
    {
        let top = match parse_json(keys_doc) {
            Some(j) => j,
            None => {
                return Err(JwtValidatorError::InvalidJwks);
            },
        };
        let keys = match &top {
            Json::Arr(keys) => keys,
            _ => {
                return Err(JwtValidatorError::InvalidJwks);
            },
        };
        proof {
            crate::json::lemma_seq_v(keys@);
        }
        let mut built: Vec<KeyEntry> = Vec::new();
        let m = keys.len();
        let mut j: usize = 0;
        while j < m
            invariant
                0 <= j <= m,
                m == keys@.len(),
                crate::json::seq_v(keys@).len() == m,
                json_of(keys_doc@) is Some,
                json_of(keys_doc@)->Some_0 is Arr,
                json_of(keys_doc@)->Some_0->Arr_0 == crate::json::seq_v(keys@),
                forall|b: int|
                    0 <= b < m ==> #[trigger] crate::json::seq_v(keys@)[b] == keys@[b]@,
                built@.len() == j,
                forall|b: int|
                    0 <= b < j ==> (#[trigger] built@[b]).spec_kid() == jwk_kid(
                        crate::json::seq_v(keys@)[b],
                    ),
                forall|b: int| 0 <= b < j ==> key_entry_wf((#[trigger] built@[b])@),
                forall|b: int|
                    0 <= b < j ==> jwk_accepted(#[trigger] crate::json::seq_v(keys@)[b]),
            decreases m - j,
        {
            let entry = match build_key(&keys[j]) {
                Ok(e) => e,
                Err(e) => {
                    proof {
                        assert(!jwk_accepted(json_of(keys_doc@)->Some_0->Arr_0[j as int]));
                    }
                    return Err(JwtValidatorError::InvalidJwks);
                },
            };
            built.push(entry);
            j = j + 1;
        }
        proof {
            assert forall|b: int|
                0 <= b < json_of(keys_doc@)->Some_0->Arr_0.len() implies jwk_accepted(
                #[trigger] json_of(keys_doc@)->Some_0->Arr_0[b]) by {
                assert(jwk_accepted(crate::json::seq_v(keys@)[b]));
            }
        }
        let ghost new_kids = Seq::new(built@.len(), |b: int| built@[b].spec_kid());
        proof {
            assert forall|b: int| 0 <= b < new_kids.len() implies #[trigger] new_kids[b] == jwk_kid(
                json_of(keys_doc@)->Some_0->Arr_0[b],
            ) by {
                assert(new_kids[b] == built@[b].spec_kid());
            }
            assert(new_kids =~= jwk_kids_of(json_of(keys_doc@)->Some_0->Arr_0));
        }
        let ghost pre = self.kids();
        match self.find_issuer(&issuer) {
            Some(i) => {
                let ghost pre_entries = old(self).entries_view();
                self.issuers.set(i, (issuer, built));
                proof {
                    assert(final(self).kids()[i as int].1 =~= new_kids);
                    assert(final(self).kids() =~= pre.update(
                        i as int,
                        (issuer@, jwk_kids_of(json_of(keys_doc@)->Some_0->Arr_0)),
                    ));
                    if old(self).wf() {
                        let post = final(self).entries_view();
                        assert forall|a: int, b: int|
                            0 <= a < post.len() && 0 <= b < post[a].1.len() implies key_entry_wf(
                            #[trigger] post[a].1[b]) by {
                            if a == i {
                                assert(post[a].1[b] == built@[b]@);
                            } else {
                                assert(post[a].1[b] == pre_entries[a].1[b]);
                                assert(key_entry_wf(pre_entries[a].1[b]));
                            }
                        }
                    }
                }
                Ok(())
            },
            None => {
                let ghost pre_entries = old(self).entries_view();
                self.issuers.push((issuer, built));
                proof {
                    assert(final(self).kids()[pre.len() as int].1 =~= new_kids);
                    assert(final(self).kids() =~= pre.push(
                        (issuer@, jwk_kids_of(json_of(keys_doc@)->Some_0->Arr_0)),
                    ));
                    if old(self).wf() {
                        let post = final(self).entries_view();
                        assert forall|a: int, b: int|
                            0 <= a < post.len() && 0 <= b < post[a].1.len() implies key_entry_wf(
                            #[trigger] post[a].1[b]) by {
                            if a == pre_entries.len() {
                                assert(post[a].1[b] == built@[b]@);
                            } else {
                                assert(post[a].1[b] == pre_entries[a].1[b]);
                                assert(key_entry_wf(pre_entries[a].1[b]));
                            }
                        }
                    }
                }
                Ok(())
            },
        }
    }

    /// The position of an issuer's entry.
    fn find_issuer(&self, issuer: &String) -> (r: Option<usize>)
        ensures
            r matches Some(i) ==> i < self.kids().len() && self.kids()[i as int].0 == issuer@,
            r is None ==> forall|a: int|
                0 <= a < self.kids().len() ==> (#[trigger] self.kids()[a]).0 != issuer@,
    {
        let n = self.issuers.len();
        let mut i: usize = 0;
        while i < n
            invariant
                0 <= i <= n,
                n == self.issuers@.len(),
                self.kids().len() == n,
                forall|a: int| 0 <= a < i ==> (#[trigger] self.kids()[a]).0 != issuer@,
            decreases n - i,
        {
            if self.issuers[i].0 == *issuer {
                assert(self.kids()[i as int].0 == issuer@);
                return Some(i);
            }
            assert(self.kids()[i as int].0 != issuer@);
            i = i + 1;
        }
        None
    }
}

/// Builds one verification key from its JWK: the key id, the key type, and
/// the material strings for that kind, accepted exactly when the crypto
/// library accepts the material.
fn build_key(obj: &Json) -> (r: Result<KeyEntry, JwtValidatorError>)
    ensures
        r is Ok <==> jwk_accepted(obj@),
        r matches Ok(e) ==> {
            &&& e@.kid == jwk_kid(obj@)
            &&& e@.kty == str_field(obj@, "kty"@)->Some_0
            &&& e@.material == jwk_material(obj@)
            &&& key_entry_wf(e@)
        },
        r matches Err(err) ==> err is InvalidJwks,
{
    let kid: Option<String> = match obj.get("kid") {
        Some(j) => match j.as_str() {
            Some(s) => Some(s.clone()),
            None => None,
        },
        None => None,
    };
    let kty = match obj.get_str("kty") {
        Some(s) => s,
        None => {
            return Err(JwtValidatorError::InvalidJwks);
        },
    };
    let mut material: Vec<String> = Vec::new();
    if kty == String::from_str("oct") {
        let k = match obj.get_str("k") {
            Some(s) => s,
            None => {
                return Err(JwtValidatorError::InvalidJwks);
            },
        };
        if b64_url_decode(k.as_str()).is_none() {
            return Err(JwtValidatorError::InvalidJwks);
        }
        material.push(k);
        proof {
            assert(material.deep_view() =~= jwk_material(obj@));
        }
    } else if kty == String::from_str("RSA") {
        let n = match obj.get_str("n") {
            Some(s) => s,
            None => {
                return Err(JwtValidatorError::InvalidJwks);
            },
        };
        let e = match obj.get_str("e") {
            Some(s) => s,
            None => {
                return Err(JwtValidatorError::InvalidJwks);
            },
        };
        if !rsa_components_accepted(n.as_str(), e.as_str()) {
            return Err(JwtValidatorError::InvalidJwks);
        }
        material.push(n);
        material.push(e);
        proof {
            assert(material.deep_view() =~= jwk_material(obj@));
        }
    } else if kty == String::from_str("EC") {
        let x = match obj.get_str("x") {
            Some(s) => s,
            None => {
                return Err(JwtValidatorError::InvalidJwks);
            },
        };
        let y = match obj.get_str("y") {
            Some(s) => s,
            None => {
                return Err(JwtValidatorError::InvalidJwks);
            },
        };
        if !ec_components_accepted(x.as_str(), y.as_str()) {
            return Err(JwtValidatorError::InvalidJwks);
        }
        material.push(x);
        material.push(y);
        proof {
            assert(material.deep_view() =~= jwk_material(obj@));
        }
    } else if kty == String::from_str("OKP") {
        let x = match obj.get_str("x") {
            Some(s) => s,
            None => {
                return Err(JwtValidatorError::InvalidJwks);
            },
        };
        if !okp_component_accepted(x.as_str()) {
            return Err(JwtValidatorError::InvalidJwks);
        }
        material.push(x);
        proof {
            assert(material.deep_view() =~= jwk_material(obj@));
        }
    } else {
        return Err(JwtValidatorError::InvalidJwks);
    }
    Ok(KeyEntry { kid, kty, material })
}

/// The required claims that the claim map lacks, in the order required.
pub open spec fn missing_from(claims: JsonV, required: Seq<Seq<char>>) -> Seq<Seq<char>>
    decreases required.len(),
{
    if required.len() == 0 {
        Seq::empty()
    } else {
        let rest = missing_from(claims, required.skip(1));
        if field_of(claims, required[0]) is None {
            seq![required[0]] + rest
        } else {
            rest
        }
    }
}

proof fn lemma_missing_from_snoc(claims: JsonV, required: Seq<Seq<char>>, name: Seq<char>)
    ensures
        missing_from(claims, required.push(name)) == missing_from(claims, required) + (if field_of(
            claims,
            name,
        ) is None {
            seq![name]
        } else {
            Seq::<Seq<char>>::empty()
        }),
    decreases required.len(),
{
    let tail: Seq<Seq<char>> = if field_of(claims, name) is None {
        seq![name]
    } else {
        Seq::empty()
    };
    if required.len() == 0 {
        assert(required.push(name).skip(1) =~= Seq::<Seq<char>>::empty());
        assert(missing_from(claims, required.push(name).skip(1)) =~= Seq::<Seq<char>>::empty());
        assert(required.push(name)[0] == name);
        assert(missing_from(claims, required.push(name)) =~= tail);
        assert(missing_from(claims, required) =~= Seq::<Seq<char>>::empty());
        assert(missing_from(claims, required.push(name)) =~= missing_from(claims, required) + tail);
    } else {
        lemma_missing_from_snoc(claims, required.skip(1), name);
        assert(required.push(name).skip(1) =~= required.skip(1).push(name));
        assert(required.push(name)[0] == required[0]);
        if field_of(claims, required[0]) is None {
            assert(missing_from(claims, required.push(name)) == seq![required[0]] + missing_from(
                claims,
                required.push(name).skip(1),
            ));
            assert(missing_from(claims, required) == seq![required[0]] + missing_from(
                claims,
                required.skip(1),
            ));
        } else {
            assert(missing_from(claims, required.push(name)) == missing_from(
                claims,
                required.push(name).skip(1),
            ));
            assert(missing_from(claims, required) == missing_from(claims, required.skip(1)));
        }
        assert(missing_from(claims, required.push(name)) =~= missing_from(claims, required) + tail);
    }
}

/// Checks that every required claim is present, handing the claims back;
/// otherwise reports exactly the missing ones, in the order required.
pub fn check_missing_claims(claims: Json, required: &Vec<String>) -> (r: Result<
    Json,
    JwtValidatorError,
>)
    ensures
        r matches Ok(c) ==> c@ == claims@ && missing_from(claims@, required.deep_view()).len()
            == 0,
        r matches Err(e) ==> {
            &&& e matches JwtValidatorError::MissingClaims(m)
            &&& m.deep_view() == missing_from(claims@, required.deep_view())
            &&& m.deep_view().len() > 0
        },
{
    let mut missing: Vec<String> = Vec::new();
    let n = required.len();
    let mut i: usize = 0;
    while i < n
        invariant
            0 <= i <= n,
            n == required@.len(),
            missing.deep_view() =~= missing_from(claims@, required.deep_view().take(i as int)),
        decreases n - i,
    {
        proof {
            lemma_missing_from_snoc(claims@, required.deep_view().take(i as int), required@[i as int]@);
            assert(required.deep_view().take(i as int).push(required@[i as int]@)
                =~= required.deep_view().take(i + 1));
        }
        if !claims.has_key(required[i].as_str()) {
            let ghost pre = missing.deep_view();
            missing.push(required[i].clone());
            proof {
                assert(missing.deep_view() =~= pre.push(required@[i as int]@));
                assert(missing.deep_view() =~= missing_from(
                    claims@,
                    required.deep_view().take(i + 1),
                ));
            }
        }
        i = i + 1;
    }
    proof {
        assert(required.deep_view().take(n as int) =~= required.deep_view());
    }
    if missing.len() == 0 {
        proof {
            assert(missing_from(claims@, required.deep_view()).len() == 0);
        }
        Ok(claims)
    } else {
        Err(JwtValidatorError::MissingClaims(missing))
    }
}

/// Whether the claims carry an `exp` that is not in the future.
pub open spec fn expired(claims: JsonV, now: u64) -> bool {
    match field_of(claims, "exp"@) {
        Some(JsonV::Int(e)) => e <= now,
        _ => false,
    }
}

/// Whether the claims carry an `nbf` that is in the future.
pub open spec fn immature(claims: JsonV, now: u64) -> bool {
    match field_of(claims, "nbf"@) {
        Some(JsonV::Int(t)) => t > now,
        _ => false,
    }
}

/// The string a header or claim field holds, when it holds one.
pub open spec fn str_field(v: JsonV, key: Seq<char>) -> Option<Seq<char>> {
    match field_of(v, key) {
        Some(JsonV::Str(s)) => Some(s),
        _ => None,
    }
}

/// The algorithm a decoded header names.
pub open spec fn header_alg(header: JsonV) -> Option<Alg> {
    match str_field(header, "alg"@) {
        Some(name) => parse_alg_v(name),
        None => None,
    }
}

/// A token's structure is sound when it splits into three segments whose
/// header and payload decode to JSON and whose header carries a string `alg`.
pub open spec fn structure_ok(token: Seq<char>) -> bool {
    &&& jwt_split(token) is Some
    &&& jwt_header_json(token) is Some
    &&& str_field(jwt_header_json(token)->Some_0, "alg"@) is Some
    &&& jwt_payload_json(token) is Some
}

/// The signing input of a compact token: header segment, dot, payload
/// segment.
pub open spec fn message_of(token: Seq<char>) -> Seq<char> {
    jwt_split(token)->Some_0.0 + seq!['.'] + jwt_split(token)->Some_0.1
}

/// The signature segment of a compact token.
pub open spec fn signature_of(token: Seq<char>) -> Seq<char> {
    jwt_split(token)->Some_0.2
}

/// The algorithm a structurally sound token's header names, when it is a
/// known one.
pub open spec fn alg_of_token(token: Seq<char>) -> Option<Alg> {
    header_alg(jwt_header_json(token)->Some_0)
}

/// The token is sound and its header names an algorithm in the accepted
/// set.
pub open spec fn alg_ok(algs: Seq<Alg>, token: Seq<char>) -> bool {
    &&& structure_ok(token)
    &&& alg_of_token(token) matches Some(a) && algs.contains(a)
}

/// The key the service resolves for this token: the first key under the
/// header's `kid` when it names one, else the first key of the claims'
/// issuer.
pub open spec fn resolved_key(ks: KeyService, token: Seq<char>) -> Option<KeyEntryV> {
    find_key(
        ks.entries_view(),
        str_field(jwt_payload_json(token)->Some_0, "iss"@),
        str_field(jwt_header_json(token)->Some_0, "kid"@),
    )
}

/// The token is sound, its algorithm accepted, and a key resolves.
pub open spec fn key_resolves(ks: KeyService, algs: Seq<Alg>, token: Seq<char>) -> bool {
    alg_ok(algs, token) && resolved_key(ks, token) is Some
}

/// The resolved key's family matches the algorithm and the signature signs
/// the token's signing input under it.
pub open spec fn signature_accepted(ks: KeyService, algs: Seq<Alg>, token: Seq<char>) -> bool {
    &&& key_resolves(ks, algs, token)
    &&& ({
        let e = resolved_key(ks, token)->Some_0;
        let a = alg_of_token(token)->Some_0;
        &&& e.kty == family_kty(a)
        &&& sig_ok(e.kty, e.material, alg_label(a), message_of(token), signature_of(token))
    })
}

/// Everything the validator asks of a token: structure, algorithm, key,
/// signature, and the temporal claims against `now`.
pub open spec fn token_validated(ks: KeyService, algs: Seq<Alg>, token: Seq<char>, now: u64) -> bool {
    &&& signature_accepted(ks, algs, token)
    &&& !expired(jwt_payload_json(token)->Some_0, now)
    &&& !immature(jwt_payload_json(token)->Some_0, now)
}

/// The string a field holds, cloned out, when it holds one.
fn get_str_field(v: &Json, key: &str) -> (r: Option<String>)
    ensures
        r matches Some(s) ==> str_field(v@, key@) == Some(s@),
        r is None ==> str_field(v@, key@) is None,
{
    match v.get(key) {
        Some(j) => match j.as_str() {
            Some(s) => Some(s.clone()),
            None => None,
        },
        None => None,
    }
}

fn alg_allowed(algs: &Vec<Alg>, alg: Alg) -> (r: bool)
    ensures
        r == algs@.contains(alg),
{
    let n = algs.len();
    let mut i: usize = 0;
    while i < n
        invariant
            0 <= i <= n,
            n == algs@.len(),
            forall|j: int| 0 <= j < i ==> algs@[j] != alg,
        decreases n - i,
    {
        if algs[i] == alg {
            assert(algs@[i as int] == alg);
            return true;
        }
        i = i + 1;
    }
    false
}

/// Decodes and validates a compact JWT: the header must name an accepted
/// algorithm, a key must resolve by `kid` or issuer, the signature must
/// verify under it, and `exp` and `nbf`, where present, must accept the
/// instant `now`. Success and every error are pinned to the token, the
/// accepted algorithms, the held keys and the clock.
pub fn decode_and_validate_token(
    token: &str,
    algs: &Vec<Alg>,
    keys: &KeyService,
    now: u64,
) -> (r: Result<Json, JwtValidatorError>)
    requires
        keys.wf(),
    ensures
        r is Ok <==> token_validated(*keys, algs@, token@, now),
        r matches Ok(c) ==> jwt_payload_json(token@) == Some(c@),
        (r matches Err(e) && e is MalformedJwt) <==> !structure_ok(token@),
        (r matches Err(e) && e is UnsupportedAlg) <==> structure_ok(token@) && !alg_ok(
            algs@,
            token@,
        ),
        (r matches Err(e) && e is KeyNotFound) <==> alg_ok(algs@, token@) && resolved_key(
            *keys,
            token@,
        ) is None,
        (r matches Err(e) && e is InvalidSignature) <==> key_resolves(*keys, algs@, token@)
            && !signature_accepted(*keys, algs@, token@),
        (r matches Err(e) && e is ExpiredToken) <==> signature_accepted(*keys, algs@, token@)
            && expired(jwt_payload_json(token@)->Some_0, now),
        (r matches Err(e) && e is ImmatureToken) <==> signature_accepted(*keys, algs@, token@)
            && !expired(jwt_payload_json(token@)->Some_0, now) && immature(
            jwt_payload_json(token@)->Some_0,
            now,
        ),
        r matches Err(e) ==> !(e is MissingClaims) && !(e is InvalidJwks),
{
    let len = token.unicode_len();
    let d1 = match find_char_in(token, '.') {
        Some(i) => i,
        None => {
            return Err(JwtValidatorError::MalformedJwt);
        },
    };
    proof {
        lemma_find_char_bounds(token@, '.');
    }
    let rest = token.substring_char(d1 + 1, len);
    proof {
        assert(rest@ =~= token@.skip(d1 + 1));
    }
    let i2 = match find_char_in(rest, '.') {
        Some(i) => i,
        None => {
            return Err(JwtValidatorError::MalformedJwt);
        },
    };
    proof {
        lemma_find_char_bounds(rest@, '.');
    }
    let rest_len = rest.unicode_len();
    let header_str = token.substring_char(0, d1);
    let payload_str = rest.substring_char(0, i2);
    let sig_str = rest.substring_char(i2 + 1, rest_len);
    let message = token.substring_char(0, d1 + 1 + i2);
    proof {
        assert(header_str@ =~= token@.take(d1 as int));
        assert(payload_str@ =~= token@.skip(d1 + 1).take(i2 as int));
        assert(sig_str@ =~= token@.skip(d1 + 1).skip(i2 + 1));
        assert(message@ =~= token@.take(d1 as int) + seq!['.'] + token@.skip(d1 + 1).take(
            i2 as int,
        ));
    }
    let header = match decode_segment(header_str) {
        Some(j) => j,
        None => {
            return Err(JwtValidatorError::MalformedJwt);
        },
    };
    let alg_name = match get_str_field(&header, "alg") {
        Some(s) => s,
        None => {
            return Err(JwtValidatorError::MalformedJwt);
        },
    };
    let claims = match decode_segment(payload_str) {
        Some(j) => j,
        None => {
            return Err(JwtValidatorError::MalformedJwt);
        },
    };
    let alg = match parse_alg(&alg_name) {
        Some(a) => a,
        None => {
            return Err(JwtValidatorError::UnsupportedAlg(alg_name));
        },
    };
    if !alg_allowed(algs, alg) {
        return Err(JwtValidatorError::UnsupportedAlg(alg_name));
    }
    let kid = get_str_field(&header, "kid");
    let iss = get_str_field(&claims, "iss");
    let entry = match keys.lookup(iss.as_ref(), kid.as_ref()) {
        Some(e) => e,
        None => {
            return Err(JwtValidatorError::KeyNotFound);
        },
    };
    if !family_matches(entry, alg) {
        return Err(JwtValidatorError::InvalidSignature);
    }
    if !verify_signature(entry, alg, message, sig_str) {
        return Err(JwtValidatorError::InvalidSignature);
    }
    match claims.get("exp") {
        Some(j) => match j.as_int() {
            Some(e) => {
                if e <= now as i128 {
                    return Err(JwtValidatorError::ExpiredToken);
                }
            },
            None => {},
        },
        None => {},
    }
    match claims.get("nbf") {
        Some(j) => match j.as_int() {
            Some(t) => {
                if t > now as i128 {
                    return Err(JwtValidatorError::ImmatureToken);
                }
            },
            None => {},
        },
        None => {},
    }
    Ok(claims)
}

/// Whether the entry's key type is the one the algorithm's keys carry.
fn family_matches(entry: &KeyEntry, alg: Alg) -> (r: bool)
    ensures
        r == (entry@.kty == family_kty(alg)),
{
    let wanted = match alg {
        Alg::HS256 | Alg::HS384 | Alg::HS512 => String::from_str("oct"),
        Alg::RS256 | Alg::RS384 | Alg::RS512 => String::from_str("RSA"),
        Alg::ES256 | Alg::ES384 => String::from_str("EC"),
        Alg::EdDSA => String::from_str("OKP"),
    };
    entry.kty_is(&wanted)
}

} // verus!
