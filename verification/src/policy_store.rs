//! The policy store: the Cedar schema in both compiled and JSON form, the
//! policy set, and the table of trusted issuers, loaded from either of two
//! JSON dialects — the native one, and the Agama one whose schema and policy
//! texts come base64-encoded.

use vstd::prelude::*;
use vstd::string::*;

use crate::cedar::parse_policy;
use crate::cedar::parse_schema_json;
use crate::cedar::policy_set_from;
use crate::cedar::policy_text_ok;
use crate::cedar::schema_json_ok;
use crate::codec::b64_standard_decode;
use crate::codec::b64_standard_of;
use crate::codec::json_of;
use crate::codec::parse_json;
use crate::codec::utf8_of;
use crate::codec::utf8_to_string;
use crate::json::field_of;
use crate::json::Json;
use crate::json::JsonV;

verus! {

/// Why a policy-store document was refused.
#[derive(Debug, PartialEq, Eq)]
pub enum PolicyStoreError {
    /// The document is not JSON, or a field has the wrong shape.
    BadShape,
    /// An Agama document with no policy store in `policy_stores`.
    NoPolicyStore,
    /// An Agama document with more than one policy store.
    MultiplePolicyStores,
    /// A schema or policy that should be base64 text is not.
    BadBase64,
    /// Policy text that Cedar's parser refuses.
    PolicyParse,
    /// Schema JSON that Cedar's schema parser refuses.
    SchemaParse,
    /// A `cedar_version` that is not a semantic version.
    InvalidSemver,
    /// Policy ids that collide in the policy set.
    DuplicatePolicyId,
    /// Cedar refused to assemble the policy set.
    PolicySet,
}

/// How one kind of token maps into entities: which claim carries the entity
/// id, which claim carries role assignments, and per-claim mapping rules.
#[derive(Debug, PartialEq)]
pub struct TokenEntityMetadata {
    pub user_id: Option<String>,
    pub role_mapping: Option<String>,
    pub claim_mapping: Vec<(String, Json)>,
}

/// The mathematical shape of a token's entity metadata.
pub ghost struct TemV {
    pub user_id: Option<Seq<char>>,
    pub role_mapping: Option<Seq<char>>,
    pub claim_mapping: Seq<(Seq<char>, JsonV)>,
}

impl View for TokenEntityMetadata {
    type V = TemV;

    open spec fn view(&self) -> TemV {
        TemV {
            user_id: match self.user_id {
                Some(ref s) => Some(s@),
                None => None,
            },
            role_mapping: match self.role_mapping {
                Some(ref s) => Some(s@),
                None => None,
            },
            claim_mapping: crate::json::entries_v(self.claim_mapping@),
        }
    }
}

/// An optional name field: absent or empty means none; a non-string is a
/// shape error (the outer `None`).
pub open spec fn opt_name_field(v: JsonV, key: Seq<char>) -> Option<Option<Seq<char>>> {
    match field_of(v, key) {
        None => Some(None),
        Some(JsonV::Str(s)) => if s.len() == 0 {
            Some(None)
        } else {
            Some(Some(s))
        },
        Some(_) => None,
    }
}

/// What a token-entity-metadata block parses to, when it is well-shaped.
pub open spec fn tem_of(v: JsonV) -> Option<TemV> {
    if !(v is Obj) {
        None
    } else {
        match (opt_name_field(v, "user_id"@), opt_name_field(v, "role_mapping"@)) {
            (Some(user_id), Some(role_mapping)) => match field_of(v, "claim_mapping"@) {
                None => Some(TemV { user_id, role_mapping, claim_mapping: Seq::empty() }),
                Some(JsonV::Obj(entries)) => Some(
                    TemV { user_id, role_mapping, claim_mapping: entries },
                ),
                Some(_) => None,
            },
            _ => None,
        }
    }
}

/// Reads an optional name field: absent or empty becomes none.
fn get_opt_name(v: &Json, key: &str) -> (r: Result<Option<String>, PolicyStoreError>)
    ensures
        r matches Ok(o) ==> opt_name_field(v@, key@) == Some(
            match o {
                Some(s) => Some(s@),
                None => None,
            },
        ),
        r matches Err(e) ==> e is BadShape && opt_name_field(v@, key@) is None,
{
    match v.get(key) {
        None => Ok(None),
        Some(j) => match j.as_str() {
            Some(s) => {
                if s.as_str().unicode_len() == 0 {
                    Ok(None)
                } else {
                    Ok(Some(s.clone()))
                }
            },
            None => Err(PolicyStoreError::BadShape),
        },
    }
}

/// Parses one token-entity-metadata block.
pub fn parse_token_entity_metadata(v: &Json) -> (r: Result<TokenEntityMetadata, PolicyStoreError>)
    ensures
        r matches Ok(m) ==> tem_of(v@) == Some(m@),
        r matches Err(e) ==> e is BadShape && tem_of(v@) is None,
{
    match v {
        Json::Obj(_) => {},
        _ => {
            return Err(PolicyStoreError::BadShape);
        },
    }
    let user_id = match get_opt_name(v, "user_id") {
        Ok(o) => o,
        Err(e) => {
            return Err(e);
        },
    };
    let role_mapping = match get_opt_name(v, "role_mapping") {
        Ok(o) => o,
        Err(e) => {
            return Err(e);
        },
    };
    let claim_mapping: Vec<(String, Json)> = match v.get("claim_mapping") {
        None => Vec::new(),
        Some(j) => match j {
            Json::Obj(entries) => {
                proof {
                    crate::json::lemma_entries_v(entries@);
                }
                let mut out: Vec<(String, Json)> = Vec::new();
                let n = entries.len();
                let mut i: usize = 0;
                while i < n
                    invariant
                        0 <= i <= n,
                        n == entries@.len(),
                        out@.len() == i,
                        forall|a: int|
                            0 <= a < i ==> (#[trigger] out@[a]).0@ == entries@[a].0@
                                && out@[a].1@ == entries@[a].1@,
                    decreases n - i,
                {
                    let key = entries[i].0.clone();
                    let val = entries[i].1.duplicate();
                    out.push((key, val));
                    i = i + 1;
                }
                proof {
                    crate::json::lemma_entries_v(out@);
                    assert(crate::json::entries_v(out@) =~= crate::json::entries_v(entries@));
                }
                out
            },
            _ => {
                return Err(PolicyStoreError::BadShape);
            },
        },
    };
    let m = TokenEntityMetadata { user_id, role_mapping, claim_mapping };
    proof {
        if m.claim_mapping@.len() == 0 {
            assert(crate::json::entries_v(m.claim_mapping@) =~= Seq::<(Seq<char>, JsonV)>::empty());
        }
    }
    Ok(m)
}

/// A trusted issuer: its descriptive fields and the entity metadata for each
/// of the four token kinds it can sign.
#[derive(Debug, PartialEq)]
pub struct TrustedIssuerMetadata {
    pub name: String,
    pub description: String,
    pub openid_configuration_endpoint: String,
    pub access_tokens: TokenEntityMetadata,
    pub id_tokens: TokenEntityMetadata,
    pub userinfo_tokens: TokenEntityMetadata,
    pub tx_tokens: TokenEntityMetadata,
}

/// The mathematical shape of a trusted issuer's metadata.
pub ghost struct TimV {
    pub name: Seq<char>,
    pub description: Seq<char>,
    pub openid_configuration_endpoint: Seq<char>,
    pub access_tokens: TemV,
    pub id_tokens: TemV,
    pub userinfo_tokens: TemV,
    pub tx_tokens: TemV,
}

impl View for TrustedIssuerMetadata {
    type V = TimV;

    open spec fn view(&self) -> TimV {
        TimV {
            name: self.name@,
            description: self.description@,
            openid_configuration_endpoint: self.openid_configuration_endpoint@,
            access_tokens: self.access_tokens@,
            id_tokens: self.id_tokens@,
            userinfo_tokens: self.userinfo_tokens@,
            tx_tokens: self.tx_tokens@,
        }
    }
}

/// The string a required field holds, when it holds one.
pub open spec fn req_str_field(v: JsonV, key: Seq<char>) -> Option<Seq<char>> {
    match field_of(v, key) {
        Some(JsonV::Str(s)) => Some(s),
        _ => None,
    }
}

/// The metadata block under `key`, when it parses.
pub open spec fn tem_field(v: JsonV, key: Seq<char>) -> Option<TemV> {
    match field_of(v, key) {
        Some(block) => tem_of(block),
        None => None,
    }
}

/// What a trusted-issuer block parses to, when it is well-shaped.
pub open spec fn tim_of(v: JsonV) -> Option<TimV> {
    match (req_str_field(v, "name"@), req_str_field(v, "description"@), req_str_field(
        v,
        "openid_configuration_endpoint"@,
    )) {
        (Some(name), Some(description), Some(endpoint)) => {
            match (tem_field(v, "access_tokens"@), tem_field(v, "id_tokens"@), tem_field(
                v,
                "userinfo_tokens"@,
            ), tem_field(v, "tx_tokens"@)) {
                (Some(access), Some(id), Some(userinfo), Some(tx)) => Some(
                    TimV {
                        name,
                        description,
                        openid_configuration_endpoint: endpoint,
                        access_tokens: access,
                        id_tokens: id,
                        userinfo_tokens: userinfo,
                        tx_tokens: tx,
                    },
                ),
                _ => None,
            }
        },
        _ => None,
    }
}

/// Parses the metadata block under `key`.
fn parse_tem_field(v: &Json, key: &str) -> (r: Result<TokenEntityMetadata, PolicyStoreError>)
    ensures
        r matches Ok(m) ==> tem_field(v@, key@) == Some(m@),
        r matches Err(e) ==> e is BadShape && tem_field(v@, key@) is None,
{
    match v.get(key) {
        Some(block) => parse_token_entity_metadata(block),
        None => Err(PolicyStoreError::BadShape),
    }
}

impl TrustedIssuerMetadata {
    /// Parses one trusted-issuer block.
    pub fn from_json(v: &Json) -> (r: Result<TrustedIssuerMetadata, PolicyStoreError>)
        ensures
            r matches Ok(m) ==> tim_of(v@) == Some(m@),
            r matches Err(e) ==> e is BadShape && tim_of(v@) is None,
    {
        let name = match v.get_str("name") {
            Some(s) => s,
            None => {
                return Err(PolicyStoreError::BadShape);
            },
        };
        let description = match v.get_str("description") {
            Some(s) => s,
            None => {
                return Err(PolicyStoreError::BadShape);
            },
        };
        let openid_configuration_endpoint = match v.get_str("openid_configuration_endpoint") {
            Some(s) => s,
            None => {
                return Err(PolicyStoreError::BadShape);
            },
        };
        let access_tokens = match parse_tem_field(v, "access_tokens") {
            Ok(m) => m,
            Err(e) => {
                return Err(e);
            },
        };
        let id_tokens = match parse_tem_field(v, "id_tokens") {
            Ok(m) => m,
            Err(e) => {
                return Err(e);
            },
        };
        let userinfo_tokens = match parse_tem_field(v, "userinfo_tokens") {
            Ok(m) => m,
            Err(e) => {
                return Err(e);
            },
        };
        let tx_tokens = match parse_tem_field(v, "tx_tokens") {
            Ok(m) => m,
            Err(e) => {
                return Err(e);
            },
        };
        Ok(
            TrustedIssuerMetadata {
                name,
                description,
                openid_configuration_endpoint,
                access_tokens,
                id_tokens,
                userinfo_tokens,
                tx_tokens,
            },
        )
    }

    /// Parses one trusted-issuer block from a JSON document.
    pub fn from_json_str(s: &str) -> (r: Result<TrustedIssuerMetadata, PolicyStoreError>)
        ensures
            r matches Ok(m) ==> json_of(s@) matches Some(v) && tim_of(v) == Some(m@),
            r is Err ==> match json_of(s@) {
                Some(v) => tim_of(v) is None,
                None => true,
            },
    {
        match parse_json(s) {
            Some(v) => TrustedIssuerMetadata::from_json(&v),
            None => Err(PolicyStoreError::BadShape),
        }
    }
}

/// A semantic version's release triple.
#[derive(Clone, Copy, Debug, PartialEq, Eq, Structural)]
pub struct SemverVersion {
    pub major: u64,
    pub minor: u64,
    pub patch: u64,
}

/// The release triple that the semver grammar reads from a version string.
pub uninterp spec fn semver_triple_of(s: Seq<char>) -> Option<(u64, u64, u64)>;

/// Relies on semver::Version::parse: reads a semantic version, handing out
/// its release triple; acceptance depends on the string alone.
#[verifier::external_body]
fn parse_semver(s: &str) -> (r: Option<SemverVersion>)
    ensures
        r matches Some(v) ==> semver_triple_of(s@) == Some((v.major, v.minor, v.patch)),
        r is None ==> semver_triple_of(s@) is None,
{
    match semver::Version::parse(s) {
        Ok(v) => Some(SemverVersion { major: v.major, minor: v.minor, patch: v.patch }),
        Err(_) => None,
    }
}

/// A version string with a leading `v` shed.
pub open spec fn strip_v(s: Seq<char>) -> Seq<char> {
    if s.len() > 0 && s[0] == 'v' {
        s.skip(1)
    } else {
        s
    }
}

fn strip_v_str(s: &String) -> (r: String)
    ensures
        r@ == strip_v(s@),
{
    let len = s.as_str().unicode_len();
    if len > 0 && s.as_str().get_char(0) == 'v' {
        let rest = s.as_str().substring_char(1, len);
        proof {
            assert(rest@ =~= s@.skip(1));
        }
        String::from_str(rest)
    } else {
        s.clone()
    }
}

/// Base64 text: standard-alphabet base64 whose bytes spell UTF-8.
pub open spec fn b64_text(s: Seq<char>) -> Option<Seq<char>> {
    match b64_standard_of(s) {
        Some(bytes) => utf8_of(bytes),
        None => None,
    }
}

/// Decodes standard base64 into the text it carries.
fn decode_b64_string(s: &str) -> (r: Option<String>)
    ensures
        r matches Some(t) ==> b64_text(s@) == Some(t@),
        r is None ==> b64_text(s@) is None,
{
    match b64_standard_decode(s) {
        Some(bytes) => utf8_to_string(bytes),
        None => None,
    }
}

/// One policy of an Agama store: its descriptive fields, the decoded policy
/// text, and Cedar's parse of it.
pub struct AgamaPolicyContent {
    pub description: String,
    pub creation_date: String,
    pub policy_src: String,
    pub policy_content: cedar_policy::Policy,
}

/// A policy store from the Agama policy designer: its schema and policy
/// texts arrive base64-encoded, under exactly one entry of `policy_stores`.
pub struct AgamaPolicyStore {
    pub name: String,
    pub description: Option<String>,
    pub cedar_version: Option<SemverVersion>,
    pub policies: Vec<(String, AgamaPolicyContent)>,
    pub cedar_schema: CedarSchema,
    pub trusted_issuers: Vec<(String, TrustedIssuerMetadata)>,
}

/// The schema, both compiled for evaluation and in JSON form for
/// attribute-type introspection.
pub struct CedarSchema {
    pub schema: cedar_policy::Schema,
    pub json: Json,
}

/// The single policy store of an Agama document, when there is exactly one.
pub open spec fn agama_top_store(top: JsonV) -> Option<(Seq<char>, JsonV)> {
    match field_of(top, "policy_stores"@) {
        Some(JsonV::Obj(stores)) => if stores.len() == 1 {
            Some(stores[0])
        } else {
            None
        },
        _ => None,
    }
}

/// A well-shaped Agama policy entry: descriptive strings, and base64 policy
/// text that Cedar parses.
pub open spec fn agama_policy_valid(p: JsonV) -> bool {
    &&& req_str_field(p, "description"@) is Some
    &&& req_str_field(p, "creation_date"@) is Some
    &&& match req_str_field(p, "policy_content"@) {
        Some(b) => b64_text(b) matches Some(t) && policy_text_ok(t),
        None => false,
    }
}

/// The optional description rule: absent or a string, with the empty string
/// meaning none.
pub open spec fn description_field_ok(store: JsonV) -> bool {
    match field_of(store, "description"@) {
        None => true,
        Some(JsonV::Str(_)) => true,
        Some(_) => false,
    }
}

/// The optional `cedar_version` rule: absent, or a string that is a
/// semantic version once a leading `v` is shed.
pub open spec fn cedar_version_ok(top: JsonV) -> bool {
    match field_of(top, "cedar_version"@) {
        None => true,
        Some(JsonV::Str(s)) => semver_triple_of(strip_v(s)) is Some,
        Some(_) => false,
    }
}

/// A well-shaped Agama document: exactly one store, whose name, schema,
/// policies and trusted issuers all parse.
pub open spec fn agama_valid(top: JsonV) -> bool {
    &&& agama_top_store(top) matches Some(named) && {
        let store = named.1;
        &&& req_str_field(store, "name"@) is Some
        &&& description_field_ok(store)
        &&& cedar_version_ok(top)
        &&& match req_str_field(store, "schema"@) {
            Some(b) => b64_text(b) matches Some(t) && schema_json_ok(t) && json_of(t) is Some,
            None => false,
        }
        &&& match field_of(store, "policies"@) {
            Some(JsonV::Obj(pols)) => forall|i: int|
                0 <= i < pols.len() ==> agama_policy_valid((#[trigger] pols[i]).1),
            _ => false,
        }
        &&& match field_of(store, "trusted_issuers"@) {
            Some(JsonV::Obj(tis)) => forall|i: int|
                0 <= i < tis.len() ==> tim_of((#[trigger] tis[i]).1) is Some,
            _ => false,
        }
    }
}

impl AgamaPolicyStore {
    /// Parses an Agama policy-store document. On success the store's fields
    /// are exactly what the document's single policy store declares, with
    /// every base64 layer decoded and every policy and the schema accepted
    /// by Cedar; a document that is not in that shape is refused.
    pub fn parse(s: &str) -> (r: Result<AgamaPolicyStore, PolicyStoreError>)
        ensures
            r matches Ok(ps) ==> {
                &&& json_of(s@) matches Some(top)
                &&& agama_valid(top)
                &&& {
                    let store = agama_top_store(top)->Some_0.1;
                    &&& Some(ps.name@) == req_str_field(store, "name"@)
                    &&& match field_of(store, "description"@) {
                        Some(JsonV::Str(d)) => ps.description matches Some(pd) && pd@ == d
                            || (d.len() == 0 && ps.description is None),
                        _ => ps.description is None,
                    }
                    &&& match field_of(top, "cedar_version"@) {
                        Some(JsonV::Str(vs)) => ps.cedar_version matches Some(v)
                            && semver_triple_of(strip_v(vs)) == Some((v.major, v.minor, v.patch)),
                        _ => ps.cedar_version is None,
                    }
                    &&& json_of(b64_text(req_str_field(store, "schema"@)->Some_0)->Some_0) == Some(
                        ps.cedar_schema.json@,
                    )
                    &&& field_of(store, "policies"@) matches Some(JsonV::Obj(pols)) && {
                        &&& ps.policies@.len() == pols.len()
                        &&& forall|i: int|
                            0 <= i < pols.len() ==> {
                                &&& (#[trigger] ps.policies@[i]).0@ == pols[i].0
                                &&& Some(ps.policies@[i].1.description@) == req_str_field(
                                    pols[i].1,
                                    "description"@,
                                )
                                &&& Some(ps.policies@[i].1.creation_date@) == req_str_field(
                                    pols[i].1,
                                    "creation_date"@,
                                )
                                &&& Some(ps.policies@[i].1.policy_src@) == b64_text(
                                    req_str_field(pols[i].1, "policy_content"@)->Some_0,
                                )
                            }
                    }
                    &&& field_of(store, "trusted_issuers"@) matches Some(JsonV::Obj(tis)) && {
                        &&& ps.trusted_issuers@.len() == tis.len()
                        &&& forall|i: int|
                            0 <= i < tis.len() ==> {
                                &&& (#[trigger] ps.trusted_issuers@[i]).0@ == tis[i].0
                                &&& Some(ps.trusted_issuers@[i].1@) == tim_of(tis[i].1)
                            }
                    }
                }
            },
            r is Err ==> !(json_of(s@) matches Some(top) && agama_valid(top)),
            r matches Err(e) ==> {
                &&& e is NoPolicyStore ==> match json_of(s@) {
                    Some(top) => match field_of(top, "policy_stores"@) {
                        Some(JsonV::Obj(stores)) => stores.len() == 0,
                        _ => false,
                    },
                    None => false,
                }
                &&& e is MultiplePolicyStores ==> match json_of(s@) {
                    Some(top) => match field_of(top, "policy_stores"@) {
                        Some(JsonV::Obj(stores)) => stores.len() > 1,
                        _ => false,
                    },
                    None => false,
                }
            },
    {
        let top = match parse_json(s) {
            Some(j) => j,
            None => {
                return Err(PolicyStoreError::BadShape);
            },
        };
        let stores = match top.get("policy_stores") {
            Some(j) => match j {
                Json::Obj(stores) => stores,
                _ => {
                    return Err(PolicyStoreError::BadShape);
                },
            },
            None => {
                return Err(PolicyStoreError::BadShape);
            },
        };
        proof {
            crate::json::lemma_entries_v(stores@);
        }
        if stores.len() == 0 {
            return Err(PolicyStoreError::NoPolicyStore);
        }
        if stores.len() > 1 {
            return Err(PolicyStoreError::MultiplePolicyStores);
        }
        let store = &stores[0].1;
        let name = match store.get_str("name") {
            Some(s) => s,
            None => {
                return Err(PolicyStoreError::BadShape);
            },
        };
        let description: Option<String> = match store.get("description") {
            None => None,
            Some(j) => match j.as_str() {
                Some(d) => {
                    if d.as_str().unicode_len() == 0 {
                        None
                    } else {
                        Some(d.clone())
                    }
                },
                None => {
                    return Err(PolicyStoreError::BadShape);
                },
            },
        };
        let cedar_version: Option<SemverVersion> = match top.get("cedar_version") {
            None => None,
            Some(j) => match j.as_str() {
                Some(vs) => {
                    let stripped = strip_v_str(vs);
                    match parse_semver(stripped.as_str()) {
                        Some(v) => Some(v),
                        None => {
                            return Err(PolicyStoreError::InvalidSemver);
                        },
                    }
                },
                None => {
                    return Err(PolicyStoreError::BadShape);
                },
            },
        };
        let schema_b64 = match store.get_str("schema") {
            Some(s) => s,
            None => {
                return Err(PolicyStoreError::BadShape);
            },
        };
        let schema_text = match decode_b64_string(schema_b64.as_str()) {
            Some(t) => t,
            None => {
                return Err(PolicyStoreError::BadBase64);
            },
        };
        let schema = match parse_schema_json(schema_text.as_str()) {
            Some(sch) => sch,
            None => {
                return Err(PolicyStoreError::SchemaParse);
            },
        };
        let schema_json = match parse_json(schema_text.as_str()) {
            Some(j) => j,
            None => {
                return Err(PolicyStoreError::SchemaParse);
            },
        };
        let pols = match store.get("policies") {
            Some(j) => match j {
                Json::Obj(pols) => pols,
                _ => {
                    return Err(PolicyStoreError::BadShape);
                },
            },
            None => {
                return Err(PolicyStoreError::BadShape);
            },
        };
        proof {
            crate::json::lemma_entries_v(pols@);
        }
        let ghost pols_view = crate::json::entries_v(pols@);
        let mut policies: Vec<(String, AgamaPolicyContent)> = Vec::new();
        let n = pols.len();
        let mut i: usize = 0;
        while i < n
            invariant
                0 <= i <= n,
                n == pols@.len(),
                pols_view.len() == n,
                json_of(s@) == Some(top@),
                stores@.len() == 1,
                agama_top_store(top@) == Some((stores@[0].0@, stores@[0].1@)),
                field_of(stores@[0].1@, "policies"@) == Some(JsonV::Obj(pols_view)),
                forall|a: int|
                    0 <= a < n ==> #[trigger] pols_view[a] == (pols@[a].0@, pols@[a].1@),
                policies@.len() == i,
                forall|a: int| 0 <= a < i ==> agama_policy_valid((#[trigger] pols_view[a]).1),
                forall|a: int|
                    0 <= a < i ==> (#[trigger] policies@[a]).0@ == pols_view[a].0,
                forall|a: int|
                    0 <= a < i ==> Some((#[trigger] policies@[a]).1.description@)
                        == req_str_field(pols_view[a].1, "description"@),
                forall|a: int|
                    0 <= a < i ==> Some((#[trigger] policies@[a]).1.creation_date@)
                        == req_str_field(pols_view[a].1, "creation_date"@),
                forall|a: int|
                    0 <= a < i ==> Some((#[trigger] policies@[a]).1.policy_src@) == b64_text(
                        req_str_field(pols_view[a].1, "policy_content"@)->Some_0,
                    ),
            decreases n - i,
        {
            let pol = &pols[i].1;
            proof {
                assert(pols_view[i as int] == (pols@[i as int].0@, pols@[i as int].1@));
            }
            let pol_description = match pol.get_str("description") {
                Some(s) => s,
                None => {
                    proof {
                        assert(!agama_policy_valid(pols_view[i as int].1));
                        assert(!agama_valid(top@));
                    }
                    return Err(PolicyStoreError::BadShape);
                },
            };
            let creation_date = match pol.get_str("creation_date") {
                Some(s) => s,
                None => {
                    proof {
                        assert(!agama_policy_valid(pols_view[i as int].1));
                        assert(!agama_valid(top@));
                    }
                    return Err(PolicyStoreError::BadShape);
                },
            };
            let content_b64 = match pol.get_str("policy_content") {
                Some(s) => s,
                None => {
                    proof {
                        assert(!agama_policy_valid(pols_view[i as int].1));
                        assert(!agama_valid(top@));
                    }
                    return Err(PolicyStoreError::BadShape);
                },
            };
            let policy_src = match decode_b64_string(content_b64.as_str()) {
                Some(t) => t,
                None => {
                    proof {
                        assert(!agama_policy_valid(pols_view[i as int].1));
                        assert(!agama_valid(top@));
                    }
                    return Err(PolicyStoreError::BadBase64);
                },
            };
            let policy = match parse_policy(pols[i].0.as_str(), policy_src.as_str()) {
                Some(p) => p,
                None => {
                    proof {
                        assert(!agama_policy_valid(pols_view[i as int].1));
                        assert(!agama_valid(top@));
                    }
                    return Err(PolicyStoreError::PolicyParse);
                },
            };
            let id = pols[i].0.clone();
            let ghost pre = policies@;
            policies.push(
                (
                    id,
                    AgamaPolicyContent {
                        description: pol_description,
                        creation_date,
                        policy_src,
                        policy_content: policy,
                    },
                ),
            );
            proof {
                assert(pols_view[i as int] == (pols@[i as int].0@, pols@[i as int].1@));
                assert(agama_policy_valid(pols_view[i as int].1));
                assert forall|a: int| 0 <= a < i + 1 implies {
                    &&& (#[trigger] policies@[a]).0@ == pols_view[a].0
                    &&& Some(policies@[a].1.description@) == req_str_field(
                        pols_view[a].1,
                        "description"@,
                    )
                    &&& Some(policies@[a].1.creation_date@) == req_str_field(
                        pols_view[a].1,
                        "creation_date"@,
                    )
                    &&& Some(policies@[a].1.policy_src@) == b64_text(
                        req_str_field(pols_view[a].1, "policy_content"@)->Some_0,
                    )
                } by {
                    if a < i {
                        assert(policies@[a] == pre[a]);
                    } else {
                        assert(policies@[a] == policies@[i as int]);
                    }
                }
            }
            i = i + 1;
        }
        let tis = match store.get("trusted_issuers") {
            Some(j) => match j {
                Json::Obj(tis) => tis,
                _ => {
                    return Err(PolicyStoreError::BadShape);
                },
            },
            None => {
                return Err(PolicyStoreError::BadShape);
            },
        };
        proof {
            crate::json::lemma_entries_v(tis@);
        }
        let ghost tis_view = crate::json::entries_v(tis@);
        let mut trusted_issuers: Vec<(String, TrustedIssuerMetadata)> = Vec::new();
        let m = tis.len();
        let mut j: usize = 0;
        while j < m
            invariant
                0 <= j <= m,
                m == tis@.len(),
                tis_view.len() == m,
                json_of(s@) == Some(top@),
                stores@.len() == 1,
                agama_top_store(top@) == Some((stores@[0].0@, stores@[0].1@)),
                field_of(stores@[0].1@, "trusted_issuers"@) == Some(JsonV::Obj(tis_view)),
                forall|a: int| 0 <= a < m ==> #[trigger] tis_view[a] == (tis@[a].0@, tis@[a].1@),
                trusted_issuers@.len() == j,
                forall|a: int|
                    0 <= a < j ==> (#[trigger] trusted_issuers@[a]).0@ == tis_view[a].0,
                forall|a: int|
                    0 <= a < j ==> Some((#[trigger] trusted_issuers@[a]).1@) == tim_of(
                        tis_view[a].1,
                    ),
            decreases m - j,
        {
            let issuer = match TrustedIssuerMetadata::from_json(&tis[j].1) {
                Ok(t) => t,
                Err(e) => {
                    proof {
                        assert(tim_of(tis_view[j as int].1) is None);
                        assert(!agama_valid(top@));
                    }
                    return Err(e);
                },
            };
            let id = tis[j].0.clone();
            let ghost pre = trusted_issuers@;
            trusted_issuers.push((id, issuer));
            proof {
                assert(tis_view[j as int] == (tis@[j as int].0@, tis@[j as int].1@));
                assert forall|a: int| 0 <= a < j + 1 implies {
                    &&& (#[trigger] trusted_issuers@[a]).0@ == tis_view[a].0
                    &&& Some(trusted_issuers@[a].1@) == tim_of(tis_view[a].1)
                } by {
                    if a < j {
                        assert(trusted_issuers@[a] == pre[a]);
                    } else {
                        assert(trusted_issuers@[a] == trusted_issuers@[j as int]);
                    }
                }
            }
            j = j + 1;
        }
        let ps = AgamaPolicyStore {
            name,
            description,
            cedar_version,
            policies,
            cedar_schema: CedarSchema { schema, json: schema_json },
            trusted_issuers,
        };
        proof {
            let topv = top@;
            let storesv = crate::json::entries_v(stores@);
            assert(field_of(topv, "policy_stores"@) == Some(JsonV::Obj(storesv)));
            assert(storesv.len() == 1);
            assert(agama_top_store(topv) == Some(storesv[0]));
            assert(storesv[0] == (stores@[0].0@, stores@[0].1@));
            let storev = stores@[0].1@;
            assert(req_str_field(storev, "name"@) == Some(ps.name@));
            assert(description_field_ok(storev));
            assert(cedar_version_ok(topv));
            assert(req_str_field(storev, "schema"@) == Some(schema_b64@));
            assert(b64_text(schema_b64@) == Some(schema_text@));
            assert(schema_json_ok(schema_text@));
            assert(json_of(schema_text@) == Some(schema_json@));
            let polsv = crate::json::entries_v(pols@);
            assert(field_of(storev, "policies"@) == Some(JsonV::Obj(polsv)));
            let tisv = crate::json::entries_v(tis@);
            assert(field_of(storev, "trusted_issuers"@) == Some(JsonV::Obj(tisv)));
            assert forall|a: int| 0 <= a < tisv.len() implies tim_of(
                (#[trigger] tisv[a]).1,
            ) is Some by {
                assert(Some(trusted_issuers@[a].1@) == tim_of(tisv[a].1));
            }
            assert(agama_valid(topv));
        }
        Ok(ps)
    }
}

/// The first issuer entry registered under `id`.
pub open spec fn find_issuer_meta(entries: Seq<(Seq<char>, TimV)>, id: Seq<char>) -> Option<TimV>
    decreases entries.len(),
{
    if entries.len() == 0 {
        None
    } else if entries[0].0 == id {
        Some(entries[0].1)
    } else {
        find_issuer_meta(entries.skip(1), id)
    }
}

proof fn lemma_find_issuer_meta_at(entries: Seq<(Seq<char>, TimV)>, id: Seq<char>, i: int)
    requires
        0 <= i <= entries.len(),
        forall|a: int| 0 <= a < i ==> (#[trigger] entries[a]).0 != id,
        i < entries.len() ==> entries[i].0 == id,
    ensures
        i == entries.len() ==> find_issuer_meta(entries, id) is None,
        i < entries.len() ==> find_issuer_meta(entries, id) == Some(entries[i].1),
    decreases entries.len(),
{
    if entries.len() > 0 && entries[0].0 != id {
        assert(i > 0);
        lemma_find_issuer_meta_at(entries.skip(1), id, i - 1);
        assert forall|a: int| 0 <= a < i - 1 implies (#[trigger] entries.skip(1)[a]).0 != id by {
            assert(entries.skip(1)[a] == entries[a + 1]);
        }
        if i < entries.len() {
            assert(entries.skip(1)[i - 1] == entries[i]);
        }
    }
}

/// One policy of the store: its descriptive fields, its text, and Cedar's
/// parse of it.
pub struct PolicyEntry {
    pub id: String,
    pub description: String,
    pub creation_date: String,
    pub policy_src: String,
    pub policy: cedar_policy::Policy,
}

/// The policy store the engine evaluates against: the compiled schema with
/// its JSON form, the policy set, and the trusted-issuer table.
pub struct PolicyStore {
    pub id: String,
    pub cedar_version: Option<SemverVersion>,
    pub cedar_schema: CedarSchema,
    pub policies: Vec<PolicyEntry>,
    pub policy_set: cedar_policy::PolicySet,
    pub trusted_issuers: Vec<(String, TrustedIssuerMetadata)>,
}

/// Whether Cedar's schema parser accepts this JSON value.
pub uninterp spec fn schema_json_value_ok(v: JsonV) -> bool;

/// Relies on cedar_policy::Schema::from_json_value: compiles a schema from
/// its JSON form; acceptance depends on the value alone.
#[verifier::external_body]
fn parse_schema_json_value(v: &Json) -> (r: Option<cedar_policy::Schema>)
    ensures
        r is Some <==> schema_json_value_ok(v@),
{
    cedar_policy::Schema::from_json_value(crate::codec::value_from_json(v)).ok()
}

/// A well-shaped native policy entry: descriptive strings and policy text
/// that Cedar parses.
pub open spec fn native_policy_valid(p: JsonV) -> bool {
    &&& req_str_field(p, "description"@) is Some
    &&& req_str_field(p, "creation_date"@) is Some
    &&& match req_str_field(p, "policy_content"@) {
        Some(t) => policy_text_ok(t),
        None => false,
    }
}

/// Whether the policies object carries pairwise distinct policy ids.
pub open spec fn distinct_policy_ids(pols: Seq<(Seq<char>, JsonV)>) -> bool {
    forall|i: int, j: int| 0 <= i < j < pols.len() ==> (#[trigger] pols[i]).0 != (#[trigger] pols[j]).0
}

/// A well-shaped native policy-store document: an id, an optional semantic
/// version, an inline schema Cedar accepts, policies that parse, and
/// trusted issuers that parse.
pub open spec fn native_valid(top: JsonV) -> bool {
    &&& req_str_field(top, "id"@) is Some
    &&& cedar_version_ok(top)
    &&& match field_of(top, "schema"@) {
        Some(sv) => schema_json_value_ok(sv),
        None => false,
    }
    &&& match field_of(top, "policies"@) {
        Some(JsonV::Obj(pols)) => forall|i: int|
            0 <= i < pols.len() ==> native_policy_valid((#[trigger] pols[i]).1),
        _ => false,
    }
    &&& match field_of(top, "trusted_issuers"@) {
        Some(JsonV::Obj(tis)) => forall|i: int|
            0 <= i < tis.len() ==> tim_of((#[trigger] tis[i]).1) is Some,
        _ => false,
    }
}

impl PolicyStore {
    /// Parses a native policy-store document: a plain object holding the id,
    /// the inline schema JSON, the policy texts and the trusted issuers. On
    /// success the store's fields are exactly what the document declares.
    pub fn from_json_str(s: &str) -> (r: Result<PolicyStore, PolicyStoreError>)
        ensures
            r matches Ok(ps) ==> {
                &&& json_of(s@) matches Some(top)
                &&& native_valid(top)
                &&& Some(ps.id@) == req_str_field(top, "id"@)
                &&& match field_of(top, "cedar_version"@) {
                    Some(JsonV::Str(vs)) => ps.cedar_version matches Some(v) && semver_triple_of(
                        strip_v(vs),
                    ) == Some((v.major, v.minor, v.patch)),
                    _ => ps.cedar_version is None,
                }
                &&& Some(ps.cedar_schema.json@) == field_of(top, "schema"@)
                &&& field_of(top, "policies"@) matches Some(JsonV::Obj(pols)) && {
                    &&& ps.policies@.len() == pols.len()
                    &&& forall|i: int|
                        0 <= i < pols.len() ==> {
                            &&& (#[trigger] ps.policies@[i]).id@ == pols[i].0
                            &&& Some(ps.policies@[i].policy_src@) == req_str_field(
                                pols[i].1,
                                "policy_content"@,
                            )
                        }
                }
                &&& field_of(top, "trusted_issuers"@) matches Some(JsonV::Obj(tis)) && {
                    &&& ps.trusted_issuers@.len() == tis.len()
                    &&& forall|i: int|
                        0 <= i < tis.len() ==> {
                            &&& (#[trigger] ps.trusted_issuers@[i]).0@ == tis[i].0
                            &&& Some(ps.trusted_issuers@[i].1@) == tim_of(tis[i].1)
                        }
                }
            },
            r is Ok ==> (json_of(s@) matches Some(top) && native_valid(top) && (
            field_of(top, "policies"@) matches Some(JsonV::Obj(pols)) && distinct_policy_ids(
                pols,
            ))),
            r matches Err(e) && e is DuplicatePolicyId <==> (json_of(s@) matches Some(top)
                && native_valid(top) && (field_of(top, "policies"@) matches Some(JsonV::Obj(pols))
                && !distinct_policy_ids(pols))),
            r matches Err(e) && !(e is PolicySet) ==> match json_of(s@) {
                Some(top) => !(native_valid(top) && (field_of(top, "policies"@) matches Some(
                    JsonV::Obj(pols),
                ) && distinct_policy_ids(pols))),
                None => true,
            },
    {
        let top = match parse_json(s) {
            Some(j) => j,
            None => {
                return Err(PolicyStoreError::BadShape);
            },
        };
        let id = match top.get_str("id") {
            Some(s) => s,
            None => {
                return Err(PolicyStoreError::BadShape);
            },
        };
        let cedar_version: Option<SemverVersion> = match top.get("cedar_version") {
            None => None,
            Some(j) => match j.as_str() {
                Some(vs) => {
                    let stripped = strip_v_str(vs);
                    match parse_semver(stripped.as_str()) {
                        Some(v) => Some(v),
                        None => {
                            return Err(PolicyStoreError::InvalidSemver);
                        },
                    }
                },
                None => {
                    return Err(PolicyStoreError::BadShape);
                },
            },
        };
        let schema_json = match top.get("schema") {
            Some(j) => j.duplicate(),
            None => {
                return Err(PolicyStoreError::BadShape);
            },
        };
        let schema = match parse_schema_json_value(&schema_json) {
            Some(sch) => sch,
            None => {
                return Err(PolicyStoreError::SchemaParse);
            },
        };
        let pols = match top.get("policies") {
            Some(j) => match j {
                Json::Obj(pols) => pols,
                _ => {
                    return Err(PolicyStoreError::BadShape);
                },
            },
            None => {
                return Err(PolicyStoreError::BadShape);
            },
        };
        proof {
            crate::json::lemma_entries_v(pols@);
        }
        let ghost pols_view = crate::json::entries_v(pols@);
        let mut policies: Vec<PolicyEntry> = Vec::new();
        let mut cedar_policies: Vec<cedar_policy::Policy> = Vec::new();
        let n = pols.len();
        let mut i: usize = 0;
        while i < n
            invariant
                0 <= i <= n,
                n == pols@.len(),
                pols_view.len() == n,
                json_of(s@) == Some(top@),
                field_of(top@, "policies"@) == Some(JsonV::Obj(pols_view)),
                forall|a: int|
                    0 <= a < n ==> #[trigger] pols_view[a] == (pols@[a].0@, pols@[a].1@),
                policies@.len() == i,
                forall|a: int| 0 <= a < i ==> native_policy_valid((#[trigger] pols_view[a]).1),
                forall|a: int|
                    0 <= a < i ==> (#[trigger] policies@[a]).id@ == pols_view[a].0,
                forall|a: int|
                    0 <= a < i ==> Some((#[trigger] policies@[a]).policy_src@) == req_str_field(
                        pols_view[a].1,
                        "policy_content"@,
                    ),
            decreases n - i,
        {
            let pol = &pols[i].1;
            proof {
                assert(pols_view[i as int] == (pols@[i as int].0@, pols@[i as int].1@));
            }
            let pol_description = match pol.get_str("description") {
                Some(s) => s,
                None => {
                    proof {
                        assert(!native_policy_valid(pols_view[i as int].1));
                    }
                    return Err(PolicyStoreError::BadShape);
                },
            };
            let creation_date = match pol.get_str("creation_date") {
                Some(s) => s,
                None => {
                    proof {
                        assert(!native_policy_valid(pols_view[i as int].1));
                    }
                    return Err(PolicyStoreError::BadShape);
                },
            };
            let policy_src = match pol.get_str("policy_content") {
                Some(s) => s,
                None => {
                    proof {
                        assert(!native_policy_valid(pols_view[i as int].1));
                    }
                    return Err(PolicyStoreError::BadShape);
                },
            };
            let policy = match parse_policy(pols[i].0.as_str(), policy_src.as_str()) {
                Some(p) => p,
                None => {
                    proof {
                        assert(!native_policy_valid(pols_view[i as int].1));
                    }
                    return Err(PolicyStoreError::PolicyParse);
                },
            };
            let policy_again = match parse_policy(pols[i].0.as_str(), policy_src.as_str()) {
                Some(p) => p,
                None => {
                    return Err(PolicyStoreError::PolicyParse);
                },
            };
            let id = pols[i].0.clone();
            let ghost pre = policies@;
            policies.push(
                PolicyEntry {
                    id,
                    description: pol_description,
                    creation_date,
                    policy_src,
                    policy,
                },
            );
            cedar_policies.push(policy_again);
            proof {
                assert(pols_view[i as int] == (pols@[i as int].0@, pols@[i as int].1@));
                assert(native_policy_valid(pols_view[i as int].1));
                assert forall|a: int| 0 <= a < i + 1 implies {
                    &&& (#[trigger] policies@[a]).id@ == pols_view[a].0
                    &&& Some(policies@[a].policy_src@) == req_str_field(
                        pols_view[a].1,
                        "policy_content"@,
                    )
                } by {
                    if a < i {
                        assert(policies@[a] == pre[a]);
                    } else {
                        assert(policies@[a] == policies@[i as int]);
                    }
                }
            }
            i = i + 1;
        }
        let tis = match top.get("trusted_issuers") {
            Some(j) => match j {
                Json::Obj(tis) => tis,
                _ => {
                    return Err(PolicyStoreError::BadShape);
                },
            },
            None => {
                return Err(PolicyStoreError::BadShape);
            },
        };
        proof {
            crate::json::lemma_entries_v(tis@);
        }
        let ghost tis_view = crate::json::entries_v(tis@);
        let mut trusted_issuers: Vec<(String, TrustedIssuerMetadata)> = Vec::new();
        let m = tis.len();
        let mut j: usize = 0;
        while j < m
            invariant
                0 <= j <= m,
                m == tis@.len(),
                tis_view.len() == m,
                json_of(s@) == Some(top@),
                field_of(top@, "trusted_issuers"@) == Some(JsonV::Obj(tis_view)),
                forall|a: int| 0 <= a < m ==> #[trigger] tis_view[a] == (tis@[a].0@, tis@[a].1@),
                trusted_issuers@.len() == j,
                forall|a: int|
                    0 <= a < j ==> (#[trigger] trusted_issuers@[a]).0@ == tis_view[a].0,
                forall|a: int|
                    0 <= a < j ==> Some((#[trigger] trusted_issuers@[a]).1@) == tim_of(
                        tis_view[a].1,
                    ),
            decreases m - j,
        {
            let issuer = match TrustedIssuerMetadata::from_json(&tis[j].1) {
                Ok(t) => t,
                Err(e) => {
                    proof {
                        assert(tis_view[j as int] == (tis@[j as int].0@, tis@[j as int].1@));
                        assert(tim_of(tis_view[j as int].1) is None);
                    }
                    return Err(e);
                },
            };
            let id = tis[j].0.clone();
            let ghost pre = trusted_issuers@;
            trusted_issuers.push((id, issuer));
            proof {
                assert(tis_view[j as int] == (tis@[j as int].0@, tis@[j as int].1@));
                assert forall|a: int| 0 <= a < j + 1 implies {
                    &&& (#[trigger] trusted_issuers@[a]).0@ == tis_view[a].0
                    &&& Some(trusted_issuers@[a].1@) == tim_of(tis_view[a].1)
                } by {
                    if a < j {
                        assert(trusted_issuers@[a] == pre[a]);
                    } else {
                        assert(trusted_issuers@[a] == trusted_issuers@[j as int]);
                    }
                }
            }
            j = j + 1;
        }
        proof {
            let topv = top@;
            let tisv = crate::json::entries_v(tis@);
            assert(field_of(topv, "trusted_issuers"@) == Some(JsonV::Obj(tisv)));
            assert forall|a: int| 0 <= a < tisv.len() implies tim_of(
                (#[trigger] tisv[a]).1,
            ) is Some by {
                assert(Some(trusted_issuers@[a].1@) == tim_of(tisv[a].1));
            }
            assert(native_valid(topv));
        }
        let n_ids = policies.len();
        let mut a: usize = 0;
        while a < n_ids
            invariant
                0 <= a <= n_ids,
                n_ids == policies@.len(),
                n_ids == pols_view.len(),
                json_of(s@) == Some(top@),
                native_valid(top@),
                field_of(top@, "policies"@) == Some(JsonV::Obj(pols_view)),
                forall|x: int|
                    0 <= x < n_ids ==> (#[trigger] policies@[x]).id@ == pols_view[x].0,
                forall|x: int, y: int|
                    0 <= x < y < n_ids && x < a ==> (#[trigger] pols_view[x]).0 != (
                    #[trigger] pols_view[y]).0,
            decreases n_ids - a,
        {
            let mut b: usize = a + 1;
            while b < n_ids
                invariant
                    0 <= a < b <= n_ids || (a + 1 == b && b > n_ids),
                    a < n_ids,
                    b >= a + 1,
                    b <= n_ids,
                    n_ids == policies@.len(),
                    n_ids == pols_view.len(),
                    json_of(s@) == Some(top@),
                    native_valid(top@),
                    field_of(top@, "policies"@) == Some(JsonV::Obj(pols_view)),
                    forall|x: int|
                        0 <= x < n_ids ==> (#[trigger] policies@[x]).id@ == pols_view[x].0,
                    forall|y: int|
                        a < y < b ==> (#[trigger] pols_view[y]).0 != pols_view[a as int].0,
                decreases n_ids - b,
            {
                if policies[a].id == policies[b].id {
                    proof {
                        assert(pols_view[a as int].0 == pols_view[b as int].0);
                        assert(!distinct_policy_ids(pols_view));
                    }
                    return Err(PolicyStoreError::DuplicatePolicyId);
                }
                assert(pols_view[b as int].0 != pols_view[a as int].0);
                b = b + 1;
            }
            a = a + 1;
        }
        proof {
            assert(distinct_policy_ids(pols_view));
        }
        let policy_set = match policy_set_from(cedar_policies) {
            Some(set) => set,
            None => {
                return Err(PolicyStoreError::PolicySet);
            },
        };
        let ps = PolicyStore {
            id,
            cedar_version,
            cedar_schema: CedarSchema { schema, json: schema_json },
            policies,
            policy_set,
            trusted_issuers,
        };
        proof {
            let topv = top@;
            let polsv = crate::json::entries_v(pols@);
            assert(field_of(topv, "policies"@) == Some(JsonV::Obj(polsv)));
            let tisv = crate::json::entries_v(tis@);
            assert(field_of(topv, "trusted_issuers"@) == Some(JsonV::Obj(tisv)));
            assert forall|a: int| 0 <= a < tisv.len() implies tim_of(
                (#[trigger] tisv[a]).1,
            ) is Some by {
                assert(Some(trusted_issuers@[a].1@) == tim_of(tisv[a].1));
            }
            assert(native_valid(topv));
        }
        Ok(ps)
    }

    /// The issuers table: each issuer id with its metadata's shape.
    pub open spec fn issuers_view(self) -> Seq<(Seq<char>, TimV)> {
        Seq::new(
            self.trusted_issuers@.len(),
            |i: int| (self.trusted_issuers@[i].0@, self.trusted_issuers@[i].1@),
        )
    }

    /// The trusted issuer registered under `id`: its first entry.
    pub fn get_issuer(&self, id: &String) -> (r: Option<&TrustedIssuerMetadata>)
        ensures
            match r {
                Some(t) => find_issuer_meta(self.issuers_view(), id@) == Some(t@),
                None => find_issuer_meta(self.issuers_view(), id@) is None,
            },
    {
        let n = self.trusted_issuers.len();
        let mut i: usize = 0;
        while i < n
            invariant
                0 <= i <= n,
                n == self.trusted_issuers@.len(),
                self.issuers_view().len() == n,
                forall|a: int| 0 <= a < i ==> (#[trigger] self.issuers_view()[a]).0 != id@,
            decreases n - i,
        {
            if self.trusted_issuers[i].0 == *id {
                proof {
                    assert(self.issuers_view()[i as int] == (
                        id@,
                        self.trusted_issuers@[i as int].1@,
                    ));
                    lemma_find_issuer_meta_at(self.issuers_view(), id@, i as int);
                }
                return Some(&self.trusted_issuers[i].1);
            }
            assert(self.issuers_view()[i as int].0 != id@);
            i = i + 1;
        }
        proof {
            lemma_find_issuer_meta_at(self.issuers_view(), id@, n as int);
        }
        None
    }

    /// Assembles the evaluation-ready store from an Agama document: the
    /// parsed store's schema and issuers carry over, and the policy set is
    /// built from the decoded policy texts. The store id is the single
    /// `policy_stores` key.
    pub fn from_agama_str(s: &str) -> (r: Result<PolicyStore, PolicyStoreError>)
        ensures
            r matches Err(e) && !(e is PolicySet) ==> !(json_of(s@) matches Some(top)
                && agama_valid(top)),
            r matches Ok(ps) ==> {
                &&& json_of(s@) matches Some(top) && agama_valid(top)
                &&& ps.id@ == agama_top_store(json_of(s@)->Some_0)->Some_0.0
                &&& ({
                    let store = agama_top_store(json_of(s@)->Some_0)->Some_0.1;
                    &&& json_of(b64_text(req_str_field(store, "schema"@)->Some_0)->Some_0)
                        == Some(ps.cedar_schema.json@)
                    &&& field_of(store, "policies"@) matches Some(JsonV::Obj(pols)) && {
                        &&& ps.policies@.len() == pols.len()
                        &&& forall|i: int|
                            0 <= i < pols.len() ==> {
                                &&& (#[trigger] ps.policies@[i]).id@ == pols[i].0
                                &&& Some(ps.policies@[i].policy_src@) == b64_text(
                                    req_str_field(pols[i].1, "policy_content"@)->Some_0,
                                )
                            }
                    }
                    &&& field_of(store, "trusted_issuers"@) matches Some(JsonV::Obj(tis)) && {
                        &&& ps.trusted_issuers@.len() == tis.len()
                        &&& forall|i: int|
                            0 <= i < tis.len() ==> {
                                &&& (#[trigger] ps.trusted_issuers@[i]).0@ == tis[i].0
                                &&& Some(ps.trusted_issuers@[i].1@) == tim_of(tis[i].1)
                            }
                    }
                })
            },
    {
        let top = match parse_json(s) {
            Some(j) => j,
            None => {
                return Err(PolicyStoreError::BadShape);
            },
        };
        let store_id = match top.get("policy_stores") {
            Some(j) => match j {
                Json::Obj(stores) => {
                    proof {
                        crate::json::lemma_entries_v(stores@);
                    }
                    if stores.len() != 1 {
                        proof {
                            assert(field_of(top@, "policy_stores"@) matches Some(v)
                                && v->Obj_0.len() != 1);
                        }
                        String::new()
                    } else {
                        let sid = stores[0].0.clone();
                        proof {
                            assert(field_of(top@, "policy_stores"@) matches Some(v)
                                && v->Obj_0.len() == 1 && v->Obj_0[0].0 == sid@);
                        }
                        sid
                    }
                },
                _ => String::new(),
            },
            None => String::new(),
        };
        let agama = match AgamaPolicyStore::parse(s) {
            Ok(a) => a,
            Err(e) => {
                return Err(e);
            },
        };
        let mut policies: Vec<PolicyEntry> = Vec::new();
        let mut cedar_policies: Vec<cedar_policy::Policy> = Vec::new();
        let n = agama.policies.len();
        let mut i: usize = 0;
        while i < n
            invariant
                0 <= i <= n,
                n == agama.policies@.len(),
                policies@.len() == i,
                forall|x: int|
                    0 <= x < i ==> (#[trigger] policies@[x]).id@ == agama.policies@[x].0@,
                forall|x: int|
                    0 <= x < i ==> (#[trigger] policies@[x]).policy_src@ == agama.policies@[x].1
                        .policy_src@,
            decreases n - i,
        {
            let id = agama.policies[i].0.clone();
            let src_text = agama.policies[i].1.policy_src.clone();
            let policy = match parse_policy(id.as_str(), src_text.as_str()) {
                Some(p) => p,
                None => {
                    return Err(PolicyStoreError::PolicySet);
                },
            };
            let policy_for_set = match parse_policy(id.as_str(), src_text.as_str()) {
                Some(p) => p,
                None => {
                    return Err(PolicyStoreError::PolicySet);
                },
            };
            let description = agama.policies[i].1.description.clone();
            let creation_date = agama.policies[i].1.creation_date.clone();
            policies.push(
                PolicyEntry { id, description, creation_date, policy_src: src_text, policy },
            );
            cedar_policies.push(policy_for_set);
            i = i + 1;
        }
        let policy_set = match policy_set_from(cedar_policies) {
            Some(set) => set,
            None => {
                return Err(PolicyStoreError::PolicySet);
            },
        };
        Ok(
            PolicyStore {
                id: store_id,
                cedar_version: agama.cedar_version,
                cedar_schema: agama.cedar_schema,
                policies,
                policy_set,
                trusted_issuers: agama.trusted_issuers,
            },
        )
    }

    /// The store's version, for log correlation.
    pub fn get_store_version(&self) -> (r: Option<SemverVersion>)
        ensures
            r == self.cedar_version,
    {
        self.cedar_version
    }
}

} // verus!
