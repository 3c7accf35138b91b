//! The authorization engine: it decodes the request's tokens, materializes
//! typed Cedar entities from their claims, evaluates the policy set under
//! the workload view and the user view, and combines the two decisions
//! under the configured operator.

pub mod entities;

use vstd::prelude::*;
use vstd::string::*;

use crate::cedar::authorize_request;
use crate::cedar::context_from_json;
use crate::cedar::entities_from_json;
use crate::cedar::entity_uid_ok;
use crate::cedar::parse_entity_uid;
use crate::cedar::Decision;
use crate::cedar::EvalResponse;
use crate::json::Json;
use crate::json::JsonV;
use crate::jwt::decode;
use crate::jwt::decode_and_validate_token;
use crate::jwt::jwt_payload_json;
use crate::jwt::Alg;
use crate::jwt::JwtValidatorError;
use crate::jwt::KeyService;
use crate::policy_store::PolicyStore;
use crate::authz::entities::entity_uid_string;
use crate::authz::entities::AuthorizeEntitiesData;
use crate::authz::entities::ResourceData;

verus! {

/// How the workload decision and the user decision combine.
#[derive(Clone, Copy, Debug, PartialEq, Eq, Structural)]
pub enum WorkloadUserOperator {
    And,
    Or,
}

/// An authorization request: up to three compact JWTs, the action to check,
/// the resource acted on, and the request context.
pub struct Request {
    pub access_token: Option<String>,
    pub id_token: Option<String>,
    pub userinfo_token: Option<String>,
    pub action: String,
    pub context: Json,
    pub resource: ResourceData,
}

/// How tokens are validated: with signature and temporal checks against the
/// accepted algorithms, or decode-only when disabled.
pub struct JwtConfig {
    pub enabled: bool,
    pub algs: Vec<Alg>,
    pub required_claims: Vec<String>,
}

/// The authorization settings: which principal views are evaluated, how
/// their decisions combine, entity-type overrides, and which claims the
/// decision log projects.
pub struct AuthorizationConfig {
    pub use_workload_principal: bool,
    pub use_user_principal: bool,
    pub user_workload_operator: WorkloadUserOperator,
    pub mapping_workload: Option<String>,
    pub mapping_user: Option<String>,
    pub mapping_role: Option<String>,
    pub mapping_access_token: Option<String>,
    pub mapping_id_token: Option<String>,
    pub mapping_userinfo_token: Option<String>,
    pub decision_log_workload_claims: Vec<String>,
    pub decision_log_user_claims: Vec<String>,
    pub decision_log_default_jwt_id: String,
}

/// Why an authorization call failed.
#[derive(Debug)]
pub enum AuthorizeError {
    /// A token failed decoding or validation.
    ProcessTokens(JwtValidatorError),
    /// The workload entity could not be built from the tokens.
    CreateWorkloadEntity(String),
    /// The user entity could not be built from the tokens.
    CreateUserEntity(String),
    /// A token entity could not be built from its claims.
    CreateAccessTokenEntity(String),
    /// A token entity could not be built from its claims.
    CreateIdTokenEntity(String),
    /// A token entity could not be built from its claims.
    CreateUserinfoTokenEntity(String),
    /// A resource attribute is missing or of the wrong shape.
    ResourceEntity(String),
    /// A role claim that is neither a string nor an array of strings.
    RoleEntity(String),
    /// The action is not an entity-uid string.
    Action,
    /// The context does not conform to the schema for the action.
    CreateContext(String),
    /// The request under the workload principal does not conform to the
    /// schema.
    WorkloadRequestValidation(String),
    /// The request under the user principal does not conform to the schema.
    UserRequestValidation(String),
    /// The entity collection failed Cedar's validation.
    Entities(String),
    /// An enabled principal view has no principal entity.
    MissingPrincipal(String),
}

/// The combined decision: under `And`, allow only when no enabled view
/// denies; under `Or`, allow when at least one enabled view allows.
pub open spec fn combine_spec(
    op: WorkloadUserOperator,
    workload: Option<Decision>,
    user: Option<Decision>,
) -> Decision {
    match op {
        WorkloadUserOperator::And => if workload != Some(Decision::Deny) && user != Some(
            Decision::Deny,
        ) {
            Decision::Allow
        } else {
            Decision::Deny
        },
        WorkloadUserOperator::Or => if workload == Some(Decision::Allow) || user == Some(
            Decision::Allow,
        ) {
            Decision::Allow
        } else {
            Decision::Deny
        },
    }
}

/// Combines the two per-view decisions.
pub fn combine(op: WorkloadUserOperator, workload: Option<Decision>, user: Option<Decision>) -> (r:
    Decision)
    ensures
        r == combine_spec(op, workload, user),
{
    match op {
        WorkloadUserOperator::And => {
            let workload_denies = match workload {
                Some(Decision::Deny) => true,
                _ => false,
            };
            let user_denies = match user {
                Some(Decision::Deny) => true,
                _ => false,
            };
            if !workload_denies && !user_denies {
                Decision::Allow
            } else {
                Decision::Deny
            }
        },
        WorkloadUserOperator::Or => {
            let workload_allows = match workload {
                Some(Decision::Allow) => true,
                _ => false,
            };
            let user_allows = match user {
                Some(Decision::Allow) => true,
                _ => false,
            };
            if workload_allows || user_allows {
                Decision::Allow
            } else {
                Decision::Deny
            }
        },
    }
}

/// Under `And`, if either enabled view denies, the combined decision is
/// Deny.
pub proof fn lemma_and_deny(workload: Option<Decision>, user: Option<Decision>)
    requires
        workload == Some(Decision::Deny) || user == Some(Decision::Deny),
    ensures
        combine_spec(WorkloadUserOperator::And, workload, user) == Decision::Deny,
{
}

/// Under `Or`, if either enabled view allows, the combined decision is
/// Allow.
pub proof fn lemma_or_allow(workload: Option<Decision>, user: Option<Decision>)
    requires
        workload == Some(Decision::Allow) || user == Some(Decision::Allow),
    ensures
        combine_spec(WorkloadUserOperator::Or, workload, user) == Decision::Allow,
{
}

/// What an `authorize` call returned: the per-view evaluations that ran,
/// and the combined decision.
pub struct AuthorizeResult {
    pub workload: Option<EvalResponse>,
    pub user: Option<EvalResponse>,
    pub decision: Decision,
}

/// The decision an optional evaluation contributed.
pub open spec fn decision_of(r: Option<EvalResponse>) -> Option<Decision> {
    match r {
        Some(resp) => Some(resp.decision),
        None => None,
    }
}

impl AuthorizeResult {
    /// Combines the two per-view evaluations under the operator.
    pub fn new(
        op: WorkloadUserOperator,
        workload: Option<EvalResponse>,
        user: Option<EvalResponse>,
    ) -> (r: AuthorizeResult)
        ensures
            r.decision == combine_spec(op, decision_of(r.workload), decision_of(r.user)),
            decision_of(r.workload) == decision_of(workload),
            decision_of(r.user) == decision_of(user),
            r.workload is Some <==> workload is Some,
            r.user is Some <==> user is Some,
    {
        let workload_decision = match &workload {
            Some(resp) => Some(resp.decision),
            None => None,
        };
        let user_decision = match &user {
            Some(resp) => Some(resp.decision),
            None => None,
        };
        let decision = combine(op, workload_decision, user_decision);
        AuthorizeResult { workload, user, decision }
    }

    /// Whether the combined decision allows the request.
    pub fn is_allowed(&self) -> (r: bool)
        ensures
            r == (self.decision is Allow),
    {
        match self.decision {
            Decision::Allow => true,
            Decision::Deny => false,
        }
    }
}

/// The decoded claims of the request's tokens.
pub struct DecodedTokens {
    pub access_token: Option<Json>,
    pub id_token: Option<Json>,
    pub userinfo_token: Option<Json>,
}

/// Everything the authorization engine needs: the policy store, the token
/// rules, the key material, and the authorization settings.
pub struct AuthzConfig {
    pub pdp_id: String,
    pub application_name: String,
    pub policy_store: PolicyStore,
    pub jwt_config: JwtConfig,
    pub authorization: AuthorizationConfig,
    pub key_service: KeyService,
}

/// The authorization engine.
pub struct Authz {
    pub config: AuthzConfig,
}

impl Authz {
    /// The engine is usable when its key service holds only well-formed
    /// keys.
    pub open spec fn wf(self) -> bool {
        self.config.key_service.wf()
    }

    /// Whether a token passes the configured processing: full validation
    /// with required claims when token validation is enabled, bare decoding
    /// otherwise.
    pub open spec fn token_passes(self, token: Seq<char>, now: u64) -> bool {
        if self.config.jwt_config.enabled {
            &&& crate::jwt::token_validated(
                self.config.key_service,
                self.config.jwt_config.algs@,
                token,
                now,
            )
            &&& crate::jwt::missing_from(
                jwt_payload_json(token)->Some_0,
                self.config.jwt_config.required_claims.deep_view(),
            ).len() == 0
        } else {
            jwt_payload_json(token) is Some
        }
    }

    /// Whether every token the request presents passes processing.
    pub open spec fn tokens_pass(self, request: Request, now: u64) -> bool {
        &&& (request.access_token matches Some(t) ==> self.token_passes(t@, now))
        &&& (request.id_token matches Some(t) ==> self.token_passes(t@, now))
        &&& (request.userinfo_token matches Some(t) ==> self.token_passes(t@, now))
    }

    /// The first presented token that fails processing, in the order the
    /// engine decodes them: access, id, userinfo.
    pub open spec fn first_failing_token(self, request: Request, now: u64) -> Option<Seq<char>> {
        if request.access_token matches Some(t) && !self.token_passes(t@, now) {
            Some(request.access_token->0@)
        } else if request.id_token matches Some(t) && !self.token_passes(t@, now) {
            Some(request.id_token->0@)
        } else if request.userinfo_token matches Some(t) && !self.token_passes(t@, now) {
            Some(request.userinfo_token->0@)
        } else {
            None
        }
    }

    /// The issuer metadata a decoded token's `iss` claim resolves to.
    pub open spec fn issuer_meta_of(self, claims: Option<JsonV>) -> Option<
        crate::policy_store::TimV,
    > {
        match claims {
            Some(v) => match crate::jwt::str_field(v, "iss"@) {
                Some(iss) => crate::policy_store::find_issuer_meta(
                    self.config.policy_store.issuers_view(),
                    iss,
                ),
                None => None,
            },
            None => None,
        }
    }

    /// The role names one decoded token contributes: none when the token is
    /// absent, else the values of its configured role claim.
    pub open spec fn token_role_values(self, claims: Option<JsonV>, kind: TokenKind) -> Option<
        Seq<Seq<char>>,
    > {
        match claims {
            Some(v) => crate::authz::entities::role_values_of(
                v,
                role_claim_name(self.issuer_meta_of(Some(v)), kind),
            ),
            None => Some(Seq::empty()),
        }
    }

    /// Every present token's role claim is well-shaped.
    pub open spec fn roles_ok(self, tokens: DecodedTokens) -> bool {
        &&& self.token_role_values(opt_token_view(tokens.access_token), TokenKind::Access) is Some
        &&& self.token_role_values(opt_token_view(tokens.id_token), TokenKind::Id) is Some
        &&& self.token_role_values(
            opt_token_view(tokens.userinfo_token),
            TokenKind::Userinfo,
        ) is Some
    }

    /// All role names the tokens assign, in extraction order.
    pub open spec fn collected_roles(self, tokens: DecodedTokens) -> Seq<Seq<char>> {
        self.token_role_values(opt_token_view(tokens.access_token), TokenKind::Access)->Some_0
            + self.token_role_values(opt_token_view(tokens.id_token), TokenKind::Id)->Some_0
            + self.token_role_values(
            opt_token_view(tokens.userinfo_token),
            TokenKind::Userinfo,
        )->Some_0
    }

    /// The decoded payload a presented token contributes, at the request
    /// level.
    pub open spec fn request_payload(t: Option<String>) -> Option<JsonV> {
        match t {
            Some(s) => Some(jwt_payload_json(s@)->Some_0),
            None => None,
        }
    }

    /// Whether every present token's role claim is well-shaped, stated over
    /// the raw request.
    pub open spec fn roles_ok_for(self, request: Request, now: u64) -> bool {
        &&& self.token_role_values(
            Self::request_payload(request.access_token),
            TokenKind::Access,
        ) is Some
        &&& self.token_role_values(Self::request_payload(request.id_token), TokenKind::Id) is Some
        &&& self.token_role_values(
            Self::request_payload(request.userinfo_token),
            TokenKind::Userinfo,
        ) is Some
    }

    /// Whether a present token yields a token entity: its configured id
    /// claim holds a string.
    pub open spec fn token_entity_ok(self, claims: Option<JsonV>, kind: TokenKind) -> bool {
        match claims {
            Some(v) => crate::json::lookup_obj(
                crate::authz::entities::claims_of(v),
                token_id_claim_name(self.issuer_meta_of(Some(v)), kind),
            ) matches Some(x) && x is Str,
            None => true,
        }
    }

    /// Whether the schema accepts the request's context for its action.
    pub open spec fn context_ok(self, request: Request) -> bool {
        crate::authz::entities::context_acceptable(
            self.config.policy_store.cedar_schema.json@,
            request.context@,
            request.action@,
        )
    }

    /// The workload view is enabled but the request carries neither of its
    /// source tokens.
    pub open spec fn workload_principal_missing(self, request: Request) -> bool {
        &&& self.config.authorization.use_workload_principal
        &&& request.access_token is None
        &&& request.id_token is None
    }

    /// The user view is enabled but the request carries neither of its
    /// source tokens.
    pub open spec fn user_principal_missing(self, request: Request) -> bool {
        &&& self.config.authorization.use_user_principal
        &&& request.userinfo_token is None
        &&& request.id_token is None
    }

    /// The claims one decoded token contributes to a merge.
    pub open spec fn opt_claims_of(t: Option<Json>) -> Seq<(Seq<char>, JsonV)> {
        crate::authz::entities::opt_claims(opt_token_view(t))
    }

    /// The claim the user entity's id comes from, for these tokens.
    pub open spec fn user_claim_for(self, tokens: DecodedTokens) -> Seq<char> {
        user_id_claim_name(
            self.issuer_meta_of(opt_token_view(tokens.userinfo_token)),
            self.issuer_meta_of(opt_token_view(tokens.id_token)),
        )
    }

    /// The enabled workload view has source tokens, but they carry no usable
    /// `client_id`.
    pub open spec fn workload_build_fails(self, tokens: DecodedTokens) -> bool {
        &&& self.config.authorization.use_workload_principal
        &&& (tokens.access_token is Some || tokens.id_token is Some)
        &&& !(crate::authz::entities::merged_lookup(
            Self::opt_claims_of(tokens.access_token),
            Self::opt_claims_of(tokens.id_token),
            "client_id"@,
        ) matches Some(v) && v is Str)
    }

    /// The enabled user view has source tokens, but they carry no usable id
    /// claim.
    pub open spec fn user_build_fails(self, tokens: DecodedTokens) -> bool {
        &&& self.config.authorization.use_user_principal
        &&& (tokens.userinfo_token is Some || tokens.id_token is Some)
        &&& !(crate::authz::entities::merged_lookup(
            Self::opt_claims_of(tokens.userinfo_token),
            Self::opt_claims_of(tokens.id_token),
            self.user_claim_for(tokens),
        ) matches Some(v) && v is Str)
    }

    /// Whether `e` is exactly the verdict the configured processing reaches
    /// on this token: each error kind holds if and only if its condition
    /// does, and a missing-claims error carries exactly the absent required
    /// claims.
    pub open spec fn token_verdict_matches(self, e: JwtValidatorError, t: Seq<char>, now: u64) -> bool {
        let ks = self.config.key_service;
        let algs = self.config.jwt_config.algs@;
        let required = self.config.jwt_config.required_claims.deep_view();
        if self.config.jwt_config.enabled {
            &&& (e is MalformedJwt <==> !crate::jwt::structure_ok(t))
            &&& (e is UnsupportedAlg <==> crate::jwt::structure_ok(t) && !crate::jwt::alg_ok(
                algs,
                t,
            ))
            &&& (e is KeyNotFound <==> crate::jwt::alg_ok(algs, t) && crate::jwt::resolved_key(
                ks,
                t,
            ) is None)
            &&& (e is InvalidSignature <==> crate::jwt::key_resolves(ks, algs, t)
                && !crate::jwt::signature_accepted(ks, algs, t))
            &&& (e is ExpiredToken <==> crate::jwt::signature_accepted(ks, algs, t)
                && crate::jwt::expired(jwt_payload_json(t)->Some_0, now))
            &&& (e is ImmatureToken <==> crate::jwt::signature_accepted(ks, algs, t)
                && !crate::jwt::expired(jwt_payload_json(t)->Some_0, now) && crate::jwt::immature(
                jwt_payload_json(t)->Some_0,
                now,
            ))
            &&& (e is MissingClaims <==> crate::jwt::token_validated(ks, algs, t, now)
                && crate::jwt::missing_from(jwt_payload_json(t)->Some_0, required).len() > 0)
            &&& (e matches JwtValidatorError::MissingClaims(m) ==> m.deep_view()
                == crate::jwt::missing_from(jwt_payload_json(t)->Some_0, required))
            &&& !(e is InvalidJwks)
        } else {
            e is MalformedJwt && jwt_payload_json(t) is None
        }
    }

    pub fn new(config: AuthzConfig) -> (r: Authz)
        ensures
            r.config == config,
    {
        Authz { config }
    }

    /// Decodes one raw token: validated against the accepted algorithms,
    /// keys, clock and required claims when token validation is enabled,
    /// decode-only otherwise. Success and the error's identity are pinned to
    /// the token, the configuration and the clock.
    fn process_token(&self, token: &String, now: u64) -> (r: Result<Json, JwtValidatorError>)
        requires
            self.wf(),
        ensures
            r is Ok <==> self.token_passes(token@, now),
            r matches Ok(c) ==> jwt_payload_json(token@) == Some(c@),
            r matches Err(e) ==> self.token_verdict_matches(e, token@, now),
    {
        if self.config.jwt_config.enabled {
            let claims = match decode_and_validate_token(
                token.as_str(),
                &self.config.jwt_config.algs,
                &self.config.key_service,
                now,
            ) {
                Ok(c) => c,
                Err(e) => {
                    return Err(e);
                },
            };
            crate::jwt::check_missing_claims(claims, &self.config.jwt_config.required_claims)
        } else {
            decode(token.as_str())
        }
    }

    /// Decodes whichever tokens the request presents: success exactly when
    /// every presented token passes processing, and on failure the error is
    /// the first failing token's exact verdict.
    pub fn decode_tokens(&self, request: &Request, now: u64) -> (r: Result<
        DecodedTokens,
        AuthorizeError,
    >)
        requires
            self.wf(),
        ensures
            r is Ok <==> self.tokens_pass(*request, now),
            r matches Ok(t) ==> {
                &&& t.access_token is Some <==> request.access_token is Some
                &&& t.id_token is Some <==> request.id_token is Some
                &&& t.userinfo_token is Some <==> request.userinfo_token is Some
                &&& request.access_token matches Some(s) ==> jwt_payload_json(s@) == Some(
                    t.access_token->0@,
                )
                &&& request.id_token matches Some(s) ==> jwt_payload_json(s@) == Some(
                    t.id_token->0@,
                )
                &&& request.userinfo_token matches Some(s) ==> jwt_payload_json(s@) == Some(
                    t.userinfo_token->0@,
                )
            },
            r matches Err(ae) ==> {
                &&& ae matches AuthorizeError::ProcessTokens(e)
                &&& self.first_failing_token(*request, now) matches Some(t)
                &&& self.token_verdict_matches(e, t, now)
            },
    {
        let access_token = match &request.access_token {
            Some(s) => match self.process_token(s, now) {
                Ok(c) => Some(c),
                Err(e) => {
                    return Err(AuthorizeError::ProcessTokens(e));
                },
            },
            None => None,
        };
        let id_token = match &request.id_token {
            Some(s) => match self.process_token(s, now) {
                Ok(c) => Some(c),
                Err(e) => {
                    return Err(AuthorizeError::ProcessTokens(e));
                },
            },
            None => None,
        };
        let userinfo_token = match &request.userinfo_token {
            Some(s) => match self.process_token(s, now) {
                Ok(c) => Some(c),
                Err(e) => {
                    return Err(AuthorizeError::ProcessTokens(e));
                },
            },
            None => None,
        };
        Ok(DecodedTokens { access_token, id_token, userinfo_token })
    }

    /// The issuer metadata for a decoded token, resolved through its `iss`
    /// claim.
    fn issuer_meta<'a>(&'a self, claims: Option<&Json>) -> (r: Option<
        &'a crate::policy_store::TrustedIssuerMetadata,
    >)
        ensures
            meta_view(r) == self.issuer_meta_of(
                match claims {
                    Some(c) => Some(c@),
                    None => None,
                },
            ),
    {
        let claims = match claims {
            Some(c) => c,
            None => {
                return None;
            },
        };
        let iss = match claims.get_str("iss") {
            Some(s) => s,
            None => {
                return None;
            },
        };
        self.config.policy_store.get_issuer(&iss)
    }

    /// Builds all the entities a request evaluates against: each principal
    /// when its view is enabled and a source token is present, one token
    /// entity per present token, one role entity per distinct role-claim
    /// value with the user's parents exactly those roles, and the resource.
    pub fn build_entities(&self, request: &Request, tokens: &DecodedTokens) -> (r: Result<
        AuthorizeEntitiesData,
        AuthorizeError,
    >)
        ensures
            r is Ok <==> {
                &&& self.roles_ok(*tokens)
                &&& !self.workload_build_fails(*tokens)
                &&& !self.user_build_fails(*tokens)
                &&& self.token_entity_ok(opt_token_view(tokens.access_token), TokenKind::Access)
                &&& self.token_entity_ok(opt_token_view(tokens.id_token), TokenKind::Id)
                &&& self.token_entity_ok(
                    opt_token_view(tokens.userinfo_token),
                    TokenKind::Userinfo,
                )
                &&& crate::authz::entities::resource_acceptable(
                    self.config.policy_store.cedar_schema.json@,
                    request.resource.resource_type@,
                    crate::json::entries_v(request.resource.payload@),
                )
            },
            r matches Ok(d) ==> {
                &&& (d.workload is Some <==> self.config.authorization.use_workload_principal && (
                tokens.access_token is Some || tokens.id_token is Some))
                &&& (d.user is Some <==> self.config.authorization.use_user_principal && (
                tokens.userinfo_token is Some || tokens.id_token is Some))
                &&& (d.access_token is Some <==> tokens.access_token is Some)
                &&& (d.id_token is Some <==> tokens.id_token is Some)
                &&& (d.userinfo_token is Some <==> tokens.userinfo_token is Some)
                &&& d.resource@.entity_type == request.resource.resource_type@
                &&& d.resource@.id == request.resource.id@
                &&& (forall|a: int, b: int|
                    0 <= a < b < d.role@.len() ==> (#[trigger] d.role@[a])@.id != (
                    #[trigger] d.role@[b])@.id)
                &&& (forall|x: Seq<char>|
                    #[trigger] crate::authz::entities::contains_str(
                        crate::authz::entities::role_ids(d.role@),
                        x,
                    ) == crate::authz::entities::contains_str(self.collected_roles(*tokens), x))
                &&& (forall|a: int|
                    0 <= a < d.role@.len() ==> (#[trigger] d.role@[a])@.entity_type == mapped_type(
                        self.config.authorization.mapping_role,
                        "Jans::Role"@,
                    ))
                &&& (d.user matches Some(u) ==> u@.parents == Seq::new(
                    d.role@.len(),
                    |i: int| (d.role@[i]@.entity_type, d.role@[i]@.id),
                ))
                &&& (d.workload matches Some(w) ==> crate::authz::entities::merged_lookup(
                    Self::opt_claims_of(tokens.access_token),
                    Self::opt_claims_of(tokens.id_token),
                    "client_id"@,
                ) == Some(JsonV::Str(w@.id)))
                &&& (d.user matches Some(u) ==> crate::authz::entities::merged_lookup(
                    Self::opt_claims_of(tokens.userinfo_token),
                    Self::opt_claims_of(tokens.id_token),
                    self.user_claim_for(*tokens),
                ) == Some(JsonV::Str(u@.id)))
            },
            r matches Err(e) ==> {
                &&& !(e is Action) && !(e is ProcessTokens) && !(e is MissingPrincipal) && !(
                e is CreateContext)
                &&& (e is RoleEntity <==> !self.roles_ok(*tokens))
                &&& (e is CreateWorkloadEntity <==> self.roles_ok(*tokens)
                    && self.workload_build_fails(*tokens))
                &&& (e is CreateUserEntity <==> self.roles_ok(*tokens)
                    && !self.workload_build_fails(*tokens) && self.user_build_fails(*tokens))
                &&& (e is CreateAccessTokenEntity <==> self.roles_ok(*tokens)
                    && !self.workload_build_fails(*tokens) && !self.user_build_fails(*tokens)
                    && !self.token_entity_ok(
                    opt_token_view(tokens.access_token),
                    TokenKind::Access,
                ))
                &&& (e is CreateIdTokenEntity <==> self.roles_ok(*tokens)
                    && !self.workload_build_fails(*tokens) && !self.user_build_fails(*tokens)
                    && self.token_entity_ok(opt_token_view(tokens.access_token), TokenKind::Access)
                    && !self.token_entity_ok(opt_token_view(tokens.id_token), TokenKind::Id))
                &&& (e is CreateUserinfoTokenEntity <==> self.roles_ok(*tokens)
                    && !self.workload_build_fails(*tokens) && !self.user_build_fails(*tokens)
                    && self.token_entity_ok(opt_token_view(tokens.access_token), TokenKind::Access)
                    && self.token_entity_ok(opt_token_view(tokens.id_token), TokenKind::Id)
                    && !self.token_entity_ok(
                    opt_token_view(tokens.userinfo_token),
                    TokenKind::Userinfo,
                ))
                &&& (e is ResourceEntity <==> self.roles_ok(*tokens) && !self.workload_build_fails(
                    *tokens,
                ) && !self.user_build_fails(*tokens) && self.token_entity_ok(
                    opt_token_view(tokens.access_token),
                    TokenKind::Access,
                ) && self.token_entity_ok(opt_token_view(tokens.id_token), TokenKind::Id)
                    && self.token_entity_ok(
                    opt_token_view(tokens.userinfo_token),
                    TokenKind::Userinfo,
                ) && !crate::authz::entities::resource_acceptable(
                    self.config.policy_store.cedar_schema.json@,
                    request.resource.resource_type@,
                    crate::json::entries_v(request.resource.payload@),
                ))
            },
    {
        let auth = &self.config.authorization;
        let workload_type = type_or_default(&auth.mapping_workload, "Jans::Workload");
        let user_type = type_or_default(&auth.mapping_user, "Jans::User");
        let role_type = type_or_default(&auth.mapping_role, "Jans::Role");
        let access_type = type_or_default(&auth.mapping_access_token, "Jans::Access_token");
        let id_type = type_or_default(&auth.mapping_id_token, "Jans::id_token");
        let userinfo_type = type_or_default(&auth.mapping_userinfo_token, "Jans::Userinfo_token");

        // Roles come from every present token's configured role claim.
        let mut role_names: Vec<String> = Vec::new();
        let ghost pre_access = role_names.deep_view();
        match &tokens.access_token {
            Some(claims) => {
                let meta = self.issuer_meta(Some(claims));
                let role_claim = role_claim_of(meta, TokenKind::Access);
                match crate::authz::entities::extract_role_values(claims, &role_claim) {
                    Ok(mut vals) => {
                        let ghost vv = vals.deep_view();
                        let ghost pre_vec = role_names@;
                        let ghost vals_vec = vals@;
                        role_names.append(&mut vals);
                        proof {
                            assert(vv == self.token_role_values(
                                opt_token_view(tokens.access_token),
                                TokenKind::Access,
                            )->Some_0);
                            assert forall|j: int|
                                0 <= j < role_names@.len() implies #[trigger] role_names.deep_view()[j]
                                == (pre_access + vv)[j] by {
                                if j < pre_vec.len() {
                                    assert(role_names@[j] == pre_vec[j]);
                                } else {
                                    assert(role_names@[j] == vals_vec[j - pre_vec.len()]);
                                }
                            }
                            assert(role_names.deep_view() =~= pre_access + vv);
                        }
                    },
                    Err(e) => {
                        return Err(AuthorizeError::RoleEntity(e));
                    },
                }
            },
            None => {
                proof {
                    assert(role_names.deep_view() =~= pre_access + self.token_role_values(
                        opt_token_view(tokens.access_token),
                        TokenKind::Access,
                    )->Some_0);
                }
            },
        }
        let ghost pre_id = role_names.deep_view();
        match &tokens.id_token {
            Some(claims) => {
                let meta = self.issuer_meta(Some(claims));
                let role_claim = role_claim_of(meta, TokenKind::Id);
                match crate::authz::entities::extract_role_values(claims, &role_claim) {
                    Ok(mut vals) => {
                        let ghost vv = vals.deep_view();
                        let ghost pre_vec = role_names@;
                        let ghost vals_vec = vals@;
                        role_names.append(&mut vals);
                        proof {
                            assert(vv == self.token_role_values(
                                opt_token_view(tokens.id_token),
                                TokenKind::Id,
                            )->Some_0);
                            assert forall|j: int|
                                0 <= j < role_names@.len() implies #[trigger] role_names.deep_view()[j]
                                == (pre_id + vv)[j] by {
                                if j < pre_vec.len() {
                                    assert(role_names@[j] == pre_vec[j]);
                                } else {
                                    assert(role_names@[j] == vals_vec[j - pre_vec.len()]);
                                }
                            }
                            assert(role_names.deep_view() =~= pre_id + vv);
                        }
                    },
                    Err(e) => {
                        return Err(AuthorizeError::RoleEntity(e));
                    },
                }
            },
            None => {
                proof {
                    assert(role_names.deep_view() =~= pre_id + self.token_role_values(
                        opt_token_view(tokens.id_token),
                        TokenKind::Id,
                    )->Some_0);
                }
            },
        }
        let ghost pre_userinfo = role_names.deep_view();
        match &tokens.userinfo_token {
            Some(claims) => {
                let meta = self.issuer_meta(Some(claims));
                let role_claim = role_claim_of(meta, TokenKind::Userinfo);
                match crate::authz::entities::extract_role_values(claims, &role_claim) {
                    Ok(mut vals) => {
                        let ghost vv = vals.deep_view();
                        let ghost pre_vec = role_names@;
                        let ghost vals_vec = vals@;
                        role_names.append(&mut vals);
                        proof {
                            assert(vv == self.token_role_values(
                                opt_token_view(tokens.userinfo_token),
                                TokenKind::Userinfo,
                            )->Some_0);
                            assert forall|j: int|
                                0 <= j < role_names@.len() implies #[trigger] role_names.deep_view()[j]
                                == (pre_userinfo + vv)[j] by {
                                if j < pre_vec.len() {
                                    assert(role_names@[j] == pre_vec[j]);
                                } else {
                                    assert(role_names@[j] == vals_vec[j - pre_vec.len()]);
                                }
                            }
                            assert(role_names.deep_view() =~= pre_userinfo + vv);
                        }
                    },
                    Err(e) => {
                        return Err(AuthorizeError::RoleEntity(e));
                    },
                }
            },
            None => {
                proof {
                    assert(role_names.deep_view() =~= pre_userinfo + self.token_role_values(
                        opt_token_view(tokens.userinfo_token),
                        TokenKind::Userinfo,
                    )->Some_0);
                }
            },
        }
        proof {
            assert(role_names.deep_view() =~= self.collected_roles(*tokens));
        }
        let ghost collected = role_names.deep_view();
        let role_names = crate::authz::entities::dedup_strings(role_names);
        let role = crate::authz::entities::roles_from_names(&role_type, &role_names);
        proof {
            assert(crate::authz::entities::role_ids(role@) =~= role_names.deep_view());
            assert forall|a: int, b: int|
                0 <= a < b < role@.len() implies (#[trigger] role@[a])@.id != (
            #[trigger] role@[b])@.id by {
                assert(crate::authz::entities::role_ids(role@)[a] == role@[a]@.id);
                assert(crate::authz::entities::role_ids(role@)[b] == role@[b]@.id);
                assert(role_names.deep_view()[a] != role_names.deep_view()[b]);
            }
        }

        // The workload principal, when that view is enabled.
        let workload = if auth.use_workload_principal {
            match crate::authz::entities::create_workload(
                &workload_type,
                tokens.access_token.as_ref(),
                tokens.id_token.as_ref(),
            ) {
                Ok(w) => w,
                Err(e) => {
                    return Err(AuthorizeError::CreateWorkloadEntity(e));
                },
            }
        } else {
            None
        };

        // The user principal, when that view is enabled; its id claim comes
        // from the issuer's metadata, `sub` by default.
        let user = if auth.use_user_principal {
            let userinfo_meta = self.issuer_meta(tokens.userinfo_token.as_ref());
            let id_meta = self.issuer_meta(tokens.id_token.as_ref());
            let user_id_claim = user_id_claim_of(userinfo_meta, id_meta);
            match crate::authz::entities::create_user(
                &user_type,
                &user_id_claim,
                tokens.userinfo_token.as_ref(),
                tokens.id_token.as_ref(),
                &role,
            ) {
                Ok(u) => u,
                Err(e) => {
                    return Err(AuthorizeError::CreateUserEntity(e));
                },
            }
        } else {
            None
        };

        // One token entity per present token; its id claim defaults to jti.
        let access_token = match &tokens.access_token {
            Some(claims) => {
                let meta = self.issuer_meta(Some(claims));
                let id_claim = token_id_claim_of(meta, TokenKind::Access);
                match crate::authz::entities::create_token_entity(&access_type, claims, &id_claim) {
                    Ok(e) => Some(e),
                    Err(e) => {
                        return Err(AuthorizeError::CreateAccessTokenEntity(e));
                    },
                }
            },
            None => None,
        };
        let id_token = match &tokens.id_token {
            Some(claims) => {
                let meta = self.issuer_meta(Some(claims));
                let id_claim = token_id_claim_of(meta, TokenKind::Id);
                match crate::authz::entities::create_token_entity(&id_type, claims, &id_claim) {
                    Ok(e) => Some(e),
                    Err(e) => {
                        return Err(AuthorizeError::CreateIdTokenEntity(e));
                    },
                }
            },
            None => None,
        };
        let userinfo_token = match &tokens.userinfo_token {
            Some(claims) => {
                let meta = self.issuer_meta(Some(claims));
                let id_claim = token_id_claim_of(meta, TokenKind::Userinfo);
                match crate::authz::entities::create_token_entity(
                    &userinfo_type,
                    claims,
                    &id_claim,
                ) {
                    Ok(e) => Some(e),
                    Err(e) => {
                        return Err(AuthorizeError::CreateUserinfoTokenEntity(e));
                    },
                }
            },
            None => None,
        };

        let resource = match crate::authz::entities::create_resource_entity(
            &request.resource,
            &self.config.policy_store.cedar_schema.json,
        ) {
            Ok(e) => e,
            Err(e) => {
                return Err(AuthorizeError::ResourceEntity(e));
            },
        };

        Ok(
            AuthorizeEntitiesData {
                workload,
                user,
                access_token,
                id_token,
                userinfo_token,
                resource,
                role,
            },
        )
    }

    /// Evaluates an authorization request: decodes the tokens, builds the
    /// entities, evaluates the policy set under each enabled principal view,
    /// and combines the decisions under the configured operator. The
    /// combined decision is exactly the configured combination of the
    /// per-view decisions, and each enabled view contributes one.
    pub fn authorize(&self, request: &Request, now: u64) -> (r: Result<
        AuthorizeResult,
        AuthorizeError,
    >)
        requires
            self.wf(),
        ensures
            r matches Ok(out) ==> {
                &&& out.decision == combine_spec(
                    self.config.authorization.user_workload_operator,
                    decision_of(out.workload),
                    decision_of(out.user),
                )
                &&& (out.workload is Some <==> self.config.authorization.use_workload_principal)
                &&& (out.user is Some <==> self.config.authorization.use_user_principal)
                &&& self.tokens_pass(*request, now)
                &&& entity_uid_ok(request.action@)
                &&& !self.workload_principal_missing(*request)
                &&& !self.user_principal_missing(*request)
            },
            (r matches Err(e) && e is ProcessTokens) <==> !self.tokens_pass(*request, now),
            r matches Err(ae) ==> match ae {
                AuthorizeError::ProcessTokens(e) => self.first_failing_token(
                    *request,
                    now,
                ) matches Some(t) && self.token_verdict_matches(e, t, now),
                AuthorizeError::MissingPrincipal(v) => if self.workload_principal_missing(
                    *request,
                ) {
                    v@ == "Workload"@
                } else {
                    v@ == "User"@
                },
                _ => true,
            },
            (r matches Err(e) && e is Action) <==> self.tokens_pass(*request, now)
                && !entity_uid_ok(request.action@),
            (r matches Err(e) && e is MissingPrincipal) <==> self.tokens_pass(*request, now)
                && entity_uid_ok(request.action@) && (self.workload_principal_missing(*request)
                || self.user_principal_missing(*request)),
            self.tokens_pass(*request, now) && entity_uid_ok(request.action@)
                && !self.workload_principal_missing(*request) && !self.user_principal_missing(
                *request,
            ) && !self.context_ok(*request) ==> (r matches Err(e) && e is CreateContext),
            (r matches Err(e) && e is CreateContext) ==> self.tokens_pass(*request, now)
                && entity_uid_ok(request.action@) && !self.workload_principal_missing(*request)
                && !self.user_principal_missing(*request),
            (r matches Err(e) && e is RoleEntity) <==> self.tokens_pass(*request, now)
                && entity_uid_ok(request.action@) && !self.workload_principal_missing(*request)
                && !self.user_principal_missing(*request) && self.context_ok(*request)
                && !self.roles_ok_for(*request, now),
    {
        match self.authorize_full(request, now) {
            Ok(o) => Ok(o.result),
            Err(e) => Err(e),
        }
    }

    /// Evaluates an authorization request, also handing back the decoded
    /// tokens and the entities, for the decision log.
    pub fn authorize_full(&self, request: &Request, now: u64) -> (r: Result<
        AuthzOutcome,
        AuthorizeError,
    >)
        requires
            self.wf(),
        ensures
            r matches Ok(o) ==> {
                &&& o.result.decision == combine_spec(
                    self.config.authorization.user_workload_operator,
                    decision_of(o.result.workload),
                    decision_of(o.result.user),
                )
                &&& (o.result.workload is Some <==> self.config.authorization
                    .use_workload_principal)
                &&& (o.result.user is Some <==> self.config.authorization.use_user_principal)
                &&& self.tokens_pass(*request, now)
                &&& entity_uid_ok(request.action@)
                &&& !self.workload_principal_missing(*request)
                &&& !self.user_principal_missing(*request)
                &&& (forall|a: int, b: int|
                    0 <= a < b < o.entities.role@.len() ==> (#[trigger] o.entities.role@[a])@.id
                        != (#[trigger] o.entities.role@[b])@.id)
                &&& (forall|x: Seq<char>|
                    #[trigger] crate::authz::entities::contains_str(
                        crate::authz::entities::role_ids(o.entities.role@),
                        x,
                    ) == crate::authz::entities::contains_str(
                        self.collected_roles(o.tokens),
                        x,
                    ))
                &&& (o.entities.user matches Some(u) ==> u@.parents == Seq::new(
                    o.entities.role@.len(),
                    |i: int| (o.entities.role@[i]@.entity_type, o.entities.role@[i]@.id),
                ))
                &&& (o.entities.user is Some <==> self.config.authorization.use_user_principal)
                &&& (o.entities.workload is Some <==> self.config.authorization
                    .use_workload_principal)
            },
            (r matches Err(e) && e is ProcessTokens) <==> !self.tokens_pass(*request, now),
            r matches Err(ae) ==> match ae {
                AuthorizeError::ProcessTokens(e) => self.first_failing_token(
                    *request,
                    now,
                ) matches Some(t) && self.token_verdict_matches(e, t, now),
                AuthorizeError::MissingPrincipal(v) => if self.workload_principal_missing(
                    *request,
                ) {
                    v@ == "Workload"@
                } else {
                    v@ == "User"@
                },
                _ => true,
            },
            (r matches Err(e) && e is Action) <==> self.tokens_pass(*request, now)
                && !entity_uid_ok(request.action@),
            (r matches Err(e) && e is MissingPrincipal) <==> self.tokens_pass(*request, now)
                && entity_uid_ok(request.action@) && (self.workload_principal_missing(*request)
                || self.user_principal_missing(*request)),
            self.tokens_pass(*request, now) && entity_uid_ok(request.action@)
                && !self.workload_principal_missing(*request) && !self.user_principal_missing(
                *request,
            ) && !self.context_ok(*request) ==> (r matches Err(e) && e is CreateContext),
            (r matches Err(e) && e is CreateContext) ==> self.tokens_pass(*request, now)
                && entity_uid_ok(request.action@) && !self.workload_principal_missing(*request)
                && !self.user_principal_missing(*request),
            (r matches Err(e) && e is RoleEntity) <==> self.tokens_pass(*request, now)
                && entity_uid_ok(request.action@) && !self.workload_principal_missing(*request)
                && !self.user_principal_missing(*request) && self.context_ok(*request)
                && !self.roles_ok_for(*request, now),
            (r matches Err(e) && e is CreateWorkloadEntity) ==> self.tokens_pass(*request, now)
                && entity_uid_ok(request.action@),
            (r matches Err(e) && e is CreateUserEntity) ==> self.tokens_pass(*request, now)
                && entity_uid_ok(request.action@),
    {
        let tokens = match self.decode_tokens(request, now) {
            Ok(t) => t,
            Err(e) => {
                return Err(e);
            },
        };
        let action_uid = match parse_entity_uid(request.action.as_str()) {
            Some(u) => u,
            None => {
                return Err(AuthorizeError::Action);
            },
        };
        if self.config.authorization.use_workload_principal && request.access_token.is_none()
            && request.id_token.is_none() {
            return Err(AuthorizeError::MissingPrincipal(String::from_str("Workload")));
        }
        if self.config.authorization.use_user_principal && request.userinfo_token.is_none()
            && request.id_token.is_none() {
            return Err(AuthorizeError::MissingPrincipal(String::from_str("User")));
        }
        match crate::authz::entities::check_context(
            &request.context,
            &self.config.policy_store.cedar_schema.json,
            &request.action,
        ) {
            Ok(()) => {},
            Err(e) => {
                return Err(AuthorizeError::CreateContext(e));
            },
        }
        proof {
            assert(opt_token_view(tokens.access_token) == Self::request_payload(
                request.access_token,
            ));
            assert(opt_token_view(tokens.id_token) == Self::request_payload(request.id_token));
            assert(opt_token_view(tokens.userinfo_token) == Self::request_payload(
                request.userinfo_token,
            ));
        }
        let entities_data = match self.build_entities(request, &tokens) {
            Ok(d) => d,
            Err(e) => {
                return Err(e);
            },
        };
        let schema = &self.config.policy_store.cedar_schema.schema;
        let entities_json = entities_data.entities_json();
        let entities = match entities_from_json(&entities_json, schema) {
            Ok(es) => es,
            Err(e) => {
                return Err(AuthorizeError::Entities(e));
            },
        };
        let context = match context_from_json(&request.context, schema, &action_uid) {
            Ok(c) => c,
            Err(e) => {
                return Err(AuthorizeError::CreateContext(e));
            },
        };
        let resource_uid_text = entity_uid_string(
            &entities_data.resource.entity_type,
            &entities_data.resource.id,
        );
        let resource_uid = match parse_entity_uid(resource_uid_text.as_str()) {
            Some(u) => u,
            None => {
                return Err(
                    AuthorizeError::ResourceEntity(
                        String::from_str("the resource does not name a parseable entity uid"),
                    ),
                );
            },
        };
        let workload_eval: Option<EvalResponse> = if self.config.authorization
            .use_workload_principal {
            let principal = match &entities_data.workload {
                Some(w) => w,
                None => {
                    return Err(AuthorizeError::MissingPrincipal(String::from_str("Workload")));
                },
            };
            let uid_text = entity_uid_string(&principal.entity_type, &principal.id);
            let principal_uid = match parse_entity_uid(uid_text.as_str()) {
                Some(u) => u,
                None => {
                    return Err(
                        AuthorizeError::WorkloadRequestValidation(
                            String::from_str("the workload principal uid does not parse"),
                        ),
                    );
                },
            };
            match authorize_request(
                schema,
                &self.config.policy_store.policy_set,
                &entities,
                &principal_uid,
                &action_uid,
                &resource_uid,
                &context,
            ) {
                Ok(resp) => Some(resp),
                Err(e) => {
                    return Err(AuthorizeError::WorkloadRequestValidation(e));
                },
            }
        } else {
            None
        };
        let user_eval: Option<EvalResponse> = if self.config.authorization.use_user_principal {
            let principal = match &entities_data.user {
                Some(u) => u,
                None => {
                    return Err(AuthorizeError::MissingPrincipal(String::from_str("User")));
                },
            };
            let uid_text = entity_uid_string(&principal.entity_type, &principal.id);
            let principal_uid = match parse_entity_uid(uid_text.as_str()) {
                Some(u) => u,
                None => {
                    return Err(
                        AuthorizeError::UserRequestValidation(
                            String::from_str("the user principal uid does not parse"),
                        ),
                    );
                },
            };
            match authorize_request(
                schema,
                &self.config.policy_store.policy_set,
                &entities,
                &principal_uid,
                &action_uid,
                &resource_uid,
                &context,
            ) {
                Ok(resp) => Some(resp),
                Err(e) => {
                    return Err(AuthorizeError::UserRequestValidation(e));
                },
            }
        } else {
            None
        };
        let result = AuthorizeResult::new(
            self.config.authorization.user_workload_operator,
            workload_eval,
            user_eval,
        );
        Ok(AuthzOutcome { result, entities: entities_data, tokens })
    }
}

/// What one evaluation produced, with the material the decision log needs.
pub struct AuthzOutcome {
    pub result: AuthorizeResult,
    pub entities: AuthorizeEntitiesData,
    pub tokens: DecodedTokens,
}

/// Which of the token kinds metadata is being read for.
#[derive(Clone, Copy, PartialEq, Eq, Structural)]
pub enum TokenKind {
    Access,
    Id,
    Userinfo,
}

/// The view of an optional decoded token.
pub open spec fn opt_token_view(t: Option<Json>) -> Option<JsonV> {
    match t {
        Some(j) => Some(j@),
        None => None,
    }
}

/// The view of optional issuer metadata.
pub open spec fn meta_view(
    meta: Option<&crate::policy_store::TrustedIssuerMetadata>,
) -> Option<crate::policy_store::TimV> {
    match meta {
        Some(m) => Some(m@),
        None => None,
    }
}

/// The entity type a mapping override selects, or the default.
pub open spec fn mapped_type(mapping: Option<String>, default: Seq<char>) -> Seq<char> {
    match mapping {
        Some(m) => m@,
        None => default,
    }
}

/// The claim carrying role assignments for this token kind: the issuer's
/// configured `role_mapping`, or `role`.
pub open spec fn role_claim_name(
    meta: Option<crate::policy_store::TimV>,
    kind: TokenKind,
) -> Seq<char> {
    match meta {
        Some(m) => {
            let configured = match kind {
                TokenKind::Access => m.access_tokens.role_mapping,
                TokenKind::Id => m.id_tokens.role_mapping,
                TokenKind::Userinfo => m.userinfo_tokens.role_mapping,
            };
            match configured {
                Some(c) => c,
                None => "role"@,
            }
        },
        None => "role"@,
    }
}

/// The claim carrying a token entity's id: the issuer's configured
/// `user_id`, or `jti`.
pub open spec fn token_id_claim_name(
    meta: Option<crate::policy_store::TimV>,
    kind: TokenKind,
) -> Seq<char> {
    match meta {
        Some(m) => {
            let configured = match kind {
                TokenKind::Access => m.access_tokens.user_id,
                TokenKind::Id => m.id_tokens.user_id,
                TokenKind::Userinfo => m.userinfo_tokens.user_id,
            };
            match configured {
                Some(c) => c,
                None => "jti"@,
            }
        },
        None => "jti"@,
    }
}

/// The claim carrying the user entity's id: the userinfo issuer's configured
/// `user_id`, else the id-token issuer's, else `sub`.
pub open spec fn user_id_claim_name(
    userinfo_meta: Option<crate::policy_store::TimV>,
    id_meta: Option<crate::policy_store::TimV>,
) -> Seq<char> {
    match userinfo_meta {
        Some(m) => match m.userinfo_tokens.user_id {
            Some(c) => c,
            None => fallback_user_id_claim(id_meta),
        },
        None => fallback_user_id_claim(id_meta),
    }
}

pub open spec fn fallback_user_id_claim(id_meta: Option<crate::policy_store::TimV>) -> Seq<char> {
    match id_meta {
        Some(m) => match m.id_tokens.user_id {
            Some(c) => c,
            None => "sub"@,
        },
        None => "sub"@,
    }
}

fn type_or_default(mapping: &Option<String>, default: &str) -> (r: String)
    ensures
        r@ == mapped_type(*mapping, default@),
{
    match mapping {
        Some(m) => m.clone(),
        None => String::from_str(default),
    }
}

/// The claim that carries role assignments for this token: the issuer's
/// configured `role_mapping`, or `role`.
fn role_claim_of(
    meta: Option<&crate::policy_store::TrustedIssuerMetadata>,
    kind: TokenKind,
) -> (r: String)
    ensures
        r@ == role_claim_name(meta_view(meta), kind),
{
    let configured = match meta {
        Some(m) => match kind {
            TokenKind::Access => &m.access_tokens.role_mapping,
            TokenKind::Id => &m.id_tokens.role_mapping,
            TokenKind::Userinfo => &m.userinfo_tokens.role_mapping,
        },
        None => &None,
    };
    match configured {
        Some(c) => c.clone(),
        None => String::from_str("role"),
    }
}

/// The claim that carries a token entity's id: the issuer's configured
/// `user_id`, or `jti`.
fn token_id_claim_of(
    meta: Option<&crate::policy_store::TrustedIssuerMetadata>,
    kind: TokenKind,
) -> (r: String)
    ensures
        r@ == token_id_claim_name(meta_view(meta), kind),
{
    let configured = match meta {
        Some(m) => match kind {
            TokenKind::Access => &m.access_tokens.user_id,
            TokenKind::Id => &m.id_tokens.user_id,
            TokenKind::Userinfo => &m.userinfo_tokens.user_id,
        },
        None => &None,
    };
    match configured {
        Some(c) => c.clone(),
        None => String::from_str("jti"),
    }
}

/// The claim that carries the user entity's id: the userinfo issuer's
/// configured `user_id`, else the id-token issuer's, else `sub`.
fn user_id_claim_of(
    userinfo_meta: Option<&crate::policy_store::TrustedIssuerMetadata>,
    id_meta: Option<&crate::policy_store::TrustedIssuerMetadata>,
) -> (r: String)
    ensures
        r@ == user_id_claim_name(meta_view(userinfo_meta), meta_view(id_meta)),
{
    match userinfo_meta {
        Some(m) => match &m.userinfo_tokens.user_id {
            Some(c) => {
                return c.clone();
            },
            None => {},
        },
        None => {},
    }
    match id_meta {
        Some(m) => match &m.id_tokens.user_id {
            Some(c) => {
                return c.clone();
            },
            None => {},
        },
        None => {},
    }
    String::from_str("sub")
}

} // verus!
