//! The engine's front door: bootstrap configuration, wiring of the policy
//! store, key service, logger and meter, and the `authorize` entry point
//! that serves one request, meters it and logs the decision.

use vstd::prelude::*;
use vstd::string::*;

use crate::authz::Authz;
use crate::authz::AuthzConfig;
use crate::authz::AuthorizationConfig;
use crate::authz::AuthorizeError;
use crate::authz::AuthorizeResult;
use crate::authz::JwtConfig;
use crate::authz::Request;
use crate::cedar::Decision;
use crate::clock::now_millis;
use crate::clock::now_secs;
use crate::jwt::KeyService;
use crate::jwt::JwtValidatorError;
use crate::log::DecisionLogEntry;
use crate::log::LogEntry;
use crate::log::LogSink;
use crate::log::Logger;
use crate::log::token_log_info;
use crate::metrics::Meter;
use crate::metrics::MetricCounter;
use crate::metrics::MetricGauge;
use crate::metrics::MetricRate;
use crate::policy_store::PolicyStore;
use crate::policy_store::PolicyStoreError;

verus! {

/// Where the policy store comes from: an inline native document or an
/// inline Agama document. Reading a file or fetching a URI happens outside;
/// the engine takes the document text.
pub enum PolicyStoreSource {
    Json(String),
    Agama(String),
}

/// Everything needed to bring the engine up.
pub struct BootstrapConfig {
    pub application_name: String,
    pub pdp_id: String,
    pub log_sink: LogSink,
    pub policy_store_source: PolicyStoreSource,
    pub jwt_config: JwtConfig,
    pub authorization: AuthorizationConfig,
    pub jwks: Option<String>,
}

/// Why bootstrap failed.
#[derive(Debug)]
pub enum InitError {
    PolicyStore(PolicyStoreError),
    KeyService(JwtValidatorError),
}

/// The engine, ready to serve authorization requests.
pub struct Cedarling {
    authz: Authz,
    logger: Logger,
    meter: Meter,
}

impl Cedarling {
    pub closed spec fn log_count(self) -> nat {
        self.logger.count()
    }

    pub closed spec fn spec_pdp_id(self) -> Seq<char> {
        self.authz.config.pdp_id@
    }

    pub closed spec fn spec_store_id(self) -> Seq<char> {
        self.authz.config.policy_store.id@
    }

    pub closed spec fn spec_sink(self) -> LogSink {
        self.logger.spec_sink()
    }

    pub closed spec fn meter_wf(self) -> bool {
        self.meter.wf()
    }

    /// The engine's key service holds only well-formed keys.
    pub closed spec fn engine_wf(self) -> bool {
        self.authz.wf()
    }

    /// The log records collected so far.
    pub closed spec fn log_records(self) -> Seq<LogEntry> {
        self.logger.records()
    }

    pub closed spec fn spec_meter(self) -> Meter {
        self.meter
    }

    pub closed spec fn requests_counted(self) -> u64 {
        self.meter.counter(MetricCounter::TotalAuthzRequests)
    }

    pub closed spec fn operator(self) -> crate::authz::WorkloadUserOperator {
        self.authz.config.authorization.user_workload_operator
    }

    pub closed spec fn uses_workload(self) -> bool {
        self.authz.config.authorization.use_workload_principal
    }

    pub closed spec fn uses_user(self) -> bool {
        self.authz.config.authorization.use_user_principal
    }

    /// Brings the engine up: parses the policy store from its source, builds
    /// the key service from the supplied key material, and writes the first
    /// system log record.
    pub fn new(config: BootstrapConfig) -> (r: Result<Cedarling, InitError>)
        ensures
            r matches Ok(c) ==> {
                &&& c.spec_sink() == config.log_sink
                &&& c.meter_wf()
                &&& c.engine_wf()
                &&& c.log_count() == (if config.log_sink is Off { 0int } else { 1int })
                &&& (match config.policy_store_source {
                    PolicyStoreSource::Json(doc) => crate::codec::json_of(doc@) matches Some(t)
                        && crate::policy_store::native_valid(t),
                    PolicyStoreSource::Agama(doc) => crate::codec::json_of(doc@) matches Some(t)
                        && crate::policy_store::agama_valid(t),
                })
                &&& (config.jwks matches Some(j) ==> crate::codec::json_of(j@) matches Some(t)
                    && crate::jwt::jwks_doc_valid(t))
            },
            r matches Err(InitError::KeyService(_)) ==> config.jwks matches Some(j) && !(
            crate::codec::json_of(j@) matches Some(t) && crate::jwt::jwks_doc_valid(t)),
    {
        let policy_store = match &config.policy_store_source {
            PolicyStoreSource::Json(s) => match PolicyStore::from_json_str(s.as_str()) {
                Ok(ps) => ps,
                Err(e) => {
                    return Err(InitError::PolicyStore(e));
                },
            },
            PolicyStoreSource::Agama(s) => match PolicyStore::from_agama_str(s.as_str()) {
                Ok(ps) => ps,
                Err(e) => {
                    return Err(InitError::PolicyStore(e));
                },
            },
        };
        let key_service = match &config.jwks {
            Some(s) => match KeyService::new_from_str(s.as_str()) {
                Ok(ks) => ks,
                Err(e) => {
                    return Err(InitError::KeyService(e));
                },
            },
            None => KeyService::new_empty(),
        };
        let mut logger = Logger::new(
            config.log_sink,
            config.pdp_id.clone(),
            config.application_name.clone(),
        );
        logger.system_debug("authorization engine initialized");
        let authz = Authz::new(
            AuthzConfig {
                pdp_id: config.pdp_id,
                application_name: config.application_name,
                policy_store,
                jwt_config: config.jwt_config,
                authorization: config.authorization,
                key_service,
            },
        );
        Ok(Cedarling { authz, logger, meter: Meter::new() })
    }

    /// Serves one authorization request: evaluates it against the current
    /// clock, meters the call, and writes one decision log record before
    /// returning. The combined decision is exactly the configured
    /// combination of the per-view decisions.
    pub fn authorize(&mut self, request: &Request) -> (r: Result<AuthorizeResult, AuthorizeError>)
        requires
            old(self).meter_wf(),
            old(self).engine_wf(),
        ensures
            final(self).meter_wf(),
            final(self).engine_wf(),
            final(self).spec_sink() == old(self).spec_sink(),
            final(self).log_count() == old(self).log_count() + (if old(self).spec_sink() is Off {
                0int
            } else {
                1int
            }),
            final(self).requests_counted() >= old(self).requests_counted(),
            old(self).spec_sink() is Off ==> final(self).log_records() == old(self).log_records(),
            !(old(self).spec_sink() is Off) ==> {
                &&& final(self).log_records().len() == old(self).log_records().len() + 1
                &&& final(self).log_records().take(old(self).log_records().len() as int) == old(
                    self,
                ).log_records()
                &&& final(self).log_records().last() matches LogEntry::Decision(d) && {
                    &&& d.decision == (match r {
                        Ok(out) => out.decision,
                        Err(_) => Decision::Deny,
                    })
                    &&& d.pdp_id@ == old(self).spec_pdp_id()
                    &&& d.policystore_id@ == old(self).spec_store_id()
                    &&& d.action@ == request.action@
                    &&& (r is Ok ==> d.error is None)
                    &&& (r is Err ==> d.error is Some)
                }
            },
            r matches Ok(out) ==> {
                &&& out.decision == crate::authz::combine_spec(
                    old(self).operator(),
                    crate::authz::decision_of(out.workload),
                    crate::authz::decision_of(out.user),
                )
                &&& (out.workload is Some <==> old(self).uses_workload())
                &&& (out.user is Some <==> old(self).uses_user())
            },
            r matches Err(e) && e is MissingPrincipal ==> {
                ||| old(self).uses_workload() && request.access_token is None
                    && request.id_token is None
                ||| old(self).uses_user() && request.userinfo_token is None
                    && request.id_token is None
            },
            r matches Err(e) && e is Action ==> !crate::cedar::entity_uid_ok(request.action@),
    {
        let started = now_millis();
        let now = now_secs();
        let outcome = self.authz.authorize_full(request, now);
        let finished = now_millis();
        let elapsed = if finished >= started {
            finished - started
        } else {
            0
        };
        if self.meter.counter_value(MetricCounter::TotalAuthzRequests) < u64::MAX {
            self.meter.increment_counter(MetricCounter::TotalAuthzRequests);
        }
        let tokens_presented: u64 = if !self.authz.config.jwt_config.enabled {
            0u64
        } else {
            (if request.access_token.is_some() {
            1u64
        } else {
            0u64
        }) + (if request.id_token.is_some() {
            1u64
        } else {
            0u64
        }) + (if request.userinfo_token.is_some() {
            1u64
        } else {
            0u64
        })
        };
        match &outcome {
            Ok(_) => {
                let mut validated: u64 = 0;
                while validated < tokens_presented
                    invariant
                        tokens_presented <= 3,
                        validated <= tokens_presented,
                        self.meter.wf(),
                        self.authz == old(self).authz,
                        self.logger == old(self).logger,
                        self.requests_counted() >= old(self).requests_counted(),
                    decreases tokens_presented - validated,
                {
                    if self.meter.counter_value(MetricCounter::TotalJwtsValidated) < u64::MAX {
                        self.meter.increment_counter(MetricCounter::TotalJwtsValidated);
                    }
                    let jwt_rate = self.meter.rate_value(MetricRate::ValidJwtRate);
                    if jwt_rate.0 < u64::MAX {
                        self.meter.increment_rate(MetricRate::ValidJwtRate);
                    }
                    validated = validated + 1;
                }
            },
            Err(AuthorizeError::ProcessTokens(_)) => {
                let jwt_rate = self.meter.rate_value(MetricRate::ValidJwtRate);
                if jwt_rate.1 < u64::MAX {
                    self.meter.decrement_rate(MetricRate::ValidJwtRate);
                }
            },
            Err(_) => {},
        }
        proof {
            crate::metrics::lemma_meter_gauge_sum(self.meter, MetricGauge::AvgDecisionMs);
        }
        let gauge = self.meter.gauge_value(MetricGauge::AvgDecisionMs);
        if gauge.0 <= u64::MAX - elapsed {
            self.meter.set_gauge(MetricGauge::AvgDecisionMs, elapsed);
        }
        let auth = &self.authz.config.authorization;
        let entry: DecisionLogEntry = match &outcome {
            Ok(o) => {
                let workload_claims = match &o.entities.workload {
                    Some(w) => Some(
                        crate::authz::entities::get_entity_claims(
                            &auth.decision_log_workload_claims,
                            w,
                        ),
                    ),
                    None => None,
                };
                let user_claims = match &o.entities.user {
                    Some(u) => Some(
                        crate::authz::entities::get_entity_claims(&auth.decision_log_user_claims, u),
                    ),
                    None => None,
                };
                DecisionLogEntry {
                    pdp_id: self.authz.config.pdp_id.clone(),
                    application_name: self.authz.config.application_name.clone(),
                    policystore_id: self.authz.config.policy_store.id.clone(),
                    policystore_version: self.authz.config.policy_store.get_store_version(),
                    action: request.action.clone(),
                    resource: crate::authz::entities::entity_uid_string(
                        &request.resource.resource_type,
                        &request.resource.id,
                    ),
                    decision: o.result.decision,
                    workload_claims,
                    user_claims,
                    access_token: match &o.tokens.access_token {
                        Some(c) => Some(token_log_info(c, &auth.decision_log_default_jwt_id)),
                        None => None,
                    },
                    id_token: match &o.tokens.id_token {
                        Some(c) => Some(token_log_info(c, &auth.decision_log_default_jwt_id)),
                        None => None,
                    },
                    userinfo_token: match &o.tokens.userinfo_token {
                        Some(c) => Some(token_log_info(c, &auth.decision_log_default_jwt_id)),
                        None => None,
                    },
                    error: None,
                    decision_time_ms: elapsed,
                }
            },
            Err(e) => DecisionLogEntry {
                pdp_id: self.authz.config.pdp_id.clone(),
                application_name: self.authz.config.application_name.clone(),
                policystore_id: self.authz.config.policy_store.id.clone(),
                policystore_version: self.authz.config.policy_store.get_store_version(),
                action: request.action.clone(),
                resource: crate::authz::entities::entity_uid_string(
                    &request.resource.resource_type,
                    &request.resource.id,
                ),
                decision: Decision::Deny,
                workload_claims: None,
                user_claims: None,
                access_token: None,
                id_token: None,
                userinfo_token: None,
                error: Some(describe_error(e)),
                decision_time_ms: elapsed,
            },
        };
        let allowed = match &outcome {
            Ok(o) => o.result.is_allowed(),
            Err(_) => false,
        };
        let tallies = self.meter.rate_value(MetricRate::AuthzAllowRate);
        if allowed {
            if tallies.0 < u64::MAX {
                self.meter.increment_rate(MetricRate::AuthzAllowRate);
            }
        } else {
            if tallies.1 < u64::MAX {
                self.meter.decrement_rate(MetricRate::AuthzAllowRate);
            }
        }
        let ghost pre_records = self.logger.records();
        self.logger.log(LogEntry::Decision(entry));
        proof {
            if !(old(self).spec_sink() is Off) {
                assert(final(self).log_records().take(pre_records.len() as int) =~= pre_records);
            }
        }
        match outcome {
            Ok(o) => Ok(o.result),
            Err(e) => Err(e),
        }
    }

    /// The metrics collected so far.
    pub fn metrics(&self) -> (r: &Meter)
        ensures
            r == self.spec_meter(),
            r.wf() == self.meter_wf(),
    {
        &self.meter
    }

    /// Hands out and empties the collected log records.
    pub fn drain_logs(&mut self) -> (r: Vec<LogEntry>)
        ensures
            final(self).spec_sink() == old(self).spec_sink(),
            final(self).log_count() == 0,
            r@.len() == old(self).log_count(),
            final(self).meter_wf() == old(self).meter_wf(),
    {
        self.logger.drain()
    }
}

/// One line saying why an authorization call failed.
fn describe_error(e: &AuthorizeError) -> (r: String) {
    let mut out = String::new();
    match e {
        AuthorizeError::ProcessTokens(_) => out.append("could not process the request's tokens"),
        AuthorizeError::CreateWorkloadEntity(d) => {
            out.append("could not create Workload entity: ");
            out.append(d.as_str());
        },
        AuthorizeError::CreateUserEntity(d) => {
            out.append("could not create User entity: ");
            out.append(d.as_str());
        },
        AuthorizeError::CreateAccessTokenEntity(d) => {
            out.append("could not create access_token entity: ");
            out.append(d.as_str());
        },
        AuthorizeError::CreateIdTokenEntity(d) => {
            out.append("could not create id_token entity: ");
            out.append(d.as_str());
        },
        AuthorizeError::CreateUserinfoTokenEntity(d) => {
            out.append("could not create userinfo entity: ");
            out.append(d.as_str());
        },
        AuthorizeError::ResourceEntity(d) => {
            out.append("could not create resource entity: ");
            out.append(d.as_str());
        },
        AuthorizeError::RoleEntity(d) => {
            out.append("could not create role entity: ");
            out.append(d.as_str());
        },
        AuthorizeError::Action => out.append("could not parse action"),
        AuthorizeError::CreateContext(d) => {
            out.append("could not create context: ");
            out.append(d.as_str());
        },
        AuthorizeError::WorkloadRequestValidation(d) => {
            out.append("the request for Workload does not conform to the schema: ");
            out.append(d.as_str());
        },
        AuthorizeError::UserRequestValidation(d) => {
            out.append("the request for User does not conform to the schema: ");
            out.append(d.as_str());
        },
        AuthorizeError::Entities(d) => {
            out.append("could not collect all entities: ");
            out.append(d.as_str());
        },
        AuthorizeError::MissingPrincipal(view) => {
            out.append("could not authorize for ");
            out.append(view.as_str());
            out.append(" since an entity for the principal was not created");
        },
    }
    out
}

} // verus!
