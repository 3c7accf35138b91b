//! An embeddable policy decision point: it validates JWTs presented by a
//! caller, materializes typed Cedar entities from their claims, evaluates a
//! Cedar policy set under a workload view and a user view, combines the two
//! decisions, and emits structured decision logs and metrics.

pub mod authz;
pub mod cedar;
pub mod cli;
pub mod clock;
pub mod codec;
pub mod facade;
pub mod http_retry;
pub mod json;
pub mod jwt;
pub mod log;
pub mod metrics;
pub mod policy_store;
pub mod text;

