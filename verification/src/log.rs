//! Structured logging: decision records for every authorization call and
//! system records for lifecycle events, collected in memory. A sink set to
//! `Off` discards records; what carries the collected records to stdout or a
//! collector stays outside the engine.

use vstd::prelude::*;
use vstd::string::*;

use crate::cedar::Decision;
use crate::json::Json;
use crate::policy_store::SemverVersion;

verus! {

/// Where log records go: nowhere, to standard output, or to an in-memory
/// buffer for later retrieval.
#[derive(Clone, Copy, Debug, PartialEq, Eq, Structural)]
pub enum LogSink {
    Off,
    StdOut,
    Lock,
}

/// What the decision log keeps about one token: issuer, subject, and the
/// configured id claim.
pub struct TokenLogInfo {
    pub iss: Option<String>,
    pub sub: Option<String>,
    pub jti: Option<String>,
}

/// Reads a token's logging fields out of its claims; the id comes from the
/// configured id claim.
pub fn token_log_info(claims: &Json, id_claim: &String) -> (r: TokenLogInfo) {
    TokenLogInfo {
        iss: claims.get_str("iss"),
        sub: claims.get_str("sub"),
        jti: claims.get_str(id_claim.as_str()),
    }
}

/// One decision record: who decided what, for which action and resource,
/// with the projected claims and timing.
pub struct DecisionLogEntry {
    pub pdp_id: String,
    pub application_name: String,
    pub policystore_id: String,
    pub policystore_version: Option<SemverVersion>,
    pub action: String,
    pub resource: String,
    pub decision: Decision,
    pub workload_claims: Option<Vec<(String, Json)>>,
    pub user_claims: Option<Vec<(String, Json)>>,
    pub access_token: Option<TokenLogInfo>,
    pub id_token: Option<TokenLogInfo>,
    pub userinfo_token: Option<TokenLogInfo>,
    pub error: Option<String>,
    pub decision_time_ms: u64,
}

/// One lifecycle record, tagged with the deciding point and application.
pub struct SystemLogEntry {
    pub pdp_id: String,
    pub application_name: String,
    pub message: String,
}

/// One log record.
pub enum LogEntry {
    System(SystemLogEntry),
    Decision(DecisionLogEntry),
}

/// Collects log records according to the configured sink. Every record it
/// writes carries the pdp id and application name it was built with.
pub struct Logger {
    sink: LogSink,
    pdp_id: String,
    application_name: String,
    entries: Vec<LogEntry>,
}

impl Logger {
    pub closed spec fn spec_sink(self) -> LogSink {
        self.sink
    }

    pub closed spec fn spec_pdp_id(self) -> Seq<char> {
        self.pdp_id@
    }

    pub closed spec fn spec_application_name(self) -> Seq<char> {
        self.application_name@
    }

    /// The records collected so far, oldest first.
    pub closed spec fn records(self) -> Seq<LogEntry> {
        self.entries@
    }

    pub open spec fn count(self) -> nat {
        self.records().len()
    }

    pub fn new(sink: LogSink, pdp_id: String, application_name: String) -> (r: Logger)
        ensures
            r.spec_sink() == sink,
            r.spec_pdp_id() == pdp_id@,
            r.spec_application_name() == application_name@,
            r.records() == Seq::<LogEntry>::empty(),
    {
        let entries: Vec<LogEntry> = Vec::new();
        let r = Logger { sink, pdp_id, application_name, entries };
        proof {
            assert(r.records() =~= Seq::<LogEntry>::empty());
        }
        r
    }

    /// Records one entry; a sink set to `Off` discards it.
    pub fn log(&mut self, entry: LogEntry)
        ensures
            final(self).spec_sink() == old(self).spec_sink(),
            final(self).spec_pdp_id() == old(self).spec_pdp_id(),
            final(self).spec_application_name() == old(self).spec_application_name(),
            old(self).spec_sink() is Off ==> final(self).records() == old(self).records(),
            !(old(self).spec_sink() is Off) ==> final(self).records() == old(self).records().push(
                entry,
            ),
    {
        match self.sink {
            LogSink::Off => {},
            _ => {
                self.entries.push(entry);
            },
        }
    }

    /// Records a system debug message, tagged with the pdp id and
    /// application name.
    pub fn system_debug(&mut self, msg: &str)
        ensures
            final(self).spec_sink() == old(self).spec_sink(),
            final(self).spec_pdp_id() == old(self).spec_pdp_id(),
            final(self).spec_application_name() == old(self).spec_application_name(),
            old(self).spec_sink() is Off ==> final(self).records() == old(self).records(),
            !(old(self).spec_sink() is Off) ==> {
                &&& final(self).records().len() == old(self).records().len() + 1
                &&& final(self).records().take(old(self).records().len() as int) == old(
                    self,
                ).records()
                &&& final(self).records().last() matches LogEntry::System(e) && {
                    &&& e.pdp_id@ == old(self).spec_pdp_id()
                    &&& e.application_name@ == old(self).spec_application_name()
                    &&& e.message@ == msg@
                }
            },
    {
        let entry = LogEntry::System(
            SystemLogEntry {
                pdp_id: self.pdp_id.clone(),
                application_name: self.application_name.clone(),
                message: String::from_str(msg),
            },
        );
        let ghost pre = self.records();
        self.log(entry);
        proof {
            if !(old(self).spec_sink() is Off) {
                assert(final(self).records().take(pre.len() as int) =~= pre);
            }
        }
    }

    /// Hands out and empties the collected log records.
    pub fn drain(&mut self) -> (r: Vec<LogEntry>)
        ensures
            final(self).spec_sink() == old(self).spec_sink(),
            final(self).spec_pdp_id() == old(self).spec_pdp_id(),
            final(self).spec_application_name() == old(self).spec_application_name(),
            final(self).records() == Seq::<LogEntry>::empty(),
            r@ == old(self).records(),
    {
        let mut out: Vec<LogEntry> = Vec::new();
        std::mem::swap(&mut out, &mut self.entries);
        proof {
            assert(final(self).records() =~= Seq::<LogEntry>::empty());
        }
        out
    }

    /// The records collected so far.
    pub fn entries(&self) -> (r: &Vec<LogEntry>)
        ensures
            r@ == self.records(),
    {
        &self.entries
    }
}

} // verus!
