//! Whether a turn is handed over, to whom, and what is reported of it.

use vstd::prelude::*;
use vstd::string::*;

use crate::config::AutonomousIngressConfig;
use crate::log::{field_views, LogEntry, LogLevel};
use crate::text::{chars_of, joined};

use super::outcome::{AutonomousIngressError, AutonomousRouteDisposition, DispositionText};
use super::request::json_bool;

verus! {

/// A turn that may be handed over, as it is reported.
#[derive(Debug, Clone, PartialEq, Eq)]
pub struct AutonomousIngressCandidate {
    pub source: &'static str,
    pub agent: String,
    pub conversation_key: String,
    pub message_id: String,
    pub routing_contract: &'static str,
}

/// A turn is handed over.
pub open spec fn routes(
    config: Option<&AutonomousIngressConfig>,
    agent: Seq<char>,
    sender_tech_lead_authorized: bool,
) -> bool {
    config is Some && config->0.declares(agent) && (config->0.aap_universal_humans
        || sender_tech_lead_authorized)
}

/// Whether a turn is handed over: the agent is declared, and the sender is
/// authorised or everyone is.
pub fn should_route_to_aap(
    config: Option<&AutonomousIngressConfig>,
    agent: &str,
    sender_tech_lead_authorized: bool,
) -> (r: bool)
    ensures
        r == routes(config, agent@, sender_tech_lead_authorized),
{
    match config {
        None => false,
        Some(cfg) => {
            if !cfg.declares_agent(agent) {
                return false;
            }
            if cfg.aap_universal_humans {
                return true;
            }
            sender_tech_lead_authorized
        },
    }
}

/// A text without the slashes at its end.
pub open spec fn without_end_slashes(s: Seq<char>) -> Seq<char>
    decreases s.len(),
{
    if s.len() > 0 && s.last() == '/' {
        without_end_slashes(s.drop_last())
    } else {
        s
    }
}

fn trim_end_slashes(s: &str) -> (r: String)
    ensures
        r@ == without_end_slashes(s@),
{
    let chars = chars_of(s);
    let mut end: usize = chars.len();
    assert(s@.take(end as int) =~= s@);
    while end > 0 && chars[end - 1] == '/'
        invariant
            chars@ == s@,
            end <= chars.len(),
            without_end_slashes(s@.take(end as int)) == without_end_slashes(s@),
        decreases end,
    {
        assert(s@.take(end as int).drop_last() =~= s@.take(end - 1));
        end -= 1;
    }
    let r = s.substring_char(0, end).to_owned();
    assert(r@ =~= s@.take(end as int));
    r
}

/// How the runtime is reached.
#[derive(Clone, PartialEq, Eq)]
pub struct HttpAutonomousIngressClient {
    base_url: String,
    credential: String,
    timeout_seconds: u64,
}

impl HttpAutonomousIngressClient {
    pub closed spec fn base_url_text(&self) -> Seq<char> {
        self.base_url@
    }

    pub closed spec fn credential_text(&self) -> Seq<char> {
        self.credential@
    }

    pub closed spec fn timeout(&self) -> u64 {
        self.timeout_seconds
    }

    /// The client of a configured runtime, whose credential was looked up.
    pub fn new(config: &AutonomousIngressConfig, credential: Option<String>) -> (r: Result<
        HttpAutonomousIngressClient,
        AutonomousIngressError,
    >)
        ensures
            match credential {
                None => r is Err && r->Err_0@ is AuthMissing,
                Some(c) => {
                    &&& r is Ok
                    &&& r->Ok_0.base_url_text() == without_end_slashes(config.aap_runtime_url@)
                    &&& r->Ok_0.credential_text() == c@
                    &&& r->Ok_0.timeout() == config.request_timeout_seconds
                },
            },
    {
        match credential {
            None => Err(AutonomousIngressError::AuthMissing),
            Some(credential) => Ok(
                HttpAutonomousIngressClient {
                    base_url: trim_end_slashes(config.aap_runtime_url.as_str()),
                    credential,
                    timeout_seconds: config.request_timeout_seconds,
                },
            ),
        }
    }

    /// Where requests are posted.
    pub fn endpoint(&self) -> (r: String)
        ensures
            r@ == self.base_url_text() + "/v1/integrations/openab/autonomous_ingress"@,
    {
        joined(self.base_url.as_str(), "/v1/integrations/openab/autonomous_ingress")
    }

    /// What authorises a request.
    pub fn credential(&self) -> (r: &str)
        ensures
            r@ == self.credential_text(),
    {
        self.credential.as_str()
    }

    /// How long an answer is waited for.
    pub fn timeout_seconds(&self) -> (r: u64)
        ensures
            r == self.timeout(),
    {
        self.timeout_seconds
    }
}

/// The client of a configured runtime, whose credential was looked up.
pub fn build_production_client(config: &AutonomousIngressConfig, credential: Option<String>) -> (r:
    Result<HttpAutonomousIngressClient, AutonomousIngressError>)
    ensures
        match credential {
            None => r is Err && r->Err_0@ is AuthMissing,
            Some(c) => {
                &&& r is Ok
                &&& r->Ok_0.base_url_text() == without_end_slashes(config.aap_runtime_url@)
                &&& r->Ok_0.credential_text() == c@
                &&& r->Ok_0.timeout() == config.request_timeout_seconds
            },
        },
{
    HttpAutonomousIngressClient::new(config, credential)
}

/// A candidate from a message in a conversation, whose session key is given.
pub fn build_candidate(agent: &str, conversation_key: &str, message_id: &str) -> (r:
    AutonomousIngressCandidate)
    ensures
        r.source@ == "discord"@,
        r.agent@ == agent@,
        r.conversation_key@ == conversation_key@,
        r.message_id@ == message_id@,
        r.routing_contract@ == "config_autonomous_ingress"@,
{
    AutonomousIngressCandidate {
        source: "discord",
        agent: agent.to_owned(),
        conversation_key: conversation_key.to_owned(),
        message_id: message_id.to_owned(),
        routing_contract: "config_autonomous_ingress",
    }
}

/// What is reported of a turn that may be handed over.
pub open spec fn candidate_fields(c: AutonomousIngressCandidate) -> Seq<(Seq<char>, Seq<char>)> {
    seq![
        ("event"@, "autonomous workflow candidate"@),
        ("source"@, c.source@),
        ("agent"@, c.agent@),
        ("conversation_key"@, c.conversation_key@),
        ("message_id"@, c.message_id@),
        ("routing_contract"@, c.routing_contract@),
    ]
}

/// What is reported of a turn that the runtime took.
pub open spec fn accepted_fields(
    c: AutonomousIngressCandidate,
    d: AutonomousRouteDisposition,
) -> Option<Seq<(Seq<char>, Seq<char>)>> {
    match d@ {
        DispositionText::Accepted { task_id, workflow_run_id, binding_id, conversation_key } => Some(
            seq![
                ("event"@, "autonomous workflow accepted by runtime"@),
                ("source"@, c.source@),
                ("agent"@, c.agent@),
                ("task_id"@, task_id),
                ("workflow_run_id"@, workflow_run_id),
                ("binding_id"@, binding_id),
                ("conversation_key"@, conversation_key),
                ("disposition"@, "ACCEPTED"@),
                ("consumed"@, "true"@),
            ],
        ),
        _ => None,
    }
}

/// What is reported of a turn that failed.
pub open spec fn failure_fields(
    c: AutonomousIngressCandidate,
    d: AutonomousRouteDisposition,
) -> Option<Seq<(Seq<char>, Seq<char>)>> {
    match d@ {
        DispositionText::Rejected { error_code, retryable, detail } => Some(
            seq![
                ("event"@, "autonomous workflow ingress failed"@),
                ("source"@, c.source@),
                ("agent"@, c.agent@),
                ("error_code"@, error_code),
                ("retryable"@, json_bool(retryable)),
                ("consumed"@, "true"@),
                (
                    "detail"@,
                    match detail {
                        Some(t) => t,
                        None => Seq::empty(),
                    },
                ),
            ],
        ),
        DispositionText::Unavailable { error_code, retryable } => Some(
            seq![
                ("event"@, "autonomous workflow ingress failed"@),
                ("source"@, c.source@),
                ("agent"@, c.agent@),
                ("error_code"@, error_code),
                ("retryable"@, json_bool(retryable)),
                ("consumed"@, "true"@),
            ],
        ),
        _ => None,
    }
}

fn bool_text(b: bool) -> (r: String)
    ensures
        r@ == json_bool(b),
{
    if b {
        "true".to_owned()
    } else {
        "false".to_owned()
    }
}

/// The entry for a turn that may be handed over.
pub fn log_candidate(candidate: &AutonomousIngressCandidate) -> (r: LogEntry)
    ensures
        r.level is Info,
        field_views(r.fields@) == candidate_fields(*candidate),
{
    let mut fields: Vec<(&'static str, String)> = Vec::new();
    fields.push(("event", "autonomous workflow candidate".to_owned()));
    fields.push(("source", candidate.source.to_owned()));
    fields.push(("agent", candidate.agent.clone()));
    fields.push(("conversation_key", candidate.conversation_key.clone()));
    fields.push(("message_id", candidate.message_id.clone()));
    fields.push(("routing_contract", candidate.routing_contract.to_owned()));
    assert(field_views(fields@) =~= candidate_fields(*candidate));
    LogEntry { level: LogLevel::Info, fields }
}

/// The entry for a turn that the runtime took; none for any other.
pub fn log_accepted(
    candidate: &AutonomousIngressCandidate,
    disposition: &AutonomousRouteDisposition,
) -> (r: Option<LogEntry>)
    ensures
        match accepted_fields(*candidate, *disposition) {
            Some(fields) => r is Some && r->0.level is Info && field_views(r->0.fields@) == fields,
            None => r is None,
        },
{
    match disposition {
        AutonomousRouteDisposition::Accepted {
            task_id,
            workflow_run_id,
            binding_id,
            conversation_key,
        } => {
            let mut fields: Vec<(&'static str, String)> = Vec::new();
            fields.push(("event", "autonomous workflow accepted by runtime".to_owned()));
            fields.push(("source", candidate.source.to_owned()));
            fields.push(("agent", candidate.agent.clone()));
            fields.push(("task_id", task_id.clone()));
            fields.push(("workflow_run_id", workflow_run_id.clone()));
            fields.push(("binding_id", binding_id.clone()));
            fields.push(("conversation_key", conversation_key.clone()));
            fields.push(("disposition", "ACCEPTED".to_owned()));
            fields.push(("consumed", "true".to_owned()));
            assert(field_views(fields@) =~= accepted_fields(*candidate, *disposition)->0);
            Some(LogEntry { level: LogLevel::Info, fields })
        },
        _ => None,
    }
}

fn failure_head(candidate: &AutonomousIngressCandidate, error_code: &String, retryable: bool) -> (r:
    Vec<(&'static str, String)>)
    ensures
        field_views(r@) == seq![
            ("event"@, "autonomous workflow ingress failed"@),
            ("source"@, candidate.source@),
            ("agent"@, candidate.agent@),
            ("error_code"@, error_code@),
            ("retryable"@, json_bool(retryable)),
            ("consumed"@, "true"@),
        ],
{
    let mut fields: Vec<(&'static str, String)> = Vec::new();
    fields.push(("event", "autonomous workflow ingress failed".to_owned()));
    fields.push(("source", candidate.source.to_owned()));
    fields.push(("agent", candidate.agent.clone()));
    fields.push(("error_code", error_code.clone()));
    fields.push(("retryable", bool_text(retryable)));
    fields.push(("consumed", "true".to_owned()));
    assert(field_views(fields@) =~= seq![
        ("event"@, "autonomous workflow ingress failed"@),
        ("source"@, candidate.source@),
        ("agent"@, candidate.agent@),
        ("error_code"@, error_code@),
        ("retryable"@, json_bool(retryable)),
        ("consumed"@, "true"@),
    ]);
    fields
}

/// The entry for a turn that was refused or could not be handed over; none for any
/// other.
pub fn log_failure(
    candidate: &AutonomousIngressCandidate,
    disposition: &AutonomousRouteDisposition,
) -> (r: Option<LogEntry>)
    ensures
        match failure_fields(*candidate, *disposition) {
            Some(fields) => r is Some && r->0.level is Warn && field_views(r->0.fields@) == fields,
            None => r is None,
        },
{
    match disposition {
        AutonomousRouteDisposition::Rejected { error_code, retryable, detail } => {
            let mut fields = failure_head(candidate, error_code, *retryable);
            let detail_text = match detail {
                Some(t) => t.clone(),
                None => String::new(),
            };
            let ghost head = fields@;
            fields.push(("detail", detail_text));
            proof {
                assert(field_views(fields@) =~= field_views(head).push(
                    ("detail"@, detail_text@),
                ));
                assert(field_views(fields@) =~= failure_fields(*candidate, *disposition)->0);
            }
            Some(LogEntry { level: LogLevel::Warn, fields })
        },
        AutonomousRouteDisposition::Unavailable { error_code, retryable } => Some(
            LogEntry {
                level: LogLevel::Warn,
                fields: failure_head(candidate, error_code, *retryable),
            },
        ),
        _ => None,
    }
}

} // verus!
