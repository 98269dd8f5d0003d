//! The runtime's answer, and what it means for the turn.

use vstd::prelude::*;
use vstd::string::*;

use crate::decimal::{decimal, decimal_text};
use crate::text::{chars_of, joined, opt_view, same_text};

verus! {

/// What becomes of a turn.
#[derive(Debug, Clone, PartialEq, Eq)]
pub enum AutonomousRouteDisposition {
    /// The runtime owns the turn.
    Accepted {
        task_id: String,
        workflow_run_id: String,
        binding_id: String,
        conversation_key: String,
    },
    /// The runtime refused the turn.
    Rejected { error_code: String, retryable: bool, detail: Option<String> },
    /// The runtime could not be asked, or did not answer in a way that is
    /// understood.
    Unavailable { error_code: String, retryable: bool },
    /// The turn is not one to hand over.
    NotApplicable,
}

/// A disposition, over texts.
pub enum DispositionText {
    Accepted {
        task_id: Seq<char>,
        workflow_run_id: Seq<char>,
        binding_id: Seq<char>,
        conversation_key: Seq<char>,
    },
    Rejected { error_code: Seq<char>, retryable: bool, detail: Option<Seq<char>> },
    Unavailable { error_code: Seq<char>, retryable: bool },
    NotApplicable,
}

impl View for AutonomousRouteDisposition {
    type V = DispositionText;

    open spec fn view(&self) -> DispositionText {
        match self {
            AutonomousRouteDisposition::Accepted {
                task_id,
                workflow_run_id,
                binding_id,
                conversation_key,
            } => DispositionText::Accepted {
                task_id: task_id@,
                workflow_run_id: workflow_run_id@,
                binding_id: binding_id@,
                conversation_key: conversation_key@,
            },
            AutonomousRouteDisposition::Rejected { error_code, retryable, detail } =>
                DispositionText::Rejected {
                error_code: error_code@,
                retryable: *retryable,
                detail: opt_view(*detail),
            },
            AutonomousRouteDisposition::Unavailable { error_code, retryable } =>
                DispositionText::Unavailable { error_code: error_code@, retryable: *retryable },
            AutonomousRouteDisposition::NotApplicable => DispositionText::NotApplicable,
        }
    }
}

/// The runtime's answer.
#[derive(Debug, Clone, PartialEq, Eq)]
pub struct AutonomousIngressResponse {
    pub disposition: String,
    pub task_id: Option<String>,
    pub workflow_run_id: Option<String>,
    pub binding_id: Option<String>,
    pub conversation_key: Option<String>,
    pub error_code: Option<String>,
    pub detail: Option<String>,
    pub retryable: Option<bool>,
}

/// An answer, over texts.
pub struct ResponseText {
    pub disposition: Seq<char>,
    pub task_id: Option<Seq<char>>,
    pub workflow_run_id: Option<Seq<char>>,
    pub binding_id: Option<Seq<char>>,
    pub conversation_key: Option<Seq<char>>,
    pub error_code: Option<Seq<char>>,
    pub detail: Option<Seq<char>>,
    pub retryable: Option<bool>,
}

impl View for AutonomousIngressResponse {
    type V = ResponseText;

    open spec fn view(&self) -> ResponseText {
        ResponseText {
            disposition: self.disposition@,
            task_id: opt_view(self.task_id),
            workflow_run_id: opt_view(self.workflow_run_id),
            binding_id: opt_view(self.binding_id),
            conversation_key: opt_view(self.conversation_key),
            error_code: opt_view(self.error_code),
            detail: opt_view(self.detail),
            retryable: self.retryable,
        }
    }
}

/// Why the runtime gave no answer.
#[derive(Debug, Clone, PartialEq, Eq)]
pub enum AutonomousIngressError {
    Unreachable(String),
    Timeout,
    AuthMissing,
    Http { status: u16, body_snippet: String },
    Malformed(String),
}

/// An error, over texts.
pub enum IngressFault {
    Unreachable(Seq<char>),
    Timeout,
    AuthMissing,
    Http(u16, Seq<char>),
    Malformed(Seq<char>),
}

impl View for AutonomousIngressError {
    type V = IngressFault;

    open spec fn view(&self) -> IngressFault {
        match self {
            AutonomousIngressError::Unreachable(m) => IngressFault::Unreachable(m@),
            AutonomousIngressError::Timeout => IngressFault::Timeout,
            AutonomousIngressError::AuthMissing => IngressFault::AuthMissing,
            AutonomousIngressError::Http { status, body_snippet } => IngressFault::Http(
                *status,
                body_snippet@,
            ),
            AutonomousIngressError::Malformed(m) => IngressFault::Malformed(m@),
        }
    }
}

impl IngressFault {
    /// The same request may succeed later.
    pub open spec fn may_retry(self) -> bool {
        match self {
            IngressFault::Unreachable(_) => true,
            IngressFault::Timeout => true,
            IngressFault::Http(status, _) => status >= 500,
            IngressFault::AuthMissing => false,
            IngressFault::Malformed(_) => false,
        }
    }

    pub open spec fn tag(self) -> Seq<char> {
        match self {
            IngressFault::Unreachable(_) => "AAP_UNREACHABLE"@,
            IngressFault::Timeout => "AAP_TIMEOUT"@,
            IngressFault::AuthMissing => "AAP_AUTH_MISSING"@,
            IngressFault::Http(_, _) => "AAP_HTTP_ERROR"@,
            IngressFault::Malformed(_) => "AAP_RESPONSE_MALFORMED"@,
        }
    }

    pub open spec fn text(self) -> Seq<char> {
        match self {
            IngressFault::Unreachable(m) => "AAP unreachable: "@ + m,
            IngressFault::Timeout => "AAP timeout"@,
            IngressFault::AuthMissing => "AAP auth credential missing"@,
            IngressFault::Http(status, body) => "AAP HTTP "@ + decimal(status as nat) + ": "@
                + body,
            IngressFault::Malformed(m) => "AAP response malformed: "@ + m,
        }
    }
}

impl AutonomousIngressError {
    /// Whether the same request may succeed later.
    pub fn retryable(&self) -> (r: bool)
        ensures
            r == self@.may_retry(),
    {
        match self {
            AutonomousIngressError::Unreachable(_) => true,
            AutonomousIngressError::Timeout => true,
            AutonomousIngressError::Http { status, .. } => *status >= 500,
            AutonomousIngressError::AuthMissing => false,
            AutonomousIngressError::Malformed(_) => false,
        }
    }

    /// The stable name of the error.
    pub fn code(&self) -> (r: &'static str)
        ensures
            r@ == self@.tag(),
    {
        match self {
            AutonomousIngressError::Unreachable(_) => "AAP_UNREACHABLE",
            AutonomousIngressError::Timeout => "AAP_TIMEOUT",
            AutonomousIngressError::AuthMissing => "AAP_AUTH_MISSING",
            AutonomousIngressError::Http { .. } => "AAP_HTTP_ERROR",
            AutonomousIngressError::Malformed(_) => "AAP_RESPONSE_MALFORMED",
        }
    }

    /// How the error reads.
    pub fn message(&self) -> (r: String)
        ensures
            r@ == self@.text(),
    {
        match self {
            AutonomousIngressError::Unreachable(m) => joined("AAP unreachable: ", m.as_str()),
            AutonomousIngressError::Timeout => "AAP timeout".to_owned(),
            AutonomousIngressError::AuthMissing => "AAP auth credential missing".to_owned(),
            AutonomousIngressError::Http { status, body_snippet } => {
                let mut r = joined("AAP HTTP ", decimal_text(*status as u64).as_str());
                r.append(": ");
                r.append(body_snippet.as_str());
                r
            },
            AutonomousIngressError::Malformed(m) => joined("AAP response malformed: ", m.as_str()),
        }
    }
}

/// The first characters of an answer that is reported.
pub open spec fn snippet(body: Seq<char>) -> Seq<char> {
    if body.len() <= 200 {
        body
    } else {
        body.take(200)
    }
}

/// Whether an HTTP answer carries the runtime's decision. Any status but a success
/// is an error, with the start of what came with it.
pub fn check_status(status: u16, body: &str) -> (r: Result<(), AutonomousIngressError>)
    ensures
        200 <= status < 300 ==> r is Ok,
        !(200 <= status < 300) ==> r is Err && r->Err_0@ == IngressFault::Http(
            status,
            snippet(body@),
        ),
{
    if status >= 200 && status < 300 {
        return Ok(());
    }
    let n: usize = chars_of(body).len();
    let body_snippet = if n <= 200 {
        body.to_owned()
    } else {
        let part = body.substring_char(0, 200).to_owned();
        assert(part@ =~= body@.take(200));
        part
    };
    Err(AutonomousIngressError::Http { status, body_snippet })
}

pub open spec fn or_empty(o: Option<Seq<char>>) -> Seq<char> {
    match o {
        Some(s) => s,
        None => Seq::empty(),
    }
}

/// What the runtime's answer means for the turn.
pub open spec fn projected(r: ResponseText, fallback_conversation_key: Seq<char>) -> DispositionText {
    if r.disposition == "ACCEPTED"@ {
        DispositionText::Accepted {
            task_id: or_empty(r.task_id),
            workflow_run_id: or_empty(r.workflow_run_id),
            binding_id: or_empty(r.binding_id),
            conversation_key: match r.conversation_key {
                Some(k) => k,
                None => fallback_conversation_key,
            },
        }
    } else if r.disposition == "REJECTED"@ {
        DispositionText::Rejected {
            error_code: match r.error_code {
                Some(c) => c,
                None => "AAP_REJECTED"@,
            },
            retryable: match r.retryable {
                Some(b) => b,
                None => false,
            },
            detail: r.detail,
        }
    } else {
        DispositionText::Rejected {
            error_code: "AAP_UNKNOWN_DISPOSITION:"@ + r.disposition,
            retryable: false,
            detail: r.detail,
        }
    }
}

fn or_default(o: Option<String>) -> (r: String)
    ensures
        r@ == or_empty(opt_view(o)),
{
    match o {
        Some(s) => s,
        None => String::new(),
    }
}

/// What the runtime's answer means for the turn. An answer that is not understood
/// is a refusal.
pub fn project_response(response: AutonomousIngressResponse, fallback_conversation_key: &str) -> (r:
    AutonomousRouteDisposition)
    ensures
        r@ == projected(response@, fallback_conversation_key@),
{
    if same_text(response.disposition.as_str(), "ACCEPTED") {
        let conversation_key = match response.conversation_key {
            Some(k) => k,
            None => fallback_conversation_key.to_owned(),
        };
        AutonomousRouteDisposition::Accepted {
            task_id: or_default(response.task_id),
            workflow_run_id: or_default(response.workflow_run_id),
            binding_id: or_default(response.binding_id),
            conversation_key,
        }
    } else if same_text(response.disposition.as_str(), "REJECTED") {
        let error_code = match response.error_code {
            Some(c) => c,
            None => "AAP_REJECTED".to_owned(),
        };
        let retryable = match response.retryable {
            Some(b) => b,
            None => false,
        };
        AutonomousRouteDisposition::Rejected { error_code, retryable, detail: response.detail }
    } else {
        AutonomousRouteDisposition::Rejected {
            error_code: joined("AAP_UNKNOWN_DISPOSITION:", response.disposition.as_str()),
            retryable: false,
            detail: response.detail,
        }
    }
}

/// What a missing answer means for the turn.
pub fn project_error(err: AutonomousIngressError) -> (r: AutonomousRouteDisposition)
    ensures
        r@ == (DispositionText::Unavailable {
            error_code: err@.tag(),
            retryable: err@.may_retry(),
        }),
{
    AutonomousRouteDisposition::Unavailable {
        error_code: err.code().to_owned(),
        retryable: err.retryable(),
    }
}

} // verus!
