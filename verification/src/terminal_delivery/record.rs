//! Delivery records, and the text in which their rows are stored.

use vstd::prelude::*;
use vstd::string::*;

use crate::clock::{parse_timestamp, parsed_time, Timestamp};
use crate::decimal::{parse_u64_text, parsed_u64};
use crate::json::{canonical_json, canonical_json_text};
use crate::text::opt_view;

use super::state::{state_named, Fault, TerminalDeliveryError, TerminalDeliveryState};

verus! {

/// A JSON value, held as its canonical text.
#[derive(Debug, PartialEq, Eq)]
pub struct TerminalPayload {
    text: String,
}

impl View for TerminalPayload {
    type V = Seq<char>;

    closed spec fn view(&self) -> Seq<char> {
        self.text@
    }
}

impl TerminalPayload {
    /// The text is JSON.
    #[verifier::type_invariant]
    spec fn readable(self) -> bool {
        canonical_json(self.text@) is Some
    }

    /// The JSON value that a text denotes.
    pub fn from_json(text: &str) -> (r: Option<TerminalPayload>)
        ensures
            match r {
                Some(p) => canonical_json(text@) == Some(p@),
                None => canonical_json(text@) is None,
            },
    {
        match canonical_json_text(text) {
            Some(text) => Some(TerminalPayload { text }),
            None => None,
        }
    }

    /// The canonical text, which is JSON.
    pub fn as_json(&self) -> (r: &str)
        ensures
            r@ == self@,
            canonical_json(r@) is Some,
    {
        proof {
            use_type_invariant(self);
        }
        self.text.as_str()
    }
}

impl Clone for TerminalPayload {
    fn clone(&self) -> (r: TerminalPayload)
        ensures
            r@ == self@,
    {
        proof {
            use_type_invariant(self);
        }
        TerminalPayload { text: self.text.clone() }
    }
}

/// What a delivery is created from.
#[derive(Debug, Clone, PartialEq, Eq)]
pub struct NewTerminalDeliveryRecord {
    pub openab_inbound_turn_id: String,
    pub platform: String,
    pub channel_id: String,
    pub thread_id: Option<String>,
    pub acp_request_id: String,
    pub acp_session_id: String,
    pub runtime_run_id: String,
    pub workflow_run_id: Option<String>,
    pub conversation_id: String,
    pub response_sequence: u64,
    pub terminal_payload: TerminalPayload,
}

/// A delivery and where it stands.
#[derive(Debug, Clone, PartialEq, Eq)]
pub struct TerminalDeliveryRecordV1 {
    pub record_version: i32,
    pub terminal_delivery_key: String,
    pub openab_inbound_turn_id: String,
    pub platform: String,
    pub channel_id: String,
    pub thread_id: Option<String>,
    pub acp_request_id: String,
    /// Correlates the transport only; no part of the durable identity.
    pub acp_session_id: String,
    pub runtime_run_id: String,
    pub workflow_run_id: Option<String>,
    pub conversation_id: String,
    pub response_sequence: u64,
    pub terminal_payload: TerminalPayload,
    pub terminal_payload_digest: String,
    pub state: TerminalDeliveryState,
    pub attempt_count: u64,
    pub next_attempt_at: Option<Timestamp>,
    pub last_failure_classification: Option<String>,
    pub last_safe_error: Option<String>,
    pub discord_message_id: Option<String>,
    pub operator_hold_reason: Option<String>,
    pub created_at: Timestamp,
    pub updated_at: Timestamp,
    pub delivered_at: Option<Timestamp>,
    pub state_revision: u64,
    pub delivery_lease_token: Option<String>,
    pub delivery_started_at: Option<Timestamp>,
}

/// One step of a delivery.
#[derive(Debug, Clone, PartialEq, Eq)]
pub struct TerminalDeliveryEvent {
    pub terminal_delivery_key: String,
    pub previous_state: Option<TerminalDeliveryState>,
    pub new_state: TerminalDeliveryState,
    pub state_revision: u64,
    pub safe_reason_code: String,
    pub timestamp: Timestamp,
}

/// The stored columns of a delivery. Numbers, states, times and the payload are text.
#[derive(Debug, Clone, PartialEq, Eq)]
pub struct DeliveryRow {
    pub record_version: i32,
    pub terminal_delivery_key: String,
    pub openab_inbound_turn_id: String,
    pub platform: String,
    pub channel_id: String,
    pub thread_id: Option<String>,
    pub acp_request_id: String,
    pub acp_session_id: String,
    pub runtime_run_id: String,
    pub workflow_run_id: Option<String>,
    pub conversation_id: String,
    pub response_sequence: String,
    pub terminal_payload: String,
    pub terminal_payload_digest: String,
    pub state: String,
    pub attempt_count: String,
    pub next_attempt_at: Option<String>,
    pub last_failure_classification: Option<String>,
    pub last_safe_error: Option<String>,
    pub discord_message_id: Option<String>,
    pub operator_hold_reason: Option<String>,
    pub created_at: String,
    pub updated_at: String,
    pub delivered_at: Option<String>,
    pub state_revision: String,
    pub delivery_lease_token: Option<String>,
    pub delivery_started_at: Option<String>,
}

/// The stored columns of one step.
#[derive(Debug, Clone, PartialEq, Eq)]
pub struct DeliveryEventRow {
    pub terminal_delivery_key: String,
    pub previous_state: Option<String>,
    pub new_state: String,
    pub state_revision: String,
    pub safe_reason_code: String,
    pub timestamp: String,
}

/// What a delivery is created from, over texts.
pub struct NewText {
    pub openab_inbound_turn_id: Seq<char>,
    pub platform: Seq<char>,
    pub channel_id: Seq<char>,
    pub thread_id: Option<Seq<char>>,
    pub acp_request_id: Seq<char>,
    pub acp_session_id: Seq<char>,
    pub runtime_run_id: Seq<char>,
    pub workflow_run_id: Option<Seq<char>>,
    pub conversation_id: Seq<char>,
    pub response_sequence: u64,
    pub terminal_payload: Seq<char>,
}

/// A delivery record, over texts.
pub struct RecordText {
    pub record_version: i32,
    pub terminal_delivery_key: Seq<char>,
    pub openab_inbound_turn_id: Seq<char>,
    pub platform: Seq<char>,
    pub channel_id: Seq<char>,
    pub thread_id: Option<Seq<char>>,
    pub acp_request_id: Seq<char>,
    pub acp_session_id: Seq<char>,
    pub runtime_run_id: Seq<char>,
    pub workflow_run_id: Option<Seq<char>>,
    pub conversation_id: Seq<char>,
    pub response_sequence: u64,
    pub terminal_payload: Seq<char>,
    pub terminal_payload_digest: Seq<char>,
    pub state: TerminalDeliveryState,
    pub attempt_count: u64,
    pub next_attempt_at: Option<Timestamp>,
    pub last_failure_classification: Option<Seq<char>>,
    pub last_safe_error: Option<Seq<char>>,
    pub discord_message_id: Option<Seq<char>>,
    pub operator_hold_reason: Option<Seq<char>>,
    pub created_at: Timestamp,
    pub updated_at: Timestamp,
    pub delivered_at: Option<Timestamp>,
    pub state_revision: u64,
    pub delivery_lease_token: Option<Seq<char>>,
    pub delivery_started_at: Option<Timestamp>,
}

/// One step of a delivery, over texts.
pub struct EventText {
    pub terminal_delivery_key: Seq<char>,
    pub previous_state: Option<TerminalDeliveryState>,
    pub new_state: TerminalDeliveryState,
    pub state_revision: u64,
    pub safe_reason_code: Seq<char>,
    pub timestamp: Timestamp,
}

/// The stored columns of a delivery, over texts.
pub struct RowText {
    pub record_version: i32,
    pub terminal_delivery_key: Seq<char>,
    pub openab_inbound_turn_id: Seq<char>,
    pub platform: Seq<char>,
    pub channel_id: Seq<char>,
    pub thread_id: Option<Seq<char>>,
    pub acp_request_id: Seq<char>,
    pub acp_session_id: Seq<char>,
    pub runtime_run_id: Seq<char>,
    pub workflow_run_id: Option<Seq<char>>,
    pub conversation_id: Seq<char>,
    pub response_sequence: Seq<char>,
    pub terminal_payload: Seq<char>,
    pub terminal_payload_digest: Seq<char>,
    pub state: Seq<char>,
    pub attempt_count: Seq<char>,
    pub next_attempt_at: Option<Seq<char>>,
    pub last_failure_classification: Option<Seq<char>>,
    pub last_safe_error: Option<Seq<char>>,
    pub discord_message_id: Option<Seq<char>>,
    pub operator_hold_reason: Option<Seq<char>>,
    pub created_at: Seq<char>,
    pub updated_at: Seq<char>,
    pub delivered_at: Option<Seq<char>>,
    pub state_revision: Seq<char>,
    pub delivery_lease_token: Option<Seq<char>>,
    pub delivery_started_at: Option<Seq<char>>,
}

/// The stored columns of one step, over texts.
pub struct EventRowText {
    pub terminal_delivery_key: Seq<char>,
    pub previous_state: Option<Seq<char>>,
    pub new_state: Seq<char>,
    pub state_revision: Seq<char>,
    pub safe_reason_code: Seq<char>,
    pub timestamp: Seq<char>,
}

impl View for NewTerminalDeliveryRecord {
    type V = NewText;

    open spec fn view(&self) -> NewText {
        NewText {
            openab_inbound_turn_id: self.openab_inbound_turn_id@,
            platform: self.platform@,
            channel_id: self.channel_id@,
            thread_id: opt_view(self.thread_id),
            acp_request_id: self.acp_request_id@,
            acp_session_id: self.acp_session_id@,
            runtime_run_id: self.runtime_run_id@,
            workflow_run_id: opt_view(self.workflow_run_id),
            conversation_id: self.conversation_id@,
            response_sequence: self.response_sequence,
            terminal_payload: self.terminal_payload@,
        }
    }
}

impl View for TerminalDeliveryRecordV1 {
    type V = RecordText;

    open spec fn view(&self) -> RecordText {
        RecordText {
            record_version: self.record_version,
            terminal_delivery_key: self.terminal_delivery_key@,
            openab_inbound_turn_id: self.openab_inbound_turn_id@,
            platform: self.platform@,
            channel_id: self.channel_id@,
            thread_id: opt_view(self.thread_id),
            acp_request_id: self.acp_request_id@,
            acp_session_id: self.acp_session_id@,
            runtime_run_id: self.runtime_run_id@,
            workflow_run_id: opt_view(self.workflow_run_id),
            conversation_id: self.conversation_id@,
            response_sequence: self.response_sequence,
            terminal_payload: self.terminal_payload@,
            terminal_payload_digest: self.terminal_payload_digest@,
            state: self.state,
            attempt_count: self.attempt_count,
            next_attempt_at: self.next_attempt_at,
            last_failure_classification: opt_view(self.last_failure_classification),
            last_safe_error: opt_view(self.last_safe_error),
            discord_message_id: opt_view(self.discord_message_id),
            operator_hold_reason: opt_view(self.operator_hold_reason),
            created_at: self.created_at,
            updated_at: self.updated_at,
            delivered_at: self.delivered_at,
            state_revision: self.state_revision,
            delivery_lease_token: opt_view(self.delivery_lease_token),
            delivery_started_at: self.delivery_started_at,
        }
    }
}

impl View for TerminalDeliveryEvent {
    type V = EventText;

    open spec fn view(&self) -> EventText {
        EventText {
            terminal_delivery_key: self.terminal_delivery_key@,
            previous_state: self.previous_state,
            new_state: self.new_state,
            state_revision: self.state_revision,
            safe_reason_code: self.safe_reason_code@,
            timestamp: self.timestamp,
        }
    }
}

impl View for DeliveryRow {
    type V = RowText;

    open spec fn view(&self) -> RowText {
        RowText {
            record_version: self.record_version,
            terminal_delivery_key: self.terminal_delivery_key@,
            openab_inbound_turn_id: self.openab_inbound_turn_id@,
            platform: self.platform@,
            channel_id: self.channel_id@,
            thread_id: opt_view(self.thread_id),
            acp_request_id: self.acp_request_id@,
            acp_session_id: self.acp_session_id@,
            runtime_run_id: self.runtime_run_id@,
            workflow_run_id: opt_view(self.workflow_run_id),
            conversation_id: self.conversation_id@,
            response_sequence: self.response_sequence@,
            terminal_payload: self.terminal_payload@,
            terminal_payload_digest: self.terminal_payload_digest@,
            state: self.state@,
            attempt_count: self.attempt_count@,
            next_attempt_at: opt_view(self.next_attempt_at),
            last_failure_classification: opt_view(self.last_failure_classification),
            last_safe_error: opt_view(self.last_safe_error),
            discord_message_id: opt_view(self.discord_message_id),
            operator_hold_reason: opt_view(self.operator_hold_reason),
            created_at: self.created_at@,
            updated_at: self.updated_at@,
            delivered_at: opt_view(self.delivered_at),
            state_revision: self.state_revision@,
            delivery_lease_token: opt_view(self.delivery_lease_token),
            delivery_started_at: opt_view(self.delivery_started_at),
        }
    }
}

impl View for DeliveryEventRow {
    type V = EventRowText;

    open spec fn view(&self) -> EventRowText {
        EventRowText {
            terminal_delivery_key: self.terminal_delivery_key@,
            previous_state: opt_view(self.previous_state),
            new_state: self.new_state@,
            state_revision: self.state_revision@,
            safe_reason_code: self.safe_reason_code@,
            timestamp: self.timestamp@,
        }
    }
}

/// The times of a record lie within the calendar.
pub open spec fn times_wf(r: RecordText) -> bool {
    &&& r.created_at.wf()
    &&& r.updated_at.wf()
    &&& r.next_attempt_at is Some ==> r.next_attempt_at->0.wf()
    &&& r.delivered_at is Some ==> r.delivered_at->0.wf()
    &&& r.delivery_started_at is Some ==> r.delivery_started_at->0.wf()
}

/// The point in time that an optional text denotes; nothing where the text is
/// there and denotes none.
pub open spec fn parsed_optional_time(text: Option<Seq<char>>) -> Option<Option<Timestamp>> {
    match text {
        None => Some(None),
        Some(t) => match parsed_time(t) {
            Some(at) => Some(Some(at)),
            None => None,
        },
    }
}

/// The first column of a row that does not denote what it should, by what is
/// wrong with it.
pub open spec fn row_fault(row: RowText) -> Option<Seq<char>> {
    if parsed_u64(row.response_sequence) is None {
        Some("integer"@)
    } else if canonical_json(row.terminal_payload) is None {
        Some("terminal_payload"@)
    } else if state_named(row.state) is None {
        Some("unknown state"@)
    } else if parsed_u64(row.attempt_count) is None {
        Some("integer"@)
    } else if parsed_optional_time(row.next_attempt_at) is None {
        Some("timestamp"@)
    } else if parsed_time(row.created_at) is None {
        Some("timestamp"@)
    } else if parsed_time(row.updated_at) is None {
        Some("timestamp"@)
    } else if parsed_optional_time(row.delivered_at) is None {
        Some("timestamp"@)
    } else if parsed_u64(row.state_revision) is None {
        Some("integer"@)
    } else if parsed_optional_time(row.delivery_started_at) is None {
        Some("timestamp"@)
    } else {
        None
    }
}

/// The record that the columns of a row denote.
pub open spec fn row_record(row: RowText) -> RecordText {
    RecordText {
        record_version: row.record_version,
        terminal_delivery_key: row.terminal_delivery_key,
        openab_inbound_turn_id: row.openab_inbound_turn_id,
        platform: row.platform,
        channel_id: row.channel_id,
        thread_id: row.thread_id,
        acp_request_id: row.acp_request_id,
        acp_session_id: row.acp_session_id,
        runtime_run_id: row.runtime_run_id,
        workflow_run_id: row.workflow_run_id,
        conversation_id: row.conversation_id,
        response_sequence: parsed_u64(row.response_sequence)->0,
        terminal_payload: canonical_json(row.terminal_payload)->0,
        terminal_payload_digest: row.terminal_payload_digest,
        state: state_named(row.state)->0,
        attempt_count: parsed_u64(row.attempt_count)->0,
        next_attempt_at: parsed_optional_time(row.next_attempt_at)->0,
        last_failure_classification: row.last_failure_classification,
        last_safe_error: row.last_safe_error,
        discord_message_id: row.discord_message_id,
        operator_hold_reason: row.operator_hold_reason,
        created_at: parsed_time(row.created_at)->0,
        updated_at: parsed_time(row.updated_at)->0,
        delivered_at: parsed_optional_time(row.delivered_at)->0,
        state_revision: parsed_u64(row.state_revision)->0,
        delivery_lease_token: row.delivery_lease_token,
        delivery_started_at: parsed_optional_time(row.delivery_started_at)->0,
    }
}

/// A copy of an optional text.
pub fn copied(o: &Option<String>) -> (r: Option<String>)
    ensures
        opt_view(r) == opt_view(*o),
{
    match o {
        Some(s) => Some(s.clone()),
        None => None,
    }
}

/// The number that a stored text denotes.
pub fn parse_u64(value: &str) -> (r: Result<u64, TerminalDeliveryError>)
    ensures
        match parsed_u64(value@) {
            Some(n) => r == Ok::<u64, TerminalDeliveryError>(n),
            None => r is Err && r->Err_0@ == Fault::MalformedRecord("integer"@),
        },
{
    match parse_u64_text(value) {
        Some(n) => Ok(n),
        None => Err(TerminalDeliveryError::MalformedRecord("integer".to_owned())),
    }
}

/// The point in time that a stored text denotes.
pub fn parse_time(value: &str) -> (r: Result<Timestamp, TerminalDeliveryError>)
    ensures
        match parsed_time(value@) {
            Some(t) => r == Ok::<Timestamp, TerminalDeliveryError>(t) && t.wf(),
            None => r is Err && r->Err_0@ == Fault::MalformedRecord("timestamp"@),
        },
{
    match parse_timestamp(value) {
        Some(t) => Ok(t),
        None => Err(TerminalDeliveryError::MalformedRecord("timestamp".to_owned())),
    }
}

/// The point in time that an optional stored text denotes.
pub fn parse_optional_time(value: &Option<String>) -> (r: Result<
    Option<Timestamp>,
    TerminalDeliveryError,
>)
    ensures
        match parsed_optional_time(opt_view(*value)) {
            Some(t) => r == Ok::<Option<Timestamp>, TerminalDeliveryError>(t) && (t is Some
                ==> t->0.wf()),
            None => r is Err && r->Err_0@ == Fault::MalformedRecord("timestamp"@),
        },
{
    match value {
        Some(text) => match parse_time(text.as_str()) {
            Ok(t) => Ok(Some(t)),
            Err(e) => Err(e),
        },
        None => Ok(None),
    }
}

fn parse_payload(value: &str) -> (r: Result<TerminalPayload, TerminalDeliveryError>)
    ensures
        match canonical_json(value@) {
            Some(p) => r is Ok && r->Ok_0@ == p,
            None => r is Err && r->Err_0@ == Fault::MalformedRecord("terminal_payload"@),
        },
{
    match TerminalPayload::from_json(value) {
        Some(p) => Ok(p),
        None => Err(TerminalDeliveryError::MalformedRecord("terminal_payload".to_owned())),
    }
}

/// The record that a stored row denotes.
pub fn record_from_row(row: &DeliveryRow) -> (r: Result<
    TerminalDeliveryRecordV1,
    TerminalDeliveryError,
>)
    ensures
        match row_fault(row@) {
            Some(detail) => r is Err && r->Err_0@ == Fault::MalformedRecord(detail),
            None => r is Ok && r->Ok_0@ == row_record(row@) && times_wf(r->Ok_0@),
        },
{
    let response_sequence: u64 = parse_u64(row.response_sequence.as_str())?;
    let terminal_payload = parse_payload(row.terminal_payload.as_str())?;
    let state = TerminalDeliveryState::parse(row.state.as_str())?;
    let attempt_count: u64 = parse_u64(row.attempt_count.as_str())?;
    let next_attempt_at = parse_optional_time(&row.next_attempt_at)?;
    let created_at = parse_time(row.created_at.as_str())?;
    let updated_at = parse_time(row.updated_at.as_str())?;
    let delivered_at = parse_optional_time(&row.delivered_at)?;
    let state_revision: u64 = parse_u64(row.state_revision.as_str())?;
    let delivery_started_at = parse_optional_time(&row.delivery_started_at)?;
    Ok(
        TerminalDeliveryRecordV1 {
            record_version: row.record_version,
            terminal_delivery_key: row.terminal_delivery_key.clone(),
            openab_inbound_turn_id: row.openab_inbound_turn_id.clone(),
            platform: row.platform.clone(),
            channel_id: row.channel_id.clone(),
            thread_id: copied(&row.thread_id),
            acp_request_id: row.acp_request_id.clone(),
            acp_session_id: row.acp_session_id.clone(),
            runtime_run_id: row.runtime_run_id.clone(),
            workflow_run_id: copied(&row.workflow_run_id),
            conversation_id: row.conversation_id.clone(),
            response_sequence,
            terminal_payload,
            terminal_payload_digest: row.terminal_payload_digest.clone(),
            state,
            attempt_count,
            next_attempt_at,
            last_failure_classification: copied(&row.last_failure_classification),
            last_safe_error: copied(&row.last_safe_error),
            discord_message_id: copied(&row.discord_message_id),
            operator_hold_reason: copied(&row.operator_hold_reason),
            created_at,
            updated_at,
            delivered_at,
            state_revision,
            delivery_lease_token: copied(&row.delivery_lease_token),
            delivery_started_at,
        },
    )
}

/// What a step's columns do not denote.
pub open spec fn event_row_fault(row: EventRowText) -> Option<Seq<char>> {
    if row.previous_state is Some && state_named(row.previous_state->0) is None {
        Some("unknown state"@)
    } else if state_named(row.new_state) is None {
        Some("unknown state"@)
    } else if parsed_u64(row.state_revision) is None {
        Some("integer"@)
    } else if parsed_time(row.timestamp) is None {
        Some("timestamp"@)
    } else {
        None
    }
}

/// The step that the columns of a row denote.
pub open spec fn row_event(row: EventRowText) -> EventText {
    EventText {
        terminal_delivery_key: row.terminal_delivery_key,
        previous_state: match row.previous_state {
            Some(s) => Some(state_named(s)->0),
            None => None,
        },
        new_state: state_named(row.new_state)->0,
        state_revision: parsed_u64(row.state_revision)->0,
        safe_reason_code: row.safe_reason_code,
        timestamp: parsed_time(row.timestamp)->0,
    }
}

/// The step that a stored row denotes.
pub fn event_from_row(row: &DeliveryEventRow) -> (r: Result<
    TerminalDeliveryEvent,
    TerminalDeliveryError,
>)
    ensures
        match event_row_fault(row@) {
            Some(detail) => r is Err && r->Err_0@ == Fault::MalformedRecord(detail),
            None => r is Ok && r->Ok_0@ == row_event(row@),
        },
{
    let previous_state = match &row.previous_state {
        Some(s) => Some(TerminalDeliveryState::parse(s.as_str())?),
        None => None,
    };
    let new_state = TerminalDeliveryState::parse(row.new_state.as_str())?;
    let state_revision: u64 = parse_u64(row.state_revision.as_str())?;
    let timestamp = parse_time(row.timestamp.as_str())?;
    Ok(
        TerminalDeliveryEvent {
            terminal_delivery_key: row.terminal_delivery_key.clone(),
            previous_state,
            new_state,
            state_revision,
            safe_reason_code: row.safe_reason_code.clone(),
            timestamp,
        },
    )
}

} // verus!
