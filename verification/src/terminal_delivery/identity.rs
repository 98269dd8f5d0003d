//! What identifies a delivery, and what a delivery may hold.

use vstd::prelude::*;
use vstd::string::*;

use crate::clock::Timestamp;
use crate::decimal::{decimal, decimal_text};
use crate::digest::{digest_shaped, sha256_hex, text_digest};
use crate::json::{append_string, json_string, json_string_text};
use crate::text::{chars_of, contains, contains_text, joined, opt_view, same_text, trim, trim_text};

use super::record::{
    copied, NewTerminalDeliveryRecord, NewText, RecordText, TerminalDeliveryRecordV1,
};
use super::state::{Fault, TerminalDeliveryError, TERMINAL_DELIVERY_RECORD_VERSION};

verus! {

pub open spec fn blank(s: Seq<char>) -> bool {
    trim(s).len() == 0
}

/// What is wrong with the identifiers that a delivery is created from.
pub open spec fn new_fault(n: NewText) -> Option<Fault> {
    if blank(n.openab_inbound_turn_id) || blank(n.platform) || blank(n.channel_id) || blank(
        n.acp_request_id,
    ) || blank(n.acp_session_id) || blank(n.runtime_run_id) || blank(n.conversation_id) {
        Some(Fault::InvalidInput("required identifier"@))
    } else if (n.thread_id is Some && blank(n.thread_id->0)) || (n.workflow_run_id is Some && blank(
        n.workflow_run_id->0,
    )) {
        Some(Fault::InvalidInput("optional identifier"@))
    } else {
        None
    }
}

/// An optional identifier, the empty text where there is none.
pub open spec fn normalized(o: Option<Seq<char>>) -> Seq<char> {
    match o {
        Some(s) => s,
        None => Seq::empty(),
    }
}

/// The JSON object that a delivery's key digests. The transport session is no
/// part of it.
pub open spec fn key_material(n: NewText) -> Seq<char> {
    "{\"record_version\":1,\"openab_inbound_turn_id\":"@ + json_string(n.openab_inbound_turn_id)
        + ",\"platform\":"@ + json_string(n.platform) + ",\"channel_id\":"@ + json_string(
        n.channel_id,
    ) + ",\"thread_id_normalized\":"@ + json_string(normalized(n.thread_id))
        + ",\"acp_request_id\":"@ + json_string(n.acp_request_id) + ",\"runtime_run_id\":"@
        + json_string(n.runtime_run_id) + ",\"workflow_run_id_normalized\":"@ + json_string(
        normalized(n.workflow_run_id),
    ) + ",\"conversation_id\":"@ + json_string(n.conversation_id) + ",\"response_sequence\":"@
        + decimal(n.response_sequence as nat) + ",\"terminal_payload\":"@ + n.terminal_payload
        + "}"@
}

/// The key of a delivery.
pub open spec fn delivery_key(n: NewText) -> Seq<char> {
    text_digest(key_material(n))
}

pub open spec fn safe_char(c: char) -> bool {
    'A' <= c <= 'Z' || '0' <= c <= '9' || c == '_' || c == '-' || c == '.' || c == ':'
}

/// A text that may stand in the audit trail: a short code in capitals that names
/// no credential.
pub open spec fn safe_text(s: Seq<char>) -> bool {
    &&& 0 < s.len() <= 256
    &&& forall|i: int| 0 <= i < s.len() ==> safe_char(#[trigger] s[i])
    &&& !contains(s, "BEARER"@)
    &&& !contains(s, "TOKEN"@)
    &&& !contains(s, "AUTHORIZATION"@)
}

pub open spec fn safe_optional(o: Option<Seq<char>>) -> bool {
    o is Some ==> safe_text(o->0)
}

/// What a record was created from.
pub open spec fn created_from(r: RecordText) -> NewText {
    NewText {
        openab_inbound_turn_id: r.openab_inbound_turn_id,
        platform: r.platform,
        channel_id: r.channel_id,
        thread_id: r.thread_id,
        acp_request_id: r.acp_request_id,
        acp_session_id: r.acp_session_id,
        runtime_run_id: r.runtime_run_id,
        workflow_run_id: r.workflow_run_id,
        conversation_id: r.conversation_id,
        response_sequence: r.response_sequence,
        terminal_payload: r.terminal_payload,
    }
}

/// What is wrong with a stored record.
pub open spec fn record_fault(r: RecordText) -> Option<Fault> {
    if r.record_version != TERMINAL_DELIVERY_RECORD_VERSION {
        Some(Fault::MalformedRecord("record_version"@))
    } else if new_fault(created_from(r)) is Some {
        new_fault(created_from(r))
    } else {
        fault_against(r, delivery_key(created_from(r)), text_digest(r.terminal_payload))
    }
}

fn is_blank(s: &str) -> (r: bool)
    ensures
        r == blank(s@),
{
    trim_text(s).as_str().is_empty()
}

fn is_blank_optional(o: &Option<String>) -> (r: bool)
    ensures
        r == (opt_view(*o) is Some && blank(opt_view(*o)->0)),
{
    match o {
        Some(s) => is_blank(s.as_str()),
        None => false,
    }
}

/// Whether the identifiers of a new delivery are filled.
pub fn validate_new(input: &NewTerminalDeliveryRecord) -> (r: Result<(), TerminalDeliveryError>)
    ensures
        match new_fault(input@) {
            Some(f) => r is Err && r->Err_0@ == f,
            None => r is Ok,
        },
{
    if is_blank(input.openab_inbound_turn_id.as_str()) || is_blank(input.platform.as_str())
        || is_blank(input.channel_id.as_str()) || is_blank(input.acp_request_id.as_str())
        || is_blank(input.acp_session_id.as_str()) || is_blank(input.runtime_run_id.as_str())
        || is_blank(input.conversation_id.as_str()) {
        return Err(TerminalDeliveryError::InvalidInput("required identifier"));
    }
    if is_blank_optional(&input.thread_id) || is_blank_optional(&input.workflow_run_id) {
        return Err(TerminalDeliveryError::InvalidInput("optional identifier"));
    }
    Ok(())
}

/// An optional identifier, the empty text where there is none.
pub fn normalize(value: &Option<String>) -> (r: String)
    ensures
        r@ == normalized(opt_view(*value)),
{
    match value {
        Some(s) => s.clone(),
        None => String::new(),
    }
}

fn key_material_text(input: &NewTerminalDeliveryRecord) -> (r: String)
    ensures
        r@ == key_material(input@),
{
    let mut out = joined(
        "{\"record_version\":1,\"openab_inbound_turn_id\":",
        json_string_text(input.openab_inbound_turn_id.as_str()).as_str(),
    );
    append_string(&mut out, ",\"platform\":", input.platform.as_str());
    append_string(&mut out, ",\"channel_id\":", input.channel_id.as_str());
    append_string(
        &mut out,
        ",\"thread_id_normalized\":",
        normalize(&input.thread_id).as_str(),
    );
    append_string(&mut out, ",\"acp_request_id\":", input.acp_request_id.as_str());
    append_string(&mut out, ",\"runtime_run_id\":", input.runtime_run_id.as_str());
    append_string(
        &mut out,
        ",\"workflow_run_id_normalized\":",
        normalize(&input.workflow_run_id).as_str(),
    );
    append_string(&mut out, ",\"conversation_id\":", input.conversation_id.as_str());
    out.append(",\"response_sequence\":");
    out.append(decimal_text(input.response_sequence).as_str());
    out.append(",\"terminal_payload\":");
    out.append(input.terminal_payload.as_json());
    out.append("}");
    out
}

/// The key of a delivery: the digest of everything that identifies it.
pub fn terminal_delivery_key(input: &NewTerminalDeliveryRecord) -> (r: Result<
    String,
    TerminalDeliveryError,
>)
    ensures
        match new_fault(input@) {
            Some(f) => r is Err && r->Err_0@ == f,
            None => r is Ok && r->Ok_0@ == delivery_key(input@) && digest_shaped(r->Ok_0@),
        },
{
    validate_new(input)?;
    Ok(sha256_hex(key_material_text(input).as_str()))
}

fn is_safe_text(s: &str) -> (r: bool)
    ensures
        r == safe_text(s@),
{
    let chars = chars_of(s);
    if chars.len() == 0 || chars.len() > 256 {
        return false;
    }
    let mut i: usize = 0;
    while i < chars.len()
        invariant
            chars@ == s@,
            i <= chars.len(),
            forall|k: int| 0 <= k < i ==> safe_char(#[trigger] s@[k]),
        decreases chars.len() - i,
    {
        let c = chars[i];
        if !(('A' <= c && c <= 'Z') || ('0' <= c && c <= '9') || c == '_' || c == '-' || c == '.'
            || c == ':') {
            assert(!safe_char(s@[i as int]));
            return false;
        }
        i += 1;
    }
    !contains_text(s, "BEARER") && !contains_text(s, "TOKEN") && !contains_text(s, "AUTHORIZATION")
}

/// Whether a text may stand in the audit trail under a field's name.
pub fn validate_safe_field(value: &str, name: &'static str) -> (r: Result<
    (),
    TerminalDeliveryError,
>)
    ensures
        r is Ok <==> safe_text(value@),
        r is Err ==> r->Err_0@ == Fault::UnsafeAuditField(name@),
{
    if is_safe_text(value) {
        Ok(())
    } else {
        Err(TerminalDeliveryError::UnsafeAuditField(name))
    }
}

fn validate_safe_optional(value: &Option<String>, name: &'static str) -> (r: Result<
    (),
    TerminalDeliveryError,
>)
    ensures
        r is Ok <==> safe_optional(opt_view(*value)),
        r is Err ==> r->Err_0@ == Fault::UnsafeAuditField(name@),
{
    match value {
        Some(s) => validate_safe_field(s.as_str(), name),
        None => Ok(()),
    }
}

fn identity_of(record: &TerminalDeliveryRecordV1) -> (r: NewTerminalDeliveryRecord)
    ensures
        r@ == created_from(record@),
{
    NewTerminalDeliveryRecord {
        openab_inbound_turn_id: record.openab_inbound_turn_id.clone(),
        platform: record.platform.clone(),
        channel_id: record.channel_id.clone(),
        thread_id: copied(&record.thread_id),
        acp_request_id: record.acp_request_id.clone(),
        acp_session_id: record.acp_session_id.clone(),
        runtime_run_id: record.runtime_run_id.clone(),
        workflow_run_id: copied(&record.workflow_run_id),
        conversation_id: record.conversation_id.clone(),
        response_sequence: record.response_sequence,
        terminal_payload: record.terminal_payload.clone(),
    }
}

/// What is wrong with a stored record whose key and payload digest should be these.
pub open spec fn fault_against(r: RecordText, key: Seq<char>, digest: Seq<char>) -> Option<Fault> {
    if key != r.terminal_delivery_key {
        Some(Fault::MalformedRecord("terminal_delivery_key mismatch"@))
    } else if digest != r.terminal_payload_digest {
        Some(Fault::MalformedRecord("terminal_payload_digest mismatch"@))
    } else if !safe_optional(r.last_failure_classification) || !safe_optional(r.last_safe_error)
        || !safe_optional(r.operator_hold_reason) {
        Some(Fault::UnsafeAuditField("persisted safe field"@))
    } else {
        None
    }
}

/// Whether a stored record has the key and the digest that its content gives, and
/// nothing unsafe in its audit fields.
pub fn validate_against(record: &TerminalDeliveryRecordV1, key: &str, digest: &str) -> (r: Result<
    (),
    TerminalDeliveryError,
>)
    ensures
        match fault_against(record@, key@, digest@) {
            Some(f) => r is Err && r->Err_0@ == f,
            None => r is Ok,
        },
{
    if !same_text(key, record.terminal_delivery_key.as_str()) {
        return Err(
            TerminalDeliveryError::MalformedRecord("terminal_delivery_key mismatch".to_owned()),
        );
    }
    if !same_text(digest, record.terminal_payload_digest.as_str()) {
        return Err(
            TerminalDeliveryError::MalformedRecord("terminal_payload_digest mismatch".to_owned()),
        );
    }
    validate_safe_optional(&record.last_failure_classification, "persisted safe field")?;
    validate_safe_optional(&record.last_safe_error, "persisted safe field")?;
    validate_safe_optional(&record.operator_hold_reason, "persisted safe field")?;
    Ok(())
}

/// Whether a stored record is whole: of the known version, with filled
/// identifiers, under the key and the digest that its content gives, and with
/// nothing unsafe in its audit fields.
pub fn validate_record(record: &TerminalDeliveryRecordV1) -> (r: Result<
    (),
    TerminalDeliveryError,
>)
    ensures
        match record_fault(record@) {
            Some(f) => r is Err && r->Err_0@ == f,
            None => r is Ok,
        },
{
    if record.record_version != TERMINAL_DELIVERY_RECORD_VERSION {
        return Err(TerminalDeliveryError::MalformedRecord("record_version".to_owned()));
    }
    let input = identity_of(record);
    let key = terminal_delivery_key(&input)?;
    let digest = sha256_hex(record.terminal_payload.as_json());
    validate_against(record, key.as_str(), digest.as_str())
}

/// What a step changes in a record beside its state. A field that is `None` stays
/// as it is; an inner `None` clears it.
#[derive(Debug, Clone)]
pub struct TransitionUpdate {
    pub attempt_count: Option<u64>,
    pub next_attempt_at: Option<Option<Timestamp>>,
    pub last_failure_classification: Option<Option<String>>,
    pub last_safe_error: Option<Option<String>>,
    pub discord_message_id: Option<String>,
    pub operator_hold_reason: Option<Option<String>>,
    pub delivery_lease_token: Option<Option<String>>,
    pub delivery_started_at: Option<Option<Timestamp>>,
}

/// What a step changes, over texts.
pub struct UpdateText {
    pub attempt_count: Option<u64>,
    pub next_attempt_at: Option<Option<Timestamp>>,
    pub last_failure_classification: Option<Option<Seq<char>>>,
    pub last_safe_error: Option<Option<Seq<char>>>,
    pub discord_message_id: Option<Seq<char>>,
    pub operator_hold_reason: Option<Option<Seq<char>>>,
    pub delivery_lease_token: Option<Option<Seq<char>>>,
    pub delivery_started_at: Option<Option<Timestamp>>,
}

/// The text of a change to an optional text.
pub open spec fn change_view(o: Option<Option<String>>) -> Option<Option<Seq<char>>> {
    match o {
        Some(inner) => Some(opt_view(inner)),
        None => None,
    }
}

impl View for TransitionUpdate {
    type V = UpdateText;

    open spec fn view(&self) -> UpdateText {
        UpdateText {
            attempt_count: self.attempt_count,
            next_attempt_at: self.next_attempt_at,
            last_failure_classification: change_view(self.last_failure_classification),
            last_safe_error: change_view(self.last_safe_error),
            discord_message_id: opt_view(self.discord_message_id),
            operator_hold_reason: change_view(self.operator_hold_reason),
            delivery_lease_token: change_view(self.delivery_lease_token),
            delivery_started_at: self.delivery_started_at,
        }
    }
}

/// A change to a time stays within the calendar.
pub open spec fn change_wf(o: Option<Option<Timestamp>>) -> bool {
    o matches Some(Some(t)) ==> t.wf()
}

impl TransitionUpdate {
    /// The times of the change lie within the calendar.
    pub open spec fn wf(self) -> bool {
        change_wf(self.next_attempt_at) && change_wf(self.delivery_started_at)
    }
}

/// The change that changes nothing.
pub open spec fn no_change() -> UpdateText {
    UpdateText {
        attempt_count: None,
        next_attempt_at: None,
        last_failure_classification: None,
        last_safe_error: None,
        discord_message_id: None,
        operator_hold_reason: None,
        delivery_lease_token: None,
        delivery_started_at: None,
    }
}

impl Default for TransitionUpdate {
    fn default() -> (r: TransitionUpdate)
        ensures
            r@ == no_change(),
            r.wf(),
    {
        TransitionUpdate {
            attempt_count: None,
            next_attempt_at: None,
            last_failure_classification: None,
            last_safe_error: None,
            discord_message_id: None,
            operator_hold_reason: None,
            delivery_lease_token: None,
            delivery_started_at: None,
        }
    }
}

/// A change writes nothing unsafe.
pub open spec fn safe_change(o: Option<Option<Seq<char>>>) -> bool {
    o is Some ==> safe_optional(o->0)
}

pub open spec fn safe_update(u: UpdateText) -> bool {
    safe_change(u.last_failure_classification) && safe_change(u.last_safe_error) && safe_change(
        u.operator_hold_reason,
    )
}

fn validate_safe_change(value: &Option<Option<String>>) -> (r: Result<(), TerminalDeliveryError>)
    ensures
        r is Ok <==> safe_change(change_view(*value)),
        r is Err ==> r->Err_0@ == Fault::UnsafeAuditField("safe field"@),
{
    match value {
        Some(inner) => validate_safe_optional(inner, "safe field"),
        None => Ok(()),
    }
}

/// Whether a change writes nothing unsafe into the audit fields.
pub fn validate_transition_update(update: &TransitionUpdate) -> (r: Result<
    (),
    TerminalDeliveryError,
>)
    ensures
        r is Ok <==> safe_update(update@),
        r is Err ==> r->Err_0@ == Fault::UnsafeAuditField("safe field"@),
{
    validate_safe_change(&update.last_failure_classification)?;
    validate_safe_change(&update.last_safe_error)?;
    validate_safe_change(&update.operator_hold_reason)?;
    Ok(())
}

} // verus!
