//! The table of deliveries and the log of their steps.
//!
//! The functions here decide what an operation does to the stored rows; the rows
//! themselves are read and written by whoever owns the database.

use vstd::prelude::*;
use vstd::string::*;

use crate::clock::{four_digit_year, timestamp, Timestamp};
use crate::decimal::{decimal, decimal_text};
use crate::digest::{sha256_hex, text_digest};
use crate::paths::{join_path, path_in};
use crate::text::{opt_view, same_text};

use super::identity::{
    change_view, delivery_key, new_fault, normalize, normalized, record_fault, safe_text, safe_update,
    terminal_delivery_key, validate_record, validate_safe_field, validate_transition_update,
    TransitionUpdate, UpdateText,
};
use super::laws::{due_step_succeeds, new_response_is_recorded};
use super::record::{
    copied, event_from_row, event_row_fault, record_from_row, row_event, row_fault, row_record, times_wf,
    DeliveryEventRow, DeliveryRow, EventRowText, EventText, NewTerminalDeliveryRecord, NewText, RecordText,
    RowText, TerminalDeliveryEvent, TerminalDeliveryRecordV1,
};
use super::state::{
    fault_message, Fault, TerminalDeliveryError, TerminalDeliveryState, TERMINAL_DELIVERY_PAYLOAD_CONFLICT,
    TERMINAL_DELIVERY_RECORD_VERSION, TERMINAL_DELIVERY_SCHEMA_VERSION,
};

verus! {

/// What a database holds, over texts.
pub struct RepositoryText {
    pub database_path: Seq<char>,
    pub rows: Seq<RowText>,
    pub log: Seq<EventRowText>,
}

/// The part of a delivery's identity that one response can fill only once.
pub struct SlotText {
    pub record_version: i32,
    pub openab_inbound_turn_id: Seq<char>,
    pub platform: Seq<char>,
    pub channel_id: Seq<char>,
    pub thread_id: Seq<char>,
    pub response_sequence: Seq<char>,
    pub runtime_run_id: Seq<char>,
    pub workflow_run_id: Seq<char>,
}

pub open spec fn row_slot(row: RowText) -> SlotText {
    SlotText {
        record_version: row.record_version,
        openab_inbound_turn_id: row.openab_inbound_turn_id,
        platform: row.platform,
        channel_id: row.channel_id,
        thread_id: normalized(row.thread_id),
        response_sequence: row.response_sequence,
        runtime_run_id: row.runtime_run_id,
        workflow_run_id: normalized(row.workflow_run_id),
    }
}

pub open spec fn new_slot(n: NewText) -> SlotText {
    SlotText {
        record_version: TERMINAL_DELIVERY_RECORD_VERSION,
        openab_inbound_turn_id: n.openab_inbound_turn_id,
        platform: n.platform,
        channel_id: n.channel_id,
        thread_id: normalized(n.thread_id),
        response_sequence: decimal(n.response_sequence as nat),
        runtime_run_id: n.runtime_run_id,
        workflow_run_id: normalized(n.workflow_run_id),
    }
}

/// Where the row under a key stands; the number of rows where there is none.
pub open spec fn key_place(rows: Seq<RowText>, key: Seq<char>) -> int
    decreases rows.len(),
{
    if rows.len() == 0 || rows[0].terminal_delivery_key == key {
        0
    } else {
        1 + key_place(rows.skip(1), key)
    }
}

/// Where the row in a slot stands; the number of rows where there is none.
pub open spec fn slot_place(rows: Seq<RowText>, slot: SlotText) -> int
    decreases rows.len(),
{
    if rows.len() == 0 || row_slot(rows[0]) == slot {
        0
    } else {
        1 + slot_place(rows.skip(1), slot)
    }
}

/// The record in a row, as a query hands it out.
pub open spec fn stored(row: RowText) -> Result<RecordText, Fault> {
    match row_fault(row) {
        Some(detail) => Err(Fault::Storage(fault_message(Fault::MalformedRecord(detail)))),
        None => Ok(row_record(row)),
    }
}

/// The record under a key.
pub open spec fn looked_up(rows: Seq<RowText>, key: Seq<char>) -> Result<Option<RecordText>, Fault> {
    let at = key_place(rows, key);
    if at >= rows.len() {
        Ok(None)
    } else {
        match stored(rows[at]) {
            Ok(record) => Ok(Some(record)),
            Err(f) => Err(f),
        }
    }
}

/// The row of a new delivery.
pub open spec fn new_row(n: NewText, now: Timestamp) -> RowText {
    RowText {
        record_version: TERMINAL_DELIVERY_RECORD_VERSION,
        terminal_delivery_key: delivery_key(n),
        openab_inbound_turn_id: n.openab_inbound_turn_id,
        platform: n.platform,
        channel_id: n.channel_id,
        thread_id: n.thread_id,
        acp_request_id: n.acp_request_id,
        acp_session_id: n.acp_session_id,
        runtime_run_id: n.runtime_run_id,
        workflow_run_id: n.workflow_run_id,
        conversation_id: n.conversation_id,
        response_sequence: decimal(n.response_sequence as nat),
        terminal_payload: n.terminal_payload,
        terminal_payload_digest: text_digest(n.terminal_payload),
        state: TerminalDeliveryState::PendingResult.text(),
        attempt_count: "0"@,
        next_attempt_at: None,
        last_failure_classification: None,
        last_safe_error: None,
        discord_message_id: None,
        operator_hold_reason: None,
        created_at: now.text(),
        updated_at: now.text(),
        delivered_at: None,
        state_revision: "0"@,
        delivery_lease_token: None,
        delivery_started_at: None,
    }
}

/// The log entry of a new delivery.
pub open spec fn created_event(key: Seq<char>, now: Timestamp) -> EventRowText {
    EventRowText {
        terminal_delivery_key: key,
        previous_state: None,
        new_state: TerminalDeliveryState::PendingResult.text(),
        state_revision: "0"@,
        safe_reason_code: "CREATED"@,
        timestamp: now.text(),
    }
}

/// What creating a delivery does and returns. The delivery under the same key is
/// reused; so is the one in the same slot with the same payload.
pub open spec fn create_step(repo: RepositoryText, n: NewText, now: Timestamp) -> (
    RepositoryText,
    Result<RecordText, Fault>,
) {
    let keyed = key_place(repo.rows, delivery_key(n));
    let slotted = slot_place(repo.rows, new_slot(n));
    let row = new_row(n, now);
    if new_fault(n) is Some {
        (repo, Err(new_fault(n)->0))
    } else if keyed < repo.rows.len() {
        (repo, stored(repo.rows[keyed]))
    } else if slotted < repo.rows.len() {
        match stored(repo.rows[slotted]) {
            Err(f) => (repo, Err(f)),
            Ok(existing) => if existing.terminal_payload_digest == text_digest(n.terminal_payload) {
                (repo, Ok(existing))
            } else {
                (repo, Err(Fault::PayloadConflict(TERMINAL_DELIVERY_PAYLOAD_CONFLICT@)))
            },
        }
    } else {
        match stored(row) {
            Err(f) => (repo, Err(f)),
            Ok(created) => (
                RepositoryText {
                    rows: repo.rows.push(row),
                    log: repo.log.push(created_event(delivery_key(n), now)),
                    ..repo
                },
                Ok(created),
            ),
        }
    }
}

/// Why a record may not take a step.
pub open spec fn step_fault(
    current: RecordText,
    expected_revision: u64,
    new_state: TerminalDeliveryState,
    u: UpdateText,
) -> Option<Fault> {
    if current.state.terminal() {
        Some(Fault::ImmutableTerminalState(current.state))
    } else if current.state_revision != expected_revision {
        Some(Fault::RevisionConflict(expected_revision, current.state_revision))
    } else if !current.state.may_become(new_state) {
        Some(Fault::IllegalTransition(current.state, new_state))
    } else if u.attempt_count is Some && u.attempt_count->0 < current.attempt_count {
        Some(Fault::InvalidInput("attempt_count must be monotonic"@))
    } else if current.discord_message_id is Some && u.discord_message_id is Some {
        Some(Fault::DiscordMessageIdWriteOnce)
    } else if current.state_revision == u64::MAX {
        Some(Fault::InvalidInput("state_revision overflow"@))
    } else {
        None
    }
}

/// A field after a change.
pub open spec fn changed<T>(change: Option<T>, current: T) -> T {
    match change {
        Some(value) => value,
        None => current,
    }
}

/// The stored text of an optional point in time.
pub open spec fn time_text(t: Option<Timestamp>) -> Option<Seq<char>> {
    match t {
        Some(at) => Some(at.text()),
        None => None,
    }
}

/// A row after its record took a step.
pub open spec fn advanced(
    row: RowText,
    current: RecordText,
    new_state: TerminalDeliveryState,
    u: UpdateText,
    now: Timestamp,
) -> RowText {
    RowText {
        state: new_state.text(),
        attempt_count: decimal(changed(u.attempt_count, current.attempt_count) as nat),
        next_attempt_at: time_text(changed(u.next_attempt_at, current.next_attempt_at)),
        last_failure_classification: changed(
            u.last_failure_classification,
            current.last_failure_classification,
        ),
        last_safe_error: changed(u.last_safe_error, current.last_safe_error),
        discord_message_id: if u.discord_message_id is Some {
            u.discord_message_id
        } else {
            current.discord_message_id
        },
        operator_hold_reason: changed(u.operator_hold_reason, current.operator_hold_reason),
        updated_at: now.text(),
        delivered_at: time_text(
            if new_state is Delivered {
                Some(now)
            } else {
                current.delivered_at
            },
        ),
        state_revision: decimal(current.state_revision as nat + 1),
        delivery_lease_token: changed(u.delivery_lease_token, current.delivery_lease_token),
        delivery_started_at: time_text(
            changed(u.delivery_started_at, current.delivery_started_at),
        ),
        ..row
    }
}

/// An optional point in time lies in the years that its text can be read back in.
pub open spec fn opt_in_years(t: Option<Timestamp>) -> bool {
    t is Some ==> four_digit_year(t->0.secs)
}

/// An optional point in time is read back from its text.
pub open spec fn opt_reads_back(t: Option<Timestamp>) -> bool {
    t is Some ==> t->0.reads_back()
}

/// Every point in time that a step writes lies in the years that its text can be
/// read back in.
pub open spec fn step_in_years(
    current: RecordText,
    new_state: TerminalDeliveryState,
    u: UpdateText,
    now: Timestamp,
) -> bool {
    &&& four_digit_year(now.secs)
    &&& opt_in_years(changed(u.next_attempt_at, current.next_attempt_at))
    &&& opt_in_years(changed(u.delivery_started_at, current.delivery_started_at))
    &&& new_state is Delivered || opt_in_years(current.delivered_at)
}

/// Every point in time that a step writes is read back from its text.
pub open spec fn step_reads_back(
    current: RecordText,
    new_state: TerminalDeliveryState,
    u: UpdateText,
    now: Timestamp,
) -> bool {
    &&& now.reads_back()
    &&& opt_reads_back(changed(u.next_attempt_at, current.next_attempt_at))
    &&& opt_reads_back(changed(u.delivery_started_at, current.delivery_started_at))
    &&& new_state is Delivered || opt_reads_back(current.delivered_at)
}

/// A step that nothing speaks against: the audit texts are safe, the delivery is
/// there and readable, the step is approved for it, its revision is stored in
/// canonical decimal, and no other delivery holds the message id.
pub open spec fn step_is_due(
    repo: RepositoryText,
    key: Seq<char>,
    expected_revision: u64,
    new_state: TerminalDeliveryState,
    u: UpdateText,
    reason: Seq<char>,
    now: Timestamp,
) -> bool {
    let at = key_place(repo.rows, key);
    &&& safe_text(reason)
    &&& safe_update(u)
    &&& at < repo.rows.len()
    &&& stored(repo.rows[at]) is Ok
    &&& step_fault(stored(repo.rows[at])->Ok_0, expected_revision, new_state, u) is None
    &&& repo.rows[at].state_revision == decimal(expected_revision as nat)
    &&& !message_taken(
        repo.rows,
        at,
        advanced(repo.rows[at], stored(repo.rows[at])->Ok_0, new_state, u, now),
    )
}

/// A row other than the one at `at` holds the platform and message id of `row`.
pub open spec fn message_taken(rows: Seq<RowText>, at: int, row: RowText) -> bool {
    row.discord_message_id is Some && exists|j: int|
        0 <= j < rows.len() && j != at && (#[trigger] rows[j]).platform == row.platform
            && rows[j].discord_message_id == row.discord_message_id
}

/// The log entry of a step.
pub open spec fn step_event(
    key: Seq<char>,
    current: RecordText,
    new_state: TerminalDeliveryState,
    reason: Seq<char>,
    now: Timestamp,
) -> EventRowText {
    EventRowText {
        terminal_delivery_key: key,
        previous_state: Some(current.state.text()),
        new_state: new_state.text(),
        state_revision: decimal(current.state_revision as nat + 1),
        safe_reason_code: reason,
        timestamp: now.text(),
    }
}

/// How a second use of a message id on one platform is reported.
pub open spec fn message_conflict() -> Fault {
    Fault::Storage(
        "UNIQUE constraint failed: terminal_deliveries.platform, terminal_deliveries.discord_message_id"@,
    )
}

/// What a step of the delivery under `key` does and returns. The update is guarded
/// by the stored text of the revision: a row whose text is not the canonical
/// decimal is left as it is.
pub open spec fn transition_step(
    repo: RepositoryText,
    key: Seq<char>,
    expected_revision: u64,
    new_state: TerminalDeliveryState,
    u: UpdateText,
    reason: Seq<char>,
    now: Timestamp,
) -> (RepositoryText, Result<RecordText, Fault>) {
    let at = key_place(repo.rows, key);
    if !safe_text(reason) {
        (repo, Err(Fault::UnsafeAuditField("safe_reason_code"@)))
    } else if !safe_update(u) {
        (repo, Err(Fault::UnsafeAuditField("safe field"@)))
    } else if at >= repo.rows.len() {
        (repo, Err(Fault::InvalidInput("terminal_delivery_key"@)))
    } else {
        match stored(repo.rows[at]) {
            Err(f) => (repo, Err(f)),
            Ok(current) => if step_fault(current, expected_revision, new_state, u) is Some {
                (repo, Err(step_fault(current, expected_revision, new_state, u)->0))
            } else {
                let row = if repo.rows[at].state_revision == decimal(expected_revision as nat) {
                    advanced(repo.rows[at], current, new_state, u, now)
                } else {
                    repo.rows[at]
                };
                if message_taken(repo.rows, at, row) {
                    (repo, Err(message_conflict()))
                } else {
                    match stored(row) {
                        Err(f) => (repo, Err(f)),
                        Ok(updated) => (
                            RepositoryText {
                                rows: repo.rows.update(at, row),
                                log: repo.log.push(step_event(key, current, new_state, reason, now)),
                                ..repo
                            },
                            Ok(updated),
                        ),
                    }
                }
            },
        }
    }
}

/// The steps of one delivery, in the order of the log.
pub open spec fn logged(log: Seq<EventRowText>, key: Seq<char>) -> Result<Seq<EventText>, Fault>
    decreases log.len(),
{
    if log.len() == 0 {
        Ok(Seq::empty())
    } else {
        match logged(log.drop_last(), key) {
            Err(f) => Err(f),
            Ok(events) => if log.last().terminal_delivery_key != key {
                Ok(events)
            } else {
                match event_row_fault(log.last()) {
                    Some(detail) => Err(
                        Fault::Storage(fault_message(Fault::MalformedRecord(detail))),
                    ),
                    None => Ok(events.push(row_event(log.last()))),
                }
            },
        }
    }
}

/// What is wrong with one row of a database that is opened.
#[verifier::opaque]
pub open spec fn opened_row_fault(row: RowText) -> Option<Fault> {
    match stored(row) {
        Err(f) => Some(f),
        Ok(record) => record_fault(record),
    }
}

/// The first fault among the rows of a database that is opened.
pub open spec fn rows_fault(rows: Seq<RowText>) -> Option<Fault>
    decreases rows.len(),
{
    if rows.len() == 0 {
        None
    } else if rows_fault(rows.drop_last()) is Some {
        rows_fault(rows.drop_last())
    } else {
        opened_row_fault(rows.last())
    }
}

/// Why a database cannot be opened. Version 0 is a database without a schema.
pub open spec fn open_fault(version: i32, check: Seq<char>, rows: Seq<RowText>) -> Option<Fault> {
    if version != 0 && version != TERMINAL_DELIVERY_SCHEMA_VERSION {
        Some(Fault::SchemaVersion(version))
    } else if check != "ok"@ {
        Some(Fault::Corrupt(check))
    } else {
        rows_fault(rows)
    }
}

pub open spec fn row_views(rows: Seq<DeliveryRow>) -> Seq<RowText> {
    rows.map_values(|r: DeliveryRow| r@)
}

pub open spec fn event_row_views(log: Seq<DeliveryEventRow>) -> Seq<EventRowText> {
    log.map_values(|e: DeliveryEventRow| e@)
}

pub open spec fn event_views(events: Seq<TerminalDeliveryEvent>) -> Seq<EventText> {
    events.map_values(|e: TerminalDeliveryEvent| e@)
}

/// Where a database of deliveries lies in a data directory.
pub open spec fn database_in(data_dir: Seq<char>) -> Seq<char> {
    path_in(path_in(data_dir, "openab"@), "terminal-deliveries.db"@)
}

/// The outcome of an operation, over texts.
pub open spec fn outcome(r: Result<TerminalDeliveryRecordV1, TerminalDeliveryError>) -> Result<
    RecordText,
    Fault,
> {
    match r {
        Ok(record) => Ok(record@),
        Err(e) => Err(e@),
    }
}

/// The rows and the log of a database, or of the part of one that an operation
/// reads.
#[derive(Debug)]
pub struct TerminalDeliveryRepository {
    database_path: String,
    rows: Vec<DeliveryRow>,
    log: Vec<DeliveryEventRow>,
}

impl View for TerminalDeliveryRepository {
    type V = RepositoryText;

    closed spec fn view(&self) -> RepositoryText {
        RepositoryText {
            database_path: self.database_path@,
            rows: row_views(self.rows@),
            log: event_row_views(self.log@),
        }
    }
}

proof fn lemma_key_place_is(rows: Seq<RowText>, key: Seq<char>, i: int)
    requires
        0 <= i <= rows.len(),
        i < rows.len() ==> rows[i].terminal_delivery_key == key,
        forall|k: int| 0 <= k < i ==> (#[trigger] rows[k]).terminal_delivery_key != key,
    ensures
        key_place(rows, key) == i,
    decreases rows.len(),
{
    if i > 0 {
        assert(rows[0].terminal_delivery_key != key);
        let rest = rows.skip(1);
        assert forall|k: int| 0 <= k < i - 1 implies (#[trigger] rest[k]).terminal_delivery_key
            != key by {
            assert(rest[k] == rows[k + 1]);
        }
        lemma_key_place_is(rest, key, i - 1);
    }
}

proof fn lemma_slot_place_is(rows: Seq<RowText>, slot: SlotText, i: int)
    requires
        0 <= i <= rows.len(),
        i < rows.len() ==> row_slot(rows[i]) == slot,
        forall|k: int| 0 <= k < i ==> row_slot(#[trigger] rows[k]) != slot,
    ensures
        slot_place(rows, slot) == i,
    decreases rows.len(),
{
    if i > 0 {
        assert(row_slot(rows[0]) != slot);
        let rest = rows.skip(1);
        assert forall|k: int| 0 <= k < i - 1 implies row_slot(#[trigger] rest[k]) != slot by {
            assert(rest[k] == rows[k + 1]);
        }
        lemma_slot_place_is(rest, slot, i - 1);
    }
}

fn in_slot(row: &DeliveryRow, input: &NewTerminalDeliveryRecord, sequence: &str) -> (r: bool)
    requires
        sequence@ == decimal(input.response_sequence as nat),
    ensures
        r == (row_slot(row@) == new_slot(input@)),
{
    row.record_version == TERMINAL_DELIVERY_RECORD_VERSION && same_text(
        row.openab_inbound_turn_id.as_str(),
        input.openab_inbound_turn_id.as_str(),
    ) && same_text(row.platform.as_str(), input.platform.as_str()) && same_text(
        row.channel_id.as_str(),
        input.channel_id.as_str(),
    ) && same_text(normalize(&row.thread_id).as_str(), normalize(&input.thread_id).as_str())
        && same_text(row.response_sequence.as_str(), sequence) && same_text(
        row.runtime_run_id.as_str(),
        input.runtime_run_id.as_str(),
    ) && same_text(
        normalize(&row.workflow_run_id).as_str(),
        normalize(&input.workflow_run_id).as_str(),
    )
}

fn find_key(rows: &Vec<DeliveryRow>, key: &str) -> (r: usize)
    ensures
        r == key_place(row_views(rows@), key@),
        r <= rows.len(),
{
    let mut i: usize = 0;
    while i < rows.len() && !same_text(rows[i].terminal_delivery_key.as_str(), key)
        invariant
            i <= rows.len(),
            forall|k: int|
                0 <= k < i ==> (#[trigger] row_views(rows@)[k]).terminal_delivery_key != key@,
        decreases rows.len() - i,
    {
        i += 1;
    }
    proof {
        if i < rows.len() {
            assert(row_views(rows@)[i as int] == rows[i as int]@);
        }
        lemma_key_place_is(row_views(rows@), key@, i as int);
    }
    i
}

fn find_slot(rows: &Vec<DeliveryRow>, input: &NewTerminalDeliveryRecord) -> (r: usize)
    ensures
        r == slot_place(row_views(rows@), new_slot(input@)),
        r <= rows.len(),
{
    let sequence = decimal_text(input.response_sequence);
    let mut i: usize = 0;
    while i < rows.len() && !in_slot(&rows[i], input, sequence.as_str())
        invariant
            sequence@ == decimal(input.response_sequence as nat),
            i <= rows.len(),
            forall|k: int|
                0 <= k < i ==> row_slot(#[trigger] row_views(rows@)[k]) != new_slot(input@),
        decreases rows.len() - i,
    {
        i += 1;
    }
    proof {
        if i < rows.len() {
            assert(row_views(rows@)[i as int] == rows[i as int]@);
        }
        lemma_slot_place_is(row_views(rows@), new_slot(input@), i as int);
    }
    i
}

/// The record in a row, as a query hands it out.
pub fn stored_record(row: &DeliveryRow) -> (r: Result<
    TerminalDeliveryRecordV1,
    TerminalDeliveryError,
>)
    ensures
        outcome(r) == stored(row@),
        r is Ok ==> times_wf(r->Ok_0@),
{
    match record_from_row(row) {
        Ok(record) => Ok(record),
        Err(e) => Err(TerminalDeliveryError::Storage(e.message())),
    }
}

pub open spec fn opt_record(r: Option<TerminalDeliveryRecordV1>) -> Option<RecordText> {
    match r {
        Some(r) => Some(r@),
        None => None,
    }
}

/// The delivery that is reused: the one under the same key; or the one in the same
/// slot, which has to have the same payload.
pub open spec fn chosen(
    by_key: Option<RecordText>,
    by_slot: Option<RecordText>,
    digest: Seq<char>,
) -> Result<Option<RecordText>, Fault> {
    if by_key is Some {
        Ok(by_key)
    } else if by_slot is None || by_slot->0.terminal_payload_digest == digest {
        Ok(by_slot)
    } else {
        Err(Fault::PayloadConflict(TERMINAL_DELIVERY_PAYLOAD_CONFLICT@))
    }
}

/// The delivery that is reused for a response with this payload digest, if one was
/// found under its key or in its slot.
pub fn choose_existing(
    by_key: Option<TerminalDeliveryRecordV1>,
    by_slot: Option<TerminalDeliveryRecordV1>,
    digest: &str,
) -> (r: Result<Option<TerminalDeliveryRecordV1>, TerminalDeliveryError>)
    ensures
        match chosen(opt_record(by_key), opt_record(by_slot), digest@) {
            Ok(existing) => r is Ok && opt_record(r->Ok_0) == existing,
            Err(f) => r is Err && r->Err_0@ == f,
        },
{
    if by_key.is_some() {
        return Ok(by_key);
    }
    match by_slot {
        None => Ok(None),
        Some(existing) => {
            if same_text(existing.terminal_payload_digest.as_str(), digest) {
                Ok(Some(existing))
            } else {
                Err(
                    TerminalDeliveryError::PayloadConflict {
                        code: TERMINAL_DELIVERY_PAYLOAD_CONFLICT,
                    },
                )
            }
        },
    }
}

fn created_row(
    input: &NewTerminalDeliveryRecord,
    key: &String,
    digest: String,
    now: Timestamp,
) -> (r: DeliveryRow)
    requires
        now.wf(),
        key@ == delivery_key(input@),
        digest@ == text_digest(input.terminal_payload@),
    ensures
        r@ == new_row(input@, now),
        four_digit_year(now.secs) ==> now.reads_back(),
{
    DeliveryRow {
        record_version: TERMINAL_DELIVERY_RECORD_VERSION,
        terminal_delivery_key: key.clone(),
        openab_inbound_turn_id: input.openab_inbound_turn_id.clone(),
        platform: input.platform.clone(),
        channel_id: input.channel_id.clone(),
        thread_id: copied(&input.thread_id),
        acp_request_id: input.acp_request_id.clone(),
        acp_session_id: input.acp_session_id.clone(),
        runtime_run_id: input.runtime_run_id.clone(),
        workflow_run_id: copied(&input.workflow_run_id),
        conversation_id: input.conversation_id.clone(),
        response_sequence: decimal_text(input.response_sequence),
        terminal_payload: input.terminal_payload.as_json().to_owned(),
        terminal_payload_digest: digest,
        state: TerminalDeliveryState::PendingResult.as_str().to_owned(),
        attempt_count: "0".to_owned(),
        next_attempt_at: None,
        last_failure_classification: None,
        last_safe_error: None,
        discord_message_id: None,
        operator_hold_reason: None,
        created_at: timestamp(now),
        updated_at: timestamp(now),
        delivered_at: None,
        state_revision: "0".to_owned(),
        delivery_lease_token: None,
        delivery_started_at: None,
    }
}

/// Whether a record may take a step: it is not in a terminal state, is at the
/// expected revision, the edge is approved, attempts are not counted down, and a
/// message id is not set twice.
pub fn check_step(
    current: &TerminalDeliveryRecordV1,
    expected_revision: u64,
    new_state: TerminalDeliveryState,
    update: &TransitionUpdate,
) -> (r: Result<(), TerminalDeliveryError>)
    ensures
        match step_fault(current@, expected_revision, new_state, update@) {
            Some(f) => r is Err && r->Err_0@ == f,
            None => r is Ok,
        },
{
    if current.state.is_terminal() {
        return Err(TerminalDeliveryError::ImmutableTerminalState(current.state));
    }
    if current.state_revision != expected_revision {
        return Err(
            TerminalDeliveryError::RevisionConflict {
                expected: expected_revision,
                actual: current.state_revision,
            },
        );
    }
    if !current.state.may_transition_to(new_state) {
        return Err(
            TerminalDeliveryError::IllegalTransition { from: current.state, to: new_state },
        );
    }
    match update.attempt_count {
        Some(count) => {
            if count < current.attempt_count {
                return Err(TerminalDeliveryError::InvalidInput("attempt_count must be monotonic"));
            }
        },
        None => {},
    }
    if current.discord_message_id.is_some() && update.discord_message_id.is_some() {
        return Err(TerminalDeliveryError::DiscordMessageIdWriteOnce);
    }
    if current.state_revision == u64::MAX {
        return Err(TerminalDeliveryError::InvalidInput("state_revision overflow"));
    }
    Ok(())
}

fn changed_text(change: &Option<Option<String>>, current: &Option<String>) -> (r: Option<String>)
    ensures
        opt_view(r) == changed(change_view(*change), opt_view(*current)),
{
    match change {
        Some(value) => copied(value),
        None => copied(current),
    }
}

fn changed_time(change: Option<Option<Timestamp>>, current: Option<Timestamp>) -> (r: Option<
    Timestamp,
>)
    ensures
        r == changed(change, current),
{
    match change {
        Some(value) => value,
        None => current,
    }
}

fn opt_timestamp(value: Option<Timestamp>) -> (r: Option<String>)
    requires
        value is Some ==> value->0.wf(),
    ensures
        opt_view(r) == time_text(value),
        opt_in_years(value) ==> opt_reads_back(value),
{
    match value {
        Some(t) => Some(timestamp(t)),
        None => None,
    }
}

/// The row of a record that takes a step.
pub fn advanced_row(
    row: &DeliveryRow,
    current: &TerminalDeliveryRecordV1,
    new_state: TerminalDeliveryState,
    update: &TransitionUpdate,
    now: Timestamp,
) -> (r: DeliveryRow)
    requires
        now.wf(),
        update.wf(),
        times_wf(current@),
        current.state_revision < u64::MAX,
    ensures
        r@ == advanced(row@, current@, new_state, update@, now),
        step_in_years(current@, new_state, update@, now) ==> step_reads_back(
            current@,
            new_state,
            update@,
            now,
        ),
{
    let attempt_count: u64 = match update.attempt_count {
        Some(count) => count,
        None => current.attempt_count,
    };
    let delivered_at = if matches!(new_state, TerminalDeliveryState::Delivered) {
        Some(now)
    } else {
        current.delivered_at
    };
    let discord_message_id = if update.discord_message_id.is_some() {
        copied(&update.discord_message_id)
    } else {
        copied(&current.discord_message_id)
    };
    DeliveryRow {
        record_version: row.record_version,
        terminal_delivery_key: row.terminal_delivery_key.clone(),
        openab_inbound_turn_id: row.openab_inbound_turn_id.clone(),
        platform: row.platform.clone(),
        channel_id: row.channel_id.clone(),
        thread_id: copied(&row.thread_id),
        acp_request_id: row.acp_request_id.clone(),
        acp_session_id: row.acp_session_id.clone(),
        runtime_run_id: row.runtime_run_id.clone(),
        workflow_run_id: copied(&row.workflow_run_id),
        conversation_id: row.conversation_id.clone(),
        response_sequence: row.response_sequence.clone(),
        terminal_payload: row.terminal_payload.clone(),
        terminal_payload_digest: row.terminal_payload_digest.clone(),
        state: new_state.as_str().to_owned(),
        attempt_count: decimal_text(attempt_count),
        next_attempt_at: opt_timestamp(changed_time(update.next_attempt_at, current.next_attempt_at)),
        last_failure_classification: changed_text(&update.last_failure_classification, &current.last_failure_classification),
        last_safe_error: changed_text(&update.last_safe_error, &current.last_safe_error),
        discord_message_id,
        operator_hold_reason: changed_text(&update.operator_hold_reason, &current.operator_hold_reason),
        created_at: row.created_at.clone(),
        updated_at: timestamp(now),
        delivered_at: opt_timestamp(delivered_at),
        state_revision: decimal_text(current.state_revision + 1),
        delivery_lease_token: changed_text(&update.delivery_lease_token, &current.delivery_lease_token),
        delivery_started_at: opt_timestamp(changed_time(update.delivery_started_at, current.delivery_started_at)),
    }
}

fn copied_row(row: &DeliveryRow) -> (r: DeliveryRow)
    ensures
        r@ == row@,
{
    DeliveryRow {
        record_version: row.record_version,
        terminal_delivery_key: row.terminal_delivery_key.clone(),
        openab_inbound_turn_id: row.openab_inbound_turn_id.clone(),
        platform: row.platform.clone(),
        channel_id: row.channel_id.clone(),
        thread_id: copied(&row.thread_id),
        acp_request_id: row.acp_request_id.clone(),
        acp_session_id: row.acp_session_id.clone(),
        runtime_run_id: row.runtime_run_id.clone(),
        workflow_run_id: copied(&row.workflow_run_id),
        conversation_id: row.conversation_id.clone(),
        response_sequence: row.response_sequence.clone(),
        terminal_payload: row.terminal_payload.clone(),
        terminal_payload_digest: row.terminal_payload_digest.clone(),
        state: row.state.clone(),
        attempt_count: row.attempt_count.clone(),
        next_attempt_at: copied(&row.next_attempt_at),
        last_failure_classification: copied(&row.last_failure_classification),
        last_safe_error: copied(&row.last_safe_error),
        discord_message_id: copied(&row.discord_message_id),
        operator_hold_reason: copied(&row.operator_hold_reason),
        created_at: row.created_at.clone(),
        updated_at: row.updated_at.clone(),
        delivered_at: copied(&row.delivered_at),
        state_revision: row.state_revision.clone(),
        delivery_lease_token: copied(&row.delivery_lease_token),
        delivery_started_at: copied(&row.delivery_started_at),
    }
}

fn holds_message(row: &DeliveryRow, platform: &str, message_id: &str) -> (r: bool)
    ensures
        r == (row@.platform == platform@ && row@.discord_message_id == Some(message_id@)),
{
    match &row.discord_message_id {
        Some(id) => same_text(row.platform.as_str(), platform) && same_text(id.as_str(), message_id),
        None => false,
    }
}

fn is_message_taken(rows: &Vec<DeliveryRow>, at: usize, row: &DeliveryRow) -> (r: bool)
    ensures
        r == message_taken(row_views(rows@), at as int, row@),
{
    match &row.discord_message_id {
        None => false,
        Some(id) => {
            let mut i: usize = 0;
            while i < rows.len()
                invariant
                    row.discord_message_id == Some(*id),
                    i <= rows.len(),
                    forall|j: int|
                        0 <= j < i && j != at ==> !((#[trigger] row_views(rows@)[j]).platform
                            == row@.platform && row_views(rows@)[j].discord_message_id
                            == row@.discord_message_id),
                decreases rows.len() - i,
            {
                assert(row_views(rows@)[i as int] == rows[i as int]@);
                if i != at && holds_message(&rows[i], row.platform.as_str(), id.as_str()) {
                    return true;
                }
                i += 1;
            }
            false
        },
    }
}

/// What a database needs before its rows can be read.
#[derive(Debug, Clone, Copy, PartialEq, Eq, Structural)]
pub enum SchemaAction {
    Create,
    Keep,
}

/// What to do with a database by the version of its schema.
pub fn schema_action(version: i32) -> (r: Result<SchemaAction, TerminalDeliveryError>)
    ensures
        version == 0 ==> r == Ok::<SchemaAction, TerminalDeliveryError>(SchemaAction::Create),
        version == TERMINAL_DELIVERY_SCHEMA_VERSION ==> r == Ok::<
            SchemaAction,
            TerminalDeliveryError,
        >(SchemaAction::Keep),
        version != 0 && version != TERMINAL_DELIVERY_SCHEMA_VERSION ==> r is Err && r->Err_0@
            == Fault::SchemaVersion(version),
{
    if version == 0 {
        Ok(SchemaAction::Create)
    } else if version == TERMINAL_DELIVERY_SCHEMA_VERSION {
        Ok(SchemaAction::Keep)
    } else {
        Err(TerminalDeliveryError::SchemaVersion { found: version })
    }
}

/// Whether a database passed its integrity check, which says `ok` then.
pub fn check_integrity(check: &str) -> (r: Result<(), TerminalDeliveryError>)
    ensures
        r is Ok <==> check@ == "ok"@,
        r is Err ==> r->Err_0@ == Fault::Corrupt(check@),
{
    if same_text(check, "ok") {
        Ok(())
    } else {
        Err(TerminalDeliveryError::Corrupt(check.to_owned()))
    }
}

/// How a failure of the database is reported, which may be that the database is
/// corrupt.
pub fn storage_fault(corrupt: bool, detail: String) -> (r: TerminalDeliveryError)
    ensures
        r@ == if corrupt {
            Fault::Corrupt(detail@)
        } else {
            Fault::Storage(detail@)
        },
{
    if corrupt {
        TerminalDeliveryError::Corrupt(detail)
    } else {
        TerminalDeliveryError::Storage(detail)
    }
}

proof fn lemma_rows_fault(rows: Seq<RowText>, n: int)
    requires
        0 <= n <= rows.len(),
        rows_fault(rows.take(n)) is Some,
    ensures
        rows_fault(rows) == rows_fault(rows.take(n)),
    decreases rows.len() - n,
{
    if n < rows.len() {
        assert(rows.take(n + 1).drop_last() =~= rows.take(n));
        lemma_rows_fault(rows, n + 1);
    } else {
        assert(rows.take(n) =~= rows);
    }
}

/// Whether every row of a database that is opened holds a whole record.
pub fn validate_rows(rows: &Vec<DeliveryRow>) -> (r: Result<(), TerminalDeliveryError>)
    ensures
        match rows_fault(row_views(rows@)) {
            Some(f) => r is Err && r->Err_0@ == f,
            None => r is Ok,
        },
{
    let mut i: usize = 0;
    let ghost all = row_views(rows@);
    assert(all.take(0) =~= Seq::<RowText>::empty());
    while i < rows.len()
        invariant
            all == row_views(rows@),
            i <= rows.len(),
            rows_fault(all.take(i as int)) is None,
        decreases rows.len() - i,
    {
        assert(all.take(i + 1).drop_last() =~= all.take(i as int));
        assert(all.take(i + 1).last() == rows[i as int]@);
        proof {
            reveal(opened_row_fault);
        }
        let checked = match stored_record(&rows[i]) {
            Ok(record) => validate_record(&record),
            Err(e) => Err(e),
        };
        match checked {
            Ok(_) => {},
            Err(e) => {
                proof {
                    lemma_rows_fault(all, i + 1);
                }
                return Err(e);
            },
        }
        i += 1;
    }
    assert(all.take(rows.len() as int) =~= all);
    Ok(())
}

proof fn lemma_logged_fails(log: Seq<EventRowText>, key: Seq<char>, n: int)
    requires
        0 <= n <= log.len(),
        logged(log.take(n), key) is Err,
    ensures
        logged(log, key) == logged(log.take(n), key),
    decreases log.len() - n,
{
    if n < log.len() {
        assert(log.take(n + 1).drop_last() =~= log.take(n));
        lemma_logged_fails(log, key, n + 1);
    } else {
        assert(log.take(n) =~= log);
    }
}

impl TerminalDeliveryRepository {
    /// The repository of a data directory's database, whose schema version, result
    /// of the integrity check, rows and log are given.
    pub fn open(
        data_dir: &str,
        version: i32,
        check: &str,
        rows: Vec<DeliveryRow>,
        log: Vec<DeliveryEventRow>,
    ) -> (r: Result<TerminalDeliveryRepository, TerminalDeliveryError>)
        ensures
            match open_fault(version, check@, row_views(rows@)) {
                Some(f) => r is Err && r->Err_0@ == f,
                None => r is Ok && r->Ok_0@ == (RepositoryText {
                    database_path: database_in(data_dir@),
                    rows: row_views(rows@),
                    log: event_row_views(log@),
                }),
            },
    {
        let path = join_path(join_path(data_dir, "openab").as_str(), "terminal-deliveries.db");
        TerminalDeliveryRepository::open_path(path, version, check, rows, log)
    }

    /// The repository of the database at a path, whose schema version, result of
    /// the integrity check, rows and log are given.
    pub fn open_path(
        path: String,
        version: i32,
        check: &str,
        rows: Vec<DeliveryRow>,
        log: Vec<DeliveryEventRow>,
    ) -> (r: Result<TerminalDeliveryRepository, TerminalDeliveryError>)
        ensures
            match open_fault(version, check@, row_views(rows@)) {
                Some(f) => r is Err && r->Err_0@ == f,
                None => r is Ok && r->Ok_0@ == (RepositoryText {
                    database_path: path@,
                    rows: row_views(rows@),
                    log: event_row_views(log@),
                }),
            },
    {
        match schema_action(version) {
            Ok(_) => {},
            Err(e) => {
                return Err(e);
            },
        }
        check_integrity(check)?;
        validate_rows(&rows)?;
        Ok(TerminalDeliveryRepository::with_rows(path, rows, log))
    }

    /// The part of an opened database that one operation reads.
    pub fn with_rows(path: String, rows: Vec<DeliveryRow>, log: Vec<DeliveryEventRow>) -> (r:
        TerminalDeliveryRepository)
        ensures
            r@ == (RepositoryText {
                database_path: path@,
                rows: row_views(rows@),
                log: event_row_views(log@),
            }),
    {
        TerminalDeliveryRepository { database_path: path, rows, log }
    }

    pub fn database_path(&self) -> (r: &str)
        ensures
            r@ == self@.database_path,
    {
        self.database_path.as_str()
    }

    pub fn rows(&self) -> (r: &Vec<DeliveryRow>)
        ensures
            row_views(r@) == self@.rows,
    {
        &self.rows
    }

    pub fn log(&self) -> (r: &Vec<DeliveryEventRow>)
        ensures
            event_row_views(r@) == self@.log,
    {
        &self.log
    }

    /// Creates the delivery of a response, or finds the one that is there. A
    /// response whose slot holds another payload is refused.
    pub fn create_or_reuse(&mut self, input: NewTerminalDeliveryRecord, now: Timestamp) -> (r: Result<
        TerminalDeliveryRecordV1,
        TerminalDeliveryError,
    >)
        requires
            now.wf(),
        ensures
            (final(self)@, outcome(r)) == create_step(old(self)@, input@, now),
            new_fault(input@) is None && key_place(old(self)@.rows, delivery_key(input@))
                >= old(self)@.rows.len() && slot_place(old(self)@.rows, new_slot(input@))
                >= old(self)@.rows.len() && four_digit_year(now.secs) ==> r is Ok,
    {
        let key = terminal_delivery_key(&input)?;
        let digest = sha256_hex(input.terminal_payload.as_json());
        let keyed: usize = find_key(&self.rows, key.as_str());
        let slotted: usize = find_slot(&self.rows, &input);
        let mut by_key: Option<TerminalDeliveryRecordV1> = None;
        let mut by_slot: Option<TerminalDeliveryRecordV1> = None;
        if keyed < self.rows.len() {
            assert(row_views(self.rows@)[keyed as int] == self.rows[keyed as int]@);
            by_key = Some(stored_record(&self.rows[keyed])?);
        } else if slotted < self.rows.len() {
            assert(row_views(self.rows@)[slotted as int] == self.rows[slotted as int]@);
            by_slot = Some(stored_record(&self.rows[slotted])?);
        }
        match choose_existing(by_key, by_slot, digest.as_str())? {
            Some(existing) => {
                return Ok(existing);
            },
            None => {},
        }
        let row = created_row(&input, &key, digest, now);
        proof {
            if four_digit_year(now.secs) {
                new_response_is_recorded(self@, input@, now);
            }
        }
        let created = stored_record(&row)?;
        let event = DeliveryEventRow {
            terminal_delivery_key: key,
            previous_state: None,
            new_state: TerminalDeliveryState::PendingResult.as_str().to_owned(),
            state_revision: "0".to_owned(),
            safe_reason_code: "CREATED".to_owned(),
            timestamp: timestamp(now),
        };
        proof {
            assert(row_views(self.rows@.push(row)) =~= row_views(self.rows@).push(row@));
            assert(event_row_views(self.log@.push(event)) =~= event_row_views(self.log@).push(
                event@,
            ));
        }
        self.rows.push(row);
        self.log.push(event);
        Ok(created)
    }

    /// The record under a key.
    pub fn get(&self, key: &str) -> (r: Result<
        Option<TerminalDeliveryRecordV1>,
        TerminalDeliveryError,
    >)
        ensures
            match looked_up(self@.rows, key@) {
                Ok(Some(record)) => r is Ok && r->Ok_0 is Some && r->Ok_0->0@ == record,
                Ok(None) => r is Ok && r->Ok_0 is None,
                Err(f) => r is Err && r->Err_0@ == f,
            },
    {
        let at: usize = find_key(&self.rows, key);
        if at >= self.rows.len() {
            return Ok(None);
        }
        assert(row_views(self.rows@)[at as int] == self.rows[at as int]@);
        match stored_record(&self.rows[at]) {
            Ok(record) => Ok(Some(record)),
            Err(e) => Err(e),
        }
    }

    /// Takes one step of the delivery under a key, if it is at the expected
    /// revision and the step is approved.
    pub fn transition(
        &mut self,
        key: &str,
        expected_revision: u64,
        new_state: TerminalDeliveryState,
        update: TransitionUpdate,
        safe_reason_code: &str,
        now: Timestamp,
    ) -> (r: Result<TerminalDeliveryRecordV1, TerminalDeliveryError>)
        requires
            now.wf(),
            update.wf(),
        ensures
            (final(self)@, outcome(r)) == transition_step(
                old(self)@,
                key@,
                expected_revision,
                new_state,
                update@,
                safe_reason_code@,
                now,
            ),
            step_is_due(
                old(self)@,
                key@,
                expected_revision,
                new_state,
                update@,
                safe_reason_code@,
                now,
            ) && step_in_years(
                stored(old(self)@.rows[key_place(old(self)@.rows, key@)])->Ok_0,
                new_state,
                update@,
                now,
            ) ==> r is Ok,
    {
        validate_safe_field(safe_reason_code, "safe_reason_code")?;
        validate_transition_update(&update)?;
        let at: usize = find_key(&self.rows, key);
        if at >= self.rows.len() {
            return Err(TerminalDeliveryError::InvalidInput("terminal_delivery_key"));
        }
        assert(row_views(self.rows@)[at as int] == self.rows[at as int]@);
        let current = stored_record(&self.rows[at])?;
        check_step(&current, expected_revision, new_state, &update)?;
        let guard = decimal_text(expected_revision);
        let row = if same_text(self.rows[at].state_revision.as_str(), guard.as_str()) {
            advanced_row(&self.rows[at], &current, new_state, &update, now)
        } else {
            copied_row(&self.rows[at])
        };
        if is_message_taken(&self.rows, at, &row) {
            return Err(
                TerminalDeliveryError::Storage(
                    "UNIQUE constraint failed: terminal_deliveries.platform, terminal_deliveries.discord_message_id".to_owned(),
                ),
            );
        }
        proof {
            let due = step_is_due(
                self@,
                key@,
                expected_revision,
                new_state,
                update@,
                safe_reason_code@,
                now,
            );
            if due && step_in_years(current@, new_state, update@, now) {
                due_step_succeeds(
                    self@,
                    key@,
                    expected_revision,
                    new_state,
                    update@,
                    safe_reason_code@,
                    now,
                );
            }
        }
        let updated = stored_record(&row)?;
        let event = DeliveryEventRow {
            terminal_delivery_key: key.to_owned(),
            previous_state: Some(current.state.as_str().to_owned()),
            new_state: new_state.as_str().to_owned(),
            state_revision: decimal_text(current.state_revision + 1),
            safe_reason_code: safe_reason_code.to_owned(),
            timestamp: timestamp(now),
        };
        proof {
            assert(row_views(self.rows@.update(at as int, row)) =~= row_views(self.rows@).update(
                at as int,
                row@,
            ));
            assert(event_row_views(self.log@.push(event)) =~= event_row_views(self.log@).push(
                event@,
            ));
        }
        self.rows.set(at, row);
        self.log.push(event);
        Ok(updated)
    }

    /// The steps of the delivery under a key, oldest first.
    pub fn events(&self, key: &str) -> (r: Result<Vec<TerminalDeliveryEvent>, TerminalDeliveryError>)
        ensures
            match logged(self@.log, key@) {
                Ok(events) => r is Ok && event_views(r->Ok_0@) == events,
                Err(f) => r is Err && r->Err_0@ == f,
            },
    {
        let mut out: Vec<TerminalDeliveryEvent> = Vec::new();
        let mut i: usize = 0;
        let ghost all = event_row_views(self.log@);
        assert(all.take(0) =~= Seq::<EventRowText>::empty());
        assert(event_views(out@) =~= Seq::<EventText>::empty());
        while i < self.log.len()
            invariant
                all == event_row_views(self.log@),
                i <= self.log.len(),
                logged(all.take(i as int), key@) == Ok::<Seq<EventText>, Fault>(event_views(out@)),
            decreases self.log.len() - i,
        {
            assert(all.take(i + 1).drop_last() =~= all.take(i as int));
            assert(all.take(i + 1).last() == self.log[i as int]@);
            if same_text(self.log[i].terminal_delivery_key.as_str(), key) {
                match event_from_row(&self.log[i]) {
                    Ok(event) => {
                        assert(event_views(out@.push(event)) =~= event_views(out@).push(event@));
                        out.push(event);
                    },
                    Err(e) => {
                        proof {
                            lemma_logged_fails(all, key@, i + 1);
                        }
                        return Err(TerminalDeliveryError::Storage(e.message()));
                    },
                }
            }
            i += 1;
        }
        assert(all.take(self.log.len() as int) =~= all);
        Ok(out)
    }
}

} // verus!
