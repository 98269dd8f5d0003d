//! What is answered and stored when a delivery is created, read or opened, in terms
//! of what is given.

use vstd::prelude::*;

use crate::clock::{parsed_time, Timestamp};
use crate::decimal::{decimal, parsed_u64};
use crate::digest::text_digest;
use crate::json::{canonical_json, json_string};
use crate::json_laws::{members, object, object_begins, object_grows};
use crate::text::is_space;
use crate::text_laws::blank_is_all_space;

use super::answers::{approved, auditable, lemma_auditable, micros, same_optional};
use super::identity::{
    blank, key_material, normalized, terminal_delivery_key, validate_against, validate_new,
    validate_record, TransitionUpdate,
};
use super::laws::{lemma_found_at, lemma_key_place, lemma_slot_place, new_response_is_recorded, unique_rows};
use super::record::{
    event_from_row, record_from_row, DeliveryEventRow, DeliveryRow, NewTerminalDeliveryRecord, RowText,
    TerminalDeliveryEvent, TerminalDeliveryRecordV1,
};
use super::repository::{
    advanced_row, check_integrity, check_step, choose_existing, event_row_views, key_place, logged,
    new_slot, row_slot, row_views, schema_action, slot_place, storage_fault, stored, stored_record,
    SchemaAction, TerminalDeliveryRepository,
};
use super::state::{
    state_name_round_trip, state_named, TerminalDeliveryError, TerminalDeliveryState,
};

verus! {

/// A text with something in it beside white space.
pub open spec fn has_text(s: Seq<char>) -> bool {
    exists|i: int| 0 <= i < s.len() && !is_space(#[trigger] s[i])
}

proof fn lemma_has_text(s: Seq<char>)
    ensures
        has_text(s) <==> !blank(s),
{
    blank_is_all_space(s);
}

/// All that has to be filled is filled.
pub open spec fn required_are_filled(n: NewTerminalDeliveryRecord) -> bool {
    &&& has_text(n.openab_inbound_turn_id@)
    &&& has_text(n.platform@)
    &&& has_text(n.channel_id@)
    &&& has_text(n.acp_request_id@)
    &&& has_text(n.acp_session_id@)
    &&& has_text(n.runtime_run_id@)
    &&& has_text(n.conversation_id@)
}

/// What need not be there is filled where it is there.
pub open spec fn optional_are_filled(n: NewTerminalDeliveryRecord) -> bool {
    &&& n.thread_id is Some ==> has_text(n.thread_id->0@)
    &&& n.workflow_run_id is Some ==> has_text(n.workflow_run_id->0@)
}

/// A new delivery is accepted exactly where its identifiers are filled; the
/// required ones are looked at first.
pub proof fn identifiers_have_to_be_filled(
    n: NewTerminalDeliveryRecord,
    r: Result<(), TerminalDeliveryError>,
)
    requires
        call_ensures(validate_new, (&n,), r),
    ensures
        r is Ok <==> required_are_filled(n) && optional_are_filled(n),
        r is Err ==> r->Err_0 is InvalidInput && r->Err_0->InvalidInput_0@ == if required_are_filled(
            n,
        ) {
            "optional identifier"@
        } else {
            "required identifier"@
        },
{
    lemma_has_text(n.openab_inbound_turn_id@);
    lemma_has_text(n.platform@);
    lemma_has_text(n.channel_id@);
    lemma_has_text(n.acp_request_id@);
    lemma_has_text(n.acp_session_id@);
    lemma_has_text(n.runtime_run_id@);
    lemma_has_text(n.conversation_id@);
    if n.thread_id is Some {
        lemma_has_text(n.thread_id->0@);
    }
    if n.workflow_run_id is Some {
        lemma_has_text(n.workflow_run_id->0@);
    }
}

/// An optional identifier, the empty text where there is none.
pub open spec fn or_none(o: Option<String>) -> Seq<char> {
    match o {
        Some(s) => s@,
        None => Seq::empty(),
    }
}

/// What a key is the digest of: each part of the identity under its name.
pub open spec fn identity_members(n: NewTerminalDeliveryRecord) -> Seq<(Seq<char>, Seq<char>)> {
    seq![
        ("record_version"@, "1"@),
        ("openab_inbound_turn_id"@, json_string(n.openab_inbound_turn_id@)),
        ("platform"@, json_string(n.platform@)),
        ("channel_id"@, json_string(n.channel_id@)),
        ("thread_id_normalized"@, json_string(or_none(n.thread_id))),
        ("acp_request_id"@, json_string(n.acp_request_id@)),
        ("runtime_run_id"@, json_string(n.runtime_run_id@)),
        ("workflow_run_id_normalized"@, json_string(or_none(n.workflow_run_id))),
        ("conversation_id"@, json_string(n.conversation_id@)),
        ("response_sequence"@, decimal(n.response_sequence as nat)),
        ("terminal_payload"@, n.terminal_payload@),
    ]
}

proof fn lead_openab_inbound_turn_id()
    ensures
        ",\"openab_inbound_turn_id\":"@ == seq![',', '"'] + "openab_inbound_turn_id"@ + seq!['"', ':'],
{
    reveal_strlit(",\"openab_inbound_turn_id\":");
    reveal_strlit("openab_inbound_turn_id");
    assert(",\"openab_inbound_turn_id\":"@ =~= seq![',', '"'] + "openab_inbound_turn_id"@ + seq!['"', ':']);
}

proof fn lead_platform()
    ensures
        ",\"platform\":"@ == seq![',', '"'] + "platform"@ + seq!['"', ':'],
{
    reveal_strlit(",\"platform\":");
    reveal_strlit("platform");
    assert(",\"platform\":"@ =~= seq![',', '"'] + "platform"@ + seq!['"', ':']);
}

proof fn lead_channel_id()
    ensures
        ",\"channel_id\":"@ == seq![',', '"'] + "channel_id"@ + seq!['"', ':'],
{
    reveal_strlit(",\"channel_id\":");
    reveal_strlit("channel_id");
    assert(",\"channel_id\":"@ =~= seq![',', '"'] + "channel_id"@ + seq!['"', ':']);
}

proof fn lead_thread_id_normalized()
    ensures
        ",\"thread_id_normalized\":"@ == seq![',', '"'] + "thread_id_normalized"@ + seq!['"', ':'],
{
    reveal_strlit(",\"thread_id_normalized\":");
    reveal_strlit("thread_id_normalized");
    assert(",\"thread_id_normalized\":"@ =~= seq![',', '"'] + "thread_id_normalized"@ + seq!['"', ':']);
}

proof fn lead_acp_request_id()
    ensures
        ",\"acp_request_id\":"@ == seq![',', '"'] + "acp_request_id"@ + seq!['"', ':'],
{
    reveal_strlit(",\"acp_request_id\":");
    reveal_strlit("acp_request_id");
    assert(",\"acp_request_id\":"@ =~= seq![',', '"'] + "acp_request_id"@ + seq!['"', ':']);
}

proof fn lead_runtime_run_id()
    ensures
        ",\"runtime_run_id\":"@ == seq![',', '"'] + "runtime_run_id"@ + seq!['"', ':'],
{
    reveal_strlit(",\"runtime_run_id\":");
    reveal_strlit("runtime_run_id");
    assert(",\"runtime_run_id\":"@ =~= seq![',', '"'] + "runtime_run_id"@ + seq!['"', ':']);
}

proof fn lead_workflow_run_id_normalized()
    ensures
        ",\"workflow_run_id_normalized\":"@ == seq![',', '"'] + "workflow_run_id_normalized"@ + seq!['"', ':'],
{
    reveal_strlit(",\"workflow_run_id_normalized\":");
    reveal_strlit("workflow_run_id_normalized");
    assert(",\"workflow_run_id_normalized\":"@ =~= seq![',', '"'] + "workflow_run_id_normalized"@ + seq!['"', ':']);
}

proof fn lead_conversation_id()
    ensures
        ",\"conversation_id\":"@ == seq![',', '"'] + "conversation_id"@ + seq!['"', ':'],
{
    reveal_strlit(",\"conversation_id\":");
    reveal_strlit("conversation_id");
    assert(",\"conversation_id\":"@ =~= seq![',', '"'] + "conversation_id"@ + seq!['"', ':']);
}

proof fn lead_response_sequence()
    ensures
        ",\"response_sequence\":"@ == seq![',', '"'] + "response_sequence"@ + seq!['"', ':'],
{
    reveal_strlit(",\"response_sequence\":");
    reveal_strlit("response_sequence");
    assert(",\"response_sequence\":"@ =~= seq![',', '"'] + "response_sequence"@ + seq!['"', ':']);
}

proof fn lead_terminal_payload()
    ensures
        ",\"terminal_payload\":"@ == seq![',', '"'] + "terminal_payload"@ + seq!['"', ':'],
{
    reveal_strlit(",\"terminal_payload\":");
    reveal_strlit("terminal_payload");
    assert(",\"terminal_payload\":"@ =~= seq![',', '"'] + "terminal_payload"@ + seq!['"', ':']);
}

proof fn lemma_material_start(n: NewTerminalDeliveryRecord)
    ensures
        "{\"record_version\":1,\"openab_inbound_turn_id\":"@ + json_string(
            n.openab_inbound_turn_id@,
        ) == seq!['{'] + members(
            seq![
                ("record_version"@, "1"@),
                ("openab_inbound_turn_id"@, json_string(n.openab_inbound_turn_id@)),
            ],
        ),
{
    reveal_strlit("{\"record_version\":1,\"openab_inbound_turn_id\":");
    reveal_strlit("record_version");
    reveal_strlit("1");
    let v = json_string(n.openab_inbound_turn_id@);
    let lead = seq!['{', '"'] + "record_version"@ + seq!['"', ':'];
    object_begins(lead, "record_version"@, "1"@);
    lead_openab_inbound_turn_id();
    let first = seq![("record_version"@, "1"@)];
    object_grows(
        lead + "1"@,
        first,
        ",\"openab_inbound_turn_id\":"@,
        "openab_inbound_turn_id"@,
        v,
    );
    reveal_strlit(",\"openab_inbound_turn_id\":");
    assert("{\"record_version\":1,\"openab_inbound_turn_id\":"@ =~= lead + "1"@
        + ",\"openab_inbound_turn_id\":"@);
    assert(first.push(("openab_inbound_turn_id"@, v)) =~= seq![
        ("record_version"@, "1"@),
        ("openab_inbound_turn_id"@, v),
    ]);
}

proof fn lemma_material_object(n: NewTerminalDeliveryRecord)
    ensures
        key_material(n@) == object(identity_members(n)),
{
    reveal_strlit("}");
    assert("}"@ =~= seq!['}']);
    lemma_material_start(n);
    let b2 = "{\"record_version\":1,\"openab_inbound_turn_id\":"@ + json_string(
        n.openab_inbound_turn_id@,
    );
    let m2 = seq![
        ("record_version"@, "1"@),
        ("openab_inbound_turn_id"@, json_string(n.openab_inbound_turn_id@)),
    ];
    lead_platform();
    object_grows(b2, m2, ",\"platform\":"@, "platform"@, json_string(n.platform@));
    let b3 = b2 + ",\"platform\":"@ + json_string(n.platform@);
    let m3 = m2.push(("platform"@, json_string(n.platform@)));
    lead_channel_id();
    object_grows(b3, m3, ",\"channel_id\":"@, "channel_id"@, json_string(n.channel_id@));
    let b4 = b3 + ",\"channel_id\":"@ + json_string(n.channel_id@);
    let m4 = m3.push(("channel_id"@, json_string(n.channel_id@)));
    lead_thread_id_normalized();
    object_grows(b4, m4, ",\"thread_id_normalized\":"@, "thread_id_normalized"@, json_string(or_none(n.thread_id)));
    let b5 = b4 + ",\"thread_id_normalized\":"@ + json_string(or_none(n.thread_id));
    let m5 = m4.push(("thread_id_normalized"@, json_string(or_none(n.thread_id))));
    lead_acp_request_id();
    object_grows(b5, m5, ",\"acp_request_id\":"@, "acp_request_id"@, json_string(n.acp_request_id@));
    let b6 = b5 + ",\"acp_request_id\":"@ + json_string(n.acp_request_id@);
    let m6 = m5.push(("acp_request_id"@, json_string(n.acp_request_id@)));
    lead_runtime_run_id();
    object_grows(b6, m6, ",\"runtime_run_id\":"@, "runtime_run_id"@, json_string(n.runtime_run_id@));
    let b7 = b6 + ",\"runtime_run_id\":"@ + json_string(n.runtime_run_id@);
    let m7 = m6.push(("runtime_run_id"@, json_string(n.runtime_run_id@)));
    lead_workflow_run_id_normalized();
    object_grows(b7, m7, ",\"workflow_run_id_normalized\":"@, "workflow_run_id_normalized"@, json_string(or_none(n.workflow_run_id)));
    let b8 = b7 + ",\"workflow_run_id_normalized\":"@ + json_string(or_none(n.workflow_run_id));
    let m8 = m7.push(("workflow_run_id_normalized"@, json_string(or_none(n.workflow_run_id))));
    lead_conversation_id();
    object_grows(b8, m8, ",\"conversation_id\":"@, "conversation_id"@, json_string(n.conversation_id@));
    let b9 = b8 + ",\"conversation_id\":"@ + json_string(n.conversation_id@);
    let m9 = m8.push(("conversation_id"@, json_string(n.conversation_id@)));
    lead_response_sequence();
    object_grows(b9, m9, ",\"response_sequence\":"@, "response_sequence"@, decimal(n.response_sequence as nat));
    let b10 = b9 + ",\"response_sequence\":"@ + decimal(n.response_sequence as nat);
    let m10 = m9.push(("response_sequence"@, decimal(n.response_sequence as nat)));
    lead_terminal_payload();
    object_grows(b10, m10, ",\"terminal_payload\":"@, "terminal_payload"@, n.terminal_payload@);
    let b11 = b10 + ",\"terminal_payload\":"@ + n.terminal_payload@;
    let m11 = m10.push(("terminal_payload"@, n.terminal_payload@));
    assert(m11 =~= identity_members(n));
    assert(key_material(n@) == b11 + "}"@);
}

/// The key of a delivery is the digest of one JSON object that holds each part of
/// its identity under its name, and the session is no part of it. An input that is
/// not accepted has no key.
pub proof fn keys_digest_the_identity(
    n: NewTerminalDeliveryRecord,
    valid: Result<(), TerminalDeliveryError>,
    r: Result<String, TerminalDeliveryError>,
)
    requires
        call_ensures(validate_new, (&n,), valid),
        call_ensures(terminal_delivery_key, (&n,), r),
    ensures
        r is Ok <==> valid is Ok,
        r is Err ==> r->Err_0@ == valid->Err_0@,
        r is Ok ==> r->Ok_0@ == text_digest(object(identity_members(n))),
{
    lemma_material_object(n);
}

/// A row stands for the same response as an input: the same turn, place and run,
/// and the same place in the sequence.
pub open spec fn same_response(row: RowText, n: NewTerminalDeliveryRecord) -> bool {
    &&& row.record_version == 1
    &&& row.openab_inbound_turn_id == n.openab_inbound_turn_id@
    &&& row.platform == n.platform@
    &&& row.channel_id == n.channel_id@
    &&& (row.thread_id is Some ==> row.thread_id->0 == or_none(n.thread_id))
    &&& (row.thread_id is None ==> or_none(n.thread_id).len() == 0)
    &&& row.response_sequence == decimal(n.response_sequence as nat)
    &&& row.runtime_run_id == n.runtime_run_id@
    &&& (row.workflow_run_id is Some ==> row.workflow_run_id->0 == or_none(n.workflow_run_id))
    &&& (row.workflow_run_id is None ==> or_none(n.workflow_run_id).len() == 0)
}

proof fn lemma_same_response(row: RowText, n: NewTerminalDeliveryRecord)
    ensures
        same_response(row, n) <==> row_slot(row) == new_slot(n@),
{
    if row.thread_id is None && or_none(n.thread_id).len() == 0 {
        assert(or_none(n.thread_id) =~= Seq::empty());
    }
    if row.workflow_run_id is None && or_none(n.workflow_run_id).len() == 0 {
        assert(or_none(n.workflow_run_id) =~= Seq::empty());
    }
    if same_response(row, n) {
        assert(normalized(row.thread_id) == normalized(n@.thread_id));
        assert(normalized(row.workflow_run_id) == normalized(n@.workflow_run_id));
    }
}

/// A response that was recorded before, under the same key or in the same place, is
/// answered with what is recorded now, and changes nothing. One in the same place
/// with another payload is refused.
pub proof fn known_responses_are_answered_from_the_record(
    repo: &mut TerminalDeliveryRepository,
    n: NewTerminalDeliveryRecord,
    now: Timestamp,
    key: Result<String, TerminalDeliveryError>,
    under: &str,
    found: Result<Option<TerminalDeliveryRecordV1>, TerminalDeliveryError>,
    i: int,
    other: &str,
    there: Result<Option<TerminalDeliveryRecordV1>, TerminalDeliveryError>,
    r: Result<TerminalDeliveryRecordV1, TerminalDeliveryError>,
)
    requires
        call_ensures(terminal_delivery_key, (&n,), key),
        key is Ok ==> under@ == key->Ok_0@,
        call_ensures(TerminalDeliveryRepository::get, (&*old(repo), under), found),
        call_ensures(TerminalDeliveryRepository::get, (&*old(repo), other), there),
        call_ensures(TerminalDeliveryRepository::create_or_reuse, (repo, n, now), r),
        unique_rows(old(repo)@.rows),
        0 <= i < old(repo)@.rows.len() ==> other@ == old(repo)@.rows[i].terminal_delivery_key,
    ensures
        r is Err ==> final(repo)@ == old(repo)@,
        key is Err ==> r is Err && r->Err_0@ == key->Err_0@,
        key is Ok && found is Err ==> r is Err && r->Err_0@ == found->Err_0@,
        key is Ok && found is Ok && found->Ok_0 is Some ==> {
            &&& r is Ok && r->Ok_0@ == found->Ok_0->0@
            &&& final(repo)@ == old(repo)@
        },
        key is Ok && found is Ok && found->Ok_0 is None && 0 <= i < old(repo)@.rows.len()
            && same_response(old(repo)@.rows[i], n) ==> {
            &&& final(repo)@ == old(repo)@
            &&& there is Err ==> r is Err && r->Err_0@ == there->Err_0@
            &&& there is Ok ==> there->Ok_0 is Some && {
                let existing = there->Ok_0->0;
                &&& existing.terminal_payload_digest@ == text_digest(n.terminal_payload@) ==> r is Ok
                    && r->Ok_0@ == existing@
                &&& existing.terminal_payload_digest@ != text_digest(n.terminal_payload@) ==> r is Err
                    && r->Err_0 is PayloadConflict && r->Err_0->code@
                    == "TERMINAL_DELIVERY_PAYLOAD_CONFLICT"@
            }
        },
{
    let rows = old(repo)@.rows;
    lemma_key_place(rows, under@);
    lemma_slot_place(rows, new_slot(n@));
    if 0 <= i < rows.len() {
        lemma_same_response(rows[i], n);
        lemma_found_at(rows, i);
        if same_response(rows[i], n) {
            let s = slot_place(rows, new_slot(n@));
            if i < s {
                assert(row_slot(rows[i]) != new_slot(n@));
            }
            if s < i {
                assert(row_slot(rows[s]) != row_slot(rows[i]));
            }
            assert(s == i);
        }
    }
}

/// A response that was not recorded before is recorded: under its key, with each
/// field as it was given, pending, at revision 0, without attempts, and created and
/// updated now. The rows and the events grow by one each.
pub proof fn new_responses_are_recorded_as_given(
    repo: &mut TerminalDeliveryRepository,
    n: NewTerminalDeliveryRecord,
    now: Timestamp,
    key: Result<String, TerminalDeliveryError>,
    r: Result<TerminalDeliveryRecordV1, TerminalDeliveryError>,
)
    requires
        call_ensures(terminal_delivery_key, (&n,), key),
        call_ensures(TerminalDeliveryRepository::create_or_reuse, (repo, n, now), r),
        key is Ok,
        forall|i: int|
            0 <= i < old(repo)@.rows.len() ==> (#[trigger] old(repo)@.rows[i]).terminal_delivery_key
                != key->Ok_0@ && !same_response(old(repo)@.rows[i], n),
        canonical_json(n.terminal_payload@) is Some,
        now.reads_back(),
    ensures
        r is Ok,
        ({
            let record = r->Ok_0;
            &&& record.record_version == 1
            &&& record.terminal_delivery_key@ == key->Ok_0@
            &&& record.openab_inbound_turn_id@ == n.openab_inbound_turn_id@
            &&& record.platform@ == n.platform@
            &&& record.channel_id@ == n.channel_id@
            &&& same_optional(record.thread_id, n.thread_id)
            &&& record.acp_request_id@ == n.acp_request_id@
            &&& record.acp_session_id@ == n.acp_session_id@
            &&& record.runtime_run_id@ == n.runtime_run_id@
            &&& same_optional(record.workflow_run_id, n.workflow_run_id)
            &&& record.conversation_id@ == n.conversation_id@
            &&& record.response_sequence == n.response_sequence
            &&& Some(record.terminal_payload@) == canonical_json(n.terminal_payload@)
            &&& record.terminal_payload_digest@ == text_digest(n.terminal_payload@)
            &&& record.state is PendingResult
            &&& record.attempt_count == 0
            &&& record.next_attempt_at is None
            &&& record.last_failure_classification is None
            &&& record.last_safe_error is None
            &&& record.discord_message_id is None
            &&& record.operator_hold_reason is None
            &&& record.created_at == micros(now)
            &&& record.updated_at == micros(now)
            &&& record.delivered_at is None
            &&& record.state_revision == 0
            &&& record.delivery_lease_token is None
            &&& record.delivery_started_at is None
        }),
        final(repo)@.rows.len() == old(repo)@.rows.len() + 1,
        final(repo)@.log.len() == old(repo)@.log.len() + 1,
        final(repo)@.rows.last().terminal_payload == n.terminal_payload@,
        logged(old(repo)@.log, key->Ok_0@) is Ok ==> {
            let after = logged(final(repo)@.log, key->Ok_0@);
            &&& after is Ok
            &&& after->Ok_0.len() == logged(old(repo)@.log, key->Ok_0@)->Ok_0.len() + 1
            &&& after->Ok_0.last().terminal_delivery_key == key->Ok_0@
            &&& after->Ok_0.last().previous_state is None
            &&& after->Ok_0.last().new_state is PendingResult
            &&& after->Ok_0.last().state_revision == 0
            &&& after->Ok_0.last().safe_reason_code == "CREATED"@
            &&& after->Ok_0.last().timestamp == micros(now)
        },
{
    let rows = old(repo)@.rows;
    lemma_key_place(rows, key->Ok_0@);
    lemma_slot_place(rows, new_slot(n@));
    let s = slot_place(rows, new_slot(n@));
    if s < rows.len() {
        lemma_same_response(rows[s], n);
        assert(rows[s].terminal_delivery_key != key->Ok_0@);
    }
    if key_place(rows, key->Ok_0@) < rows.len() {
        assert(rows[key_place(rows, key->Ok_0@)].terminal_delivery_key != key->Ok_0@);
    }
    new_response_is_recorded(old(repo)@, n@, now);
    state_name_round_trip(TerminalDeliveryState::PendingResult);
    crate::decimal::decimal_round_trip(0);
    crate::decimal::decimal_round_trip(n.response_sequence);
    reveal_strlit("0");
    assert("0"@ =~= decimal(0));
    assert(final(repo)@.log.drop_last() =~= old(repo)@.log);
}

/// A point in time that an optional text denotes.
pub open spec fn denotes_time(text: Option<String>, t: Option<Timestamp>) -> bool {
    &&& text is Some <==> t is Some
    &&& text is Some ==> parsed_time(text->0@) == t
}

/// The record that is read from a row holds each column under its own name: texts
/// as they are, and numbers, states, times and the payload as what they denote.
pub proof fn rows_are_read_column_by_column(
    row: DeliveryRow,
    r: Result<TerminalDeliveryRecordV1, TerminalDeliveryError>,
)
    requires
        call_ensures(record_from_row, (&row,), r),
    ensures
        r is Ok <==> {
            &&& parsed_u64(row.response_sequence@) is Some
            &&& canonical_json(row.terminal_payload@) is Some
            &&& state_named(row.state@) is Some
            &&& parsed_u64(row.attempt_count@) is Some
            &&& row.next_attempt_at is Some ==> parsed_time(row.next_attempt_at->0@) is Some
            &&& parsed_time(row.created_at@) is Some
            &&& parsed_time(row.updated_at@) is Some
            &&& row.delivered_at is Some ==> parsed_time(row.delivered_at->0@) is Some
            &&& parsed_u64(row.state_revision@) is Some
            &&& row.delivery_started_at is Some ==> parsed_time(row.delivery_started_at->0@) is Some
        },
        r is Err ==> r->Err_0 is MalformedRecord,
        r is Ok ==> {
            let x = r->Ok_0;
            &&& x.record_version == row.record_version
            &&& x.terminal_delivery_key@ == row.terminal_delivery_key@
            &&& x.openab_inbound_turn_id@ == row.openab_inbound_turn_id@
            &&& x.platform@ == row.platform@
            &&& x.channel_id@ == row.channel_id@
            &&& same_optional(x.thread_id, row.thread_id)
            &&& x.acp_request_id@ == row.acp_request_id@
            &&& x.acp_session_id@ == row.acp_session_id@
            &&& x.runtime_run_id@ == row.runtime_run_id@
            &&& same_optional(x.workflow_run_id, row.workflow_run_id)
            &&& x.conversation_id@ == row.conversation_id@
            &&& Some(x.response_sequence) == parsed_u64(row.response_sequence@)
            &&& Some(x.terminal_payload@) == canonical_json(row.terminal_payload@)
            &&& x.terminal_payload_digest@ == row.terminal_payload_digest@
            &&& Some(x.state) == state_named(row.state@)
            &&& Some(x.attempt_count) == parsed_u64(row.attempt_count@)
            &&& denotes_time(row.next_attempt_at, x.next_attempt_at)
            &&& same_optional(x.last_failure_classification, row.last_failure_classification)
            &&& same_optional(x.last_safe_error, row.last_safe_error)
            &&& same_optional(x.discord_message_id, row.discord_message_id)
            &&& same_optional(x.operator_hold_reason, row.operator_hold_reason)
            &&& Some(x.created_at) == parsed_time(row.created_at@)
            &&& Some(x.updated_at) == parsed_time(row.updated_at@)
            &&& denotes_time(row.delivered_at, x.delivered_at)
            &&& Some(x.state_revision) == parsed_u64(row.state_revision@)
            &&& same_optional(x.delivery_lease_token, row.delivery_lease_token)
            &&& denotes_time(row.delivery_started_at, x.delivery_started_at)
        },
{
}

/// A row that cannot be read names what is wrong with the first column that cannot.
pub proof fn unreadable_columns_are_named(
    row: DeliveryRow,
    r: Result<TerminalDeliveryRecordV1, TerminalDeliveryError>,
    s: Result<TerminalDeliveryRecordV1, TerminalDeliveryError>,
    message: String,
)
    requires
        call_ensures(record_from_row, (&row,), r),
        call_ensures(stored_record, (&row,), s),
        r is Err ==> call_ensures(TerminalDeliveryError::message, (&r->Err_0,), message),
    ensures
        r is Ok ==> s is Ok && s->Ok_0@ == r->Ok_0@,
        r is Err ==> s is Err && s->Err_0 is Storage && s->Err_0->Storage_0@ == message@,
        parsed_u64(row.response_sequence@) is None ==> r->Err_0->MalformedRecord_0@ == "integer"@,
        parsed_u64(row.response_sequence@) is Some ==> {
            &&& canonical_json(row.terminal_payload@) is None ==> r->Err_0->MalformedRecord_0@
                == "terminal_payload"@
            &&& canonical_json(row.terminal_payload@) is Some && state_named(row.state@) is None
                ==> r->Err_0->MalformedRecord_0@ == "unknown state"@
            &&& r is Err && canonical_json(row.terminal_payload@) is Some && state_named(
                row.state@,
            ) is Some && parsed_u64(row.attempt_count@) is Some && parsed_u64(
                row.state_revision@,
            ) is Some ==> r->Err_0->MalformedRecord_0@ == "timestamp"@
        },
{
}

/// The event that is read from a row of the log holds each column under its name.
pub proof fn log_rows_are_read_column_by_column(
    row: DeliveryEventRow,
    r: Result<TerminalDeliveryEvent, TerminalDeliveryError>,
)
    requires
        call_ensures(event_from_row, (&row,), r),
    ensures
        r is Ok <==> {
            &&& row.previous_state is Some ==> state_named(row.previous_state->0@) is Some
            &&& state_named(row.new_state@) is Some
            &&& parsed_u64(row.state_revision@) is Some
            &&& parsed_time(row.timestamp@) is Some
        },
        r is Ok ==> {
            let x = r->Ok_0;
            &&& x.terminal_delivery_key@ == row.terminal_delivery_key@
            &&& x.previous_state is Some <==> row.previous_state is Some
            &&& row.previous_state is Some ==> x.previous_state == state_named(
                row.previous_state->0@,
            )
            &&& Some(x.new_state) == state_named(row.new_state@)
            &&& Some(x.state_revision) == parsed_u64(row.state_revision@)
            &&& x.safe_reason_code@ == row.safe_reason_code@
            &&& Some(x.timestamp) == parsed_time(row.timestamp@)
        },
{
}

/// The text of an optional point in time.
pub open spec fn written(t: Option<Timestamp>, text: Option<String>) -> bool {
    &&& t is Some <==> text is Some
    &&& t is Some ==> text->0@ == t->0.text()
}

/// A step writes each part of the update into the column of the same name, and every
/// other column of the row stays as it was.
pub proof fn a_step_writes_into_the_columns(
    row: DeliveryRow,
    current: TerminalDeliveryRecordV1,
    new_state: TerminalDeliveryState,
    update: TransitionUpdate,
    now: Timestamp,
    r: DeliveryRow,
)
    requires
        call_ensures(advanced_row, (&row, &current, new_state, &update, now), r),
    ensures
        r.record_version == row.record_version,
        r.terminal_delivery_key@ == row.terminal_delivery_key@,
        r.openab_inbound_turn_id@ == row.openab_inbound_turn_id@,
        r.platform@ == row.platform@,
        r.channel_id@ == row.channel_id@,
        same_optional(r.thread_id, row.thread_id),
        r.acp_request_id@ == row.acp_request_id@,
        r.acp_session_id@ == row.acp_session_id@,
        r.runtime_run_id@ == row.runtime_run_id@,
        same_optional(r.workflow_run_id, row.workflow_run_id),
        r.conversation_id@ == row.conversation_id@,
        r.response_sequence@ == row.response_sequence@,
        r.terminal_payload@ == row.terminal_payload@,
        r.terminal_payload_digest@ == row.terminal_payload_digest@,
        r.created_at@ == row.created_at@,
        r.state@ == new_state.text(),
        r.state_revision@ == decimal((current.state_revision + 1) as nat),
        r.attempt_count@ == decimal(
            if update.attempt_count is Some {
                update.attempt_count->0 as nat
            } else {
                current.attempt_count as nat
            },
        ),
        r.updated_at@ == now.text(),
        update.next_attempt_at is Some ==> written(update.next_attempt_at->0, r.next_attempt_at),
        update.next_attempt_at is None ==> written(current.next_attempt_at, r.next_attempt_at),
        update.delivery_started_at is Some ==> written(
            update.delivery_started_at->0,
            r.delivery_started_at,
        ),
        update.delivery_started_at is None ==> written(
            current.delivery_started_at,
            r.delivery_started_at,
        ),
        new_state is Delivered ==> written(Some(now), r.delivered_at),
        !(new_state is Delivered) ==> written(current.delivered_at, r.delivered_at),
        same_optional(
            r.last_failure_classification,
            if update.last_failure_classification is Some {
                update.last_failure_classification->0
            } else {
                current.last_failure_classification
            },
        ),
        same_optional(
            r.last_safe_error,
            if update.last_safe_error is Some {
                update.last_safe_error->0
            } else {
                current.last_safe_error
            },
        ),
        same_optional(
            r.operator_hold_reason,
            if update.operator_hold_reason is Some {
                update.operator_hold_reason->0
            } else {
                current.operator_hold_reason
            },
        ),
        same_optional(
            r.delivery_lease_token,
            if update.delivery_lease_token is Some {
                update.delivery_lease_token->0
            } else {
                current.delivery_lease_token
            },
        ),
        same_optional(
            r.discord_message_id,
            if update.discord_message_id is Some {
                update.discord_message_id
            } else {
                current.discord_message_id
            },
        ),
{
}

/// An audit field of a record that is stored.
pub open spec fn auditable_if_any(o: Option<String>) -> bool {
    o is Some ==> auditable(o->0@)
}

/// What a record was created from.
pub open spec fn created_as(x: TerminalDeliveryRecordV1, n: NewTerminalDeliveryRecord) -> bool {
    &&& n.openab_inbound_turn_id@ == x.openab_inbound_turn_id@
    &&& n.platform@ == x.platform@
    &&& n.channel_id@ == x.channel_id@
    &&& same_optional(n.thread_id, x.thread_id)
    &&& n.acp_request_id@ == x.acp_request_id@
    &&& n.acp_session_id@ == x.acp_session_id@
    &&& n.runtime_run_id@ == x.runtime_run_id@
    &&& same_optional(n.workflow_run_id, x.workflow_run_id)
    &&& n.conversation_id@ == x.conversation_id@
    &&& n.response_sequence == x.response_sequence
    &&& n.terminal_payload@ == x.terminal_payload@
}

proof fn lemma_auditable_if_any(o: Option<String>)
    ensures
        auditable_if_any(o) == super::identity::safe_optional(crate::text::opt_view(o)),
{
    if o is Some {
        lemma_auditable(o->0@);
    }
}

/// A stored record is whole exactly where it is of version 1, what it was created
/// from would be accepted and has its key, its digest is that of its payload, and
/// its three audit texts may stand in the trail.
pub proof fn whole_records_are_accepted(
    x: TerminalDeliveryRecordV1,
    n: NewTerminalDeliveryRecord,
    key: Result<String, TerminalDeliveryError>,
    r: Result<(), TerminalDeliveryError>,
)
    requires
        created_as(x, n),
        call_ensures(terminal_delivery_key, (&n,), key),
        call_ensures(validate_record, (&x,), r),
    ensures
        r is Ok <==> {
            &&& x.record_version == 1
            &&& key is Ok && x.terminal_delivery_key@ == key->Ok_0@
            &&& x.terminal_payload_digest@ == text_digest(x.terminal_payload@)
            &&& auditable_if_any(x.last_failure_classification)
            &&& auditable_if_any(x.last_safe_error)
            &&& auditable_if_any(x.operator_hold_reason)
        },
        x.record_version != 1 ==> r->Err_0 is MalformedRecord && r->Err_0->MalformedRecord_0@
            == "record_version"@,
        x.record_version == 1 && key is Err ==> r->Err_0@ == key->Err_0@,
        x.record_version == 1 && key is Ok ==> {
            &&& x.terminal_delivery_key@ != key->Ok_0@ ==> r->Err_0 is MalformedRecord
                && r->Err_0->MalformedRecord_0@ == "terminal_delivery_key mismatch"@
            &&& x.terminal_delivery_key@ == key->Ok_0@ && x.terminal_payload_digest@ != text_digest(
                x.terminal_payload@,
            ) ==> r->Err_0 is MalformedRecord && r->Err_0->MalformedRecord_0@
                == "terminal_payload_digest mismatch"@
        },
{
    lemma_auditable_if_any(x.last_failure_classification);
    lemma_auditable_if_any(x.last_safe_error);
    lemma_auditable_if_any(x.operator_hold_reason);
    assert(super::identity::created_from(x@) == n@);
}

/// A key and a digest that are held against a record decide it in this order.
pub proof fn records_are_held_against(
    x: TerminalDeliveryRecordV1,
    key: &str,
    digest: &str,
    r: Result<(), TerminalDeliveryError>,
)
    requires
        call_ensures(validate_against, (&x, key, digest), r),
    ensures
        r is Ok <==> {
            &&& x.terminal_delivery_key@ == key@
            &&& x.terminal_payload_digest@ == digest@
            &&& auditable_if_any(x.last_failure_classification)
            &&& auditable_if_any(x.last_safe_error)
            &&& auditable_if_any(x.operator_hold_reason)
        },
        x.terminal_delivery_key@ == key@ && x.terminal_payload_digest@ == digest@ && r is Err
            ==> r->Err_0 is UnsafeAuditField && r->Err_0->UnsafeAuditField_0@
            == "persisted safe field"@,
{
    lemma_auditable_if_any(x.last_failure_classification);
    lemma_auditable_if_any(x.last_safe_error);
    lemma_auditable_if_any(x.operator_hold_reason);
}

/// A delivery under the key is reused before one in the same place; one in the same
/// place has to have the payload.
pub proof fn the_key_goes_before_the_place(
    by_key: Option<TerminalDeliveryRecordV1>,
    by_slot: Option<TerminalDeliveryRecordV1>,
    digest: &str,
    r: Result<Option<TerminalDeliveryRecordV1>, TerminalDeliveryError>,
)
    requires
        call_ensures(choose_existing, (by_key, by_slot, digest), r),
    ensures
        by_key is Some ==> r is Ok && r->Ok_0 is Some && r->Ok_0->0@ == by_key->0@,
        by_key is None && by_slot is None ==> r is Ok && r->Ok_0 is None,
        by_key is None && by_slot is Some ==> {
            &&& by_slot->0.terminal_payload_digest@ == digest@ ==> r is Ok && r->Ok_0 is Some
                && r->Ok_0->0@ == by_slot->0@
            &&& by_slot->0.terminal_payload_digest@ != digest@ ==> r is Err
                && r->Err_0 is PayloadConflict && r->Err_0->code@
                == "TERMINAL_DELIVERY_PAYLOAD_CONFLICT"@
        },
{
}

/// A database without a schema gets one, one of version 1 is kept, and any other is
/// refused with the version that was found. A check that says anything but `ok` is
/// reported as it is. A failure is corruption or not as the caller found.
pub proof fn databases_are_judged(
    version: i32,
    action: Result<SchemaAction, TerminalDeliveryError>,
    check: &str,
    checked: Result<(), TerminalDeliveryError>,
    corrupt: bool,
    detail: String,
    fault: TerminalDeliveryError,
)
    requires
        call_ensures(schema_action, (version,), action),
        call_ensures(check_integrity, (check,), checked),
        call_ensures(storage_fault, (corrupt, detail), fault),
    ensures
        action is Ok <==> version == 0 || version == 1,
        version == 0 ==> action->Ok_0 is Create,
        version == 1 ==> action->Ok_0 is Keep,
        action is Err ==> action->Err_0 is SchemaVersion && action->Err_0->found == version,
        checked is Ok <==> check@ == "ok"@,
        checked is Err ==> checked->Err_0 is Corrupt && checked->Err_0->Corrupt_0@ == check@,
        corrupt ==> fault is Corrupt && fault->Corrupt_0@ == detail@,
        !corrupt ==> fault is Storage && fault->Storage_0@ == detail@,
{
}

/// A database opens where its version is known, its check is clean and every row
/// holds a whole record; it then holds these rows and this log, and its file lies in
/// the directory `openab` of the data directory.
pub proof fn databases_open_where_every_row_is_whole(
    data_dir: &str,
    version: i32,
    check: &str,
    rows: Vec<DeliveryRow>,
    log: Vec<DeliveryEventRow>,
    i: int,
    read: Result<TerminalDeliveryRecordV1, TerminalDeliveryError>,
    whole: Result<(), TerminalDeliveryError>,
    r: Result<TerminalDeliveryRepository, TerminalDeliveryError>,
)
    requires
        call_ensures(TerminalDeliveryRepository::open, (data_dir, version, check, rows, log), r),
        0 <= i < rows@.len() ==> call_ensures(stored_record, (&rows@[i],), read),
        0 <= i < rows@.len() && read is Ok ==> call_ensures(validate_record, (&read->Ok_0,), whole),
    ensures
        r is Ok ==> {
            &&& version == 0 || version == 1
            &&& check@ == "ok"@
            &&& 0 <= i < rows@.len() ==> read is Ok && whole is Ok
            &&& r->Ok_0@.rows == row_views(rows@)
            &&& r->Ok_0@.log.len() == log@.len()
            &&& data_dir@.len() > 0 && data_dir@.last() != '/' ==> r->Ok_0@.database_path
                == data_dir@ + "/openab/terminal-deliveries.db"@
        },
        version != 0 && version != 1 ==> r is Err && r->Err_0 is SchemaVersion && r->Err_0->found
            == version,
        (version == 0 || version == 1) && check@ != "ok"@ ==> r is Err && r->Err_0 is Corrupt
            && r->Err_0->Corrupt_0@ == check@,
        (version == 0 || version == 1) && check@ == "ok"@ && rows@.len() == 0 ==> r is Ok,
{
    if r is Ok && 0 <= i < rows@.len() {
        super::laws::lemma_rows_fault(row_views(rows@));
        reveal(super::repository::opened_row_fault);
        assert(super::repository::opened_row_fault(row_views(rows@)[i]) is None);
        assert(row_views(rows@)[i] == rows@[i]@);
    }
    reveal_strlit("/openab/terminal-deliveries.db");
    reveal_strlit("openab");
    reveal_strlit("terminal-deliveries.db");
    reveal_strlit("/");
    if data_dir@.len() > 0 && data_dir@.last() != '/' {
        let d = data_dir@ + "/"@ + "openab"@;
        assert(d.last() == 'b');
        assert(d + "/"@ + "terminal-deliveries.db"@ =~= data_dir@ + "/openab/terminal-deliveries.db"@);
    }
}

/// Every error has a text of its own that holds what is known of it.
pub proof fn errors_say_what_is_known(e: TerminalDeliveryError, r: String)
    requires
        call_ensures(TerminalDeliveryError::message, (&e,), r),
    ensures
        match e {
            TerminalDeliveryError::Storage(d) => r@ == "terminal delivery storage failure: "@ + d@,
            TerminalDeliveryError::SchemaVersion { found } => found >= 0 ==> r@
                == "unsupported terminal delivery schema version "@ + decimal(found as nat),
            TerminalDeliveryError::Corrupt(d) => r@ == "terminal delivery database corruption: "@
                + d@,
            TerminalDeliveryError::MalformedRecord(d) => r@ == "malformed terminal delivery record: "@
                + d@,
            TerminalDeliveryError::InvalidInput(f) => r@ == "invalid terminal delivery input: "@ + f@,
            TerminalDeliveryError::PayloadConflict { code } => r@
                == "terminal delivery payload conflict: "@ + code@,
            TerminalDeliveryError::IllegalTransition { from, to } => r@
                == "illegal terminal delivery transition: "@ + from.text() + " -> "@ + to.text(),
            TerminalDeliveryError::ImmutableTerminalState(s) => r@
                == "terminal delivery state is immutable: "@ + s.text(),
            TerminalDeliveryError::RevisionConflict { expected, actual } => r@
                == "terminal delivery revision conflict: expected "@ + decimal(expected as nat)
                + ", actual "@ + decimal(actual as nat),
            TerminalDeliveryError::DiscordMessageIdWriteOnce => r@
                == "discord_message_id is write-once"@,
            TerminalDeliveryError::UnsafeAuditField(f) => r@
                == "unsafe terminal delivery audit field: "@ + f@,
        },
        e is SchemaVersion && e->found < 0 ==> r@ == "unsupported terminal delivery schema version "@
            + ("-"@ + decimal((-e->found) as nat)),
{
}

/// A step is checked against the record alone: the first of these that applies
/// refuses it.
pub proof fn steps_are_checked_in_order(
    x: TerminalDeliveryRecordV1,
    revision: u64,
    to: TerminalDeliveryState,
    update: TransitionUpdate,
    r: Result<(), TerminalDeliveryError>,
)
    requires
        call_ensures(check_step, (&x, revision, to, &update), r),
    ensures
        if x.state is Delivered || x.state is PermanentRejected {
            r is Err && r->Err_0 is ImmutableTerminalState && r->Err_0->ImmutableTerminalState_0
                == x.state
        } else if x.state_revision != revision {
            r is Err && r->Err_0 is RevisionConflict && r->Err_0->expected == revision
                && r->Err_0->actual == x.state_revision
        } else if !approved(x.state, to) {
            r is Err && r->Err_0 is IllegalTransition && r->Err_0->from == x.state && r->Err_0->to
                == to
        } else if update.attempt_count is Some && update.attempt_count->0 < x.attempt_count {
            r is Err && r->Err_0 is InvalidInput && r->Err_0->InvalidInput_0@
                == "attempt_count must be monotonic"@
        } else if x.discord_message_id is Some && update.discord_message_id is Some {
            r is Err && r->Err_0 is DiscordMessageIdWriteOnce
        } else if revision == u64::MAX {
            r is Err && r->Err_0 is InvalidInput && r->Err_0->InvalidInput_0@
                == "state_revision overflow"@
        } else {
            r is Ok
        },
{
}

/// What is found under a key is the record of the row with that key; under any other
/// key nothing is found.
pub proof fn records_are_found_by_key(
    repo: TerminalDeliveryRepository,
    rows: &Vec<DeliveryRow>,
    i: int,
    key: &str,
    read: Result<TerminalDeliveryRecordV1, TerminalDeliveryError>,
    found: Result<Option<TerminalDeliveryRecordV1>, TerminalDeliveryError>,
)
    requires
        call_ensures(TerminalDeliveryRepository::rows, (&repo,), rows),
        call_ensures(TerminalDeliveryRepository::get, (&repo, key), found),
        0 <= i < rows@.len() ==> call_ensures(stored_record, (&rows@[i],), read),
        unique_rows(row_views(rows@)),
    ensures
        0 <= i < rows@.len() && rows@[i].terminal_delivery_key@ == key@ ==> {
            &&& read is Ok ==> found is Ok && found->Ok_0 is Some && found->Ok_0->0@ == read->Ok_0@
            &&& read is Err ==> found is Err && found->Err_0@ == read->Err_0@
        },
        (forall|j: int|
            0 <= j < rows@.len() ==> (#[trigger] rows@[j]).terminal_delivery_key@ != key@) ==> found
            is Ok && found->Ok_0 is None,
{
    let all = row_views(rows@);
    lemma_key_place(all, key@);
    if 0 <= i < rows@.len() {
        assert(all[i] == rows@[i]@);
        lemma_found_at(all, i);
    }
    let at = key_place(all, key@);
    if at < all.len() {
        assert(all[at] == rows@[at]@);
    }
}

/// The update that is there by default changes nothing.
pub proof fn the_default_changes_nothing(u: TransitionUpdate)
    requires
        call_ensures(<TransitionUpdate as Default>::default, (), u),
    ensures
        u.attempt_count is None,
        u.next_attempt_at is None,
        u.last_failure_classification is None,
        u.last_safe_error is None,
        u.discord_message_id is None,
        u.operator_hold_reason is None,
        u.delivery_lease_token is None,
        u.delivery_started_at is None,
{
}

/// A part of a database holds the rows and the path that it is given, and hands
/// them out again.
pub proof fn repositories_hold_what_they_are_given(
    path: String,
    rows: Vec<DeliveryRow>,
    log: Vec<DeliveryEventRow>,
    repo: TerminalDeliveryRepository,
    shown: &Vec<DeliveryRow>,
    told: &Vec<DeliveryEventRow>,
    place: &str,
    i: int,
)
    requires
        call_ensures(TerminalDeliveryRepository::with_rows, (path, rows, log), repo),
        call_ensures(TerminalDeliveryRepository::rows, (&repo,), shown),
        call_ensures(TerminalDeliveryRepository::log, (&repo,), told),
        call_ensures(TerminalDeliveryRepository::database_path, (&repo,), place),
    ensures
        place@ == path@,
        shown@.len() == rows@.len(),
        told@.len() == log@.len(),
        0 <= i < rows@.len() ==> shown@[i]@ == rows@[i]@,
        0 <= i < log@.len() ==> told@[i]@ == log@[i]@,
{
    assert(row_views(shown@).len() == row_views(rows@).len());
    assert(event_row_views(told@).len() == event_row_views(log@).len());
    if 0 <= i < rows@.len() {
        assert(row_views(shown@)[i] == row_views(rows@)[i]);
    }
    if 0 <= i < log@.len() {
        assert(event_row_views(told@)[i] == event_row_views(log@)[i]);
    }
}

} // verus!
