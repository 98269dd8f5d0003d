//! What each operation answers and stores, in terms of what it is given.

use vstd::prelude::*;

use crate::clock::Timestamp;
use crate::decimal::decimal_round_trip;
use crate::text::contains;

use super::identity::{
    change_view, safe_change, safe_char, safe_text, validate_safe_field, validate_transition_update,
    TransitionUpdate,
};
use super::laws::{canonical_numbers, lemma_key_place, unique_rows};
use super::record::{RowText, TerminalDeliveryRecordV1};
use super::repository::{advanced, key_place, message_taken, stored, TerminalDeliveryRepository};
use super::state::{state_name_round_trip, TerminalDeliveryError, TerminalDeliveryState};

verus! {

/// A point in time to the microsecond.
pub open spec fn micros(t: Timestamp) -> Timestamp {
    Timestamp { secs: t.secs, nanos: (t.nanos - t.nanos % 1000) as u32 }
}

/// An optional point in time to the microsecond.
pub open spec fn opt_micros(t: Option<Timestamp>) -> Option<Timestamp> {
    match t {
        Some(t) => Some(micros(t)),
        None => None,
    }
}

/// An optional point in time whose text can be read back.
pub open spec fn readable(t: Option<Timestamp>) -> bool {
    t is Some ==> t->0.reads_back()
}

/// Two optional texts are both there and the same, or both not there.
pub open spec fn same_optional(a: Option<String>, b: Option<String>) -> bool {
    &&& a is Some <==> b is Some
    &&& a is Some ==> a->0@ == b->0@
}

/// A field after a step is what the step gives it, and what it was where the step
/// gives it nothing.
pub open spec fn text_taken_over(
    given: Option<Option<String>>,
    before: Option<String>,
    after: Option<String>,
) -> bool {
    &&& given is Some ==> same_optional(after, given->0)
    &&& given is None ==> same_optional(after, before)
}

/// A time after a step is what the step gives it, and what it was where the step
/// gives it nothing; to the microsecond.
pub open spec fn time_taken_over(
    given: Option<Option<Timestamp>>,
    before: Option<Timestamp>,
    after: Option<Timestamp>,
) -> bool {
    &&& given is Some ==> after == opt_micros(given->0)
    &&& given is None ==> after == opt_micros(before)
}

/// Two records are of the same delivery: they agree on everything that it was
/// created with.
pub open spec fn same_identity(
    a: TerminalDeliveryRecordV1,
    b: TerminalDeliveryRecordV1,
) -> bool {
    &&& a.record_version == b.record_version
    &&& a.terminal_delivery_key@ == b.terminal_delivery_key@
    &&& a.openab_inbound_turn_id@ == b.openab_inbound_turn_id@
    &&& a.platform@ == b.platform@
    &&& a.channel_id@ == b.channel_id@
    &&& same_optional(a.thread_id, b.thread_id)
    &&& a.acp_request_id@ == b.acp_request_id@
    &&& a.acp_session_id@ == b.acp_session_id@
    &&& a.runtime_run_id@ == b.runtime_run_id@
    &&& same_optional(a.workflow_run_id, b.workflow_run_id)
    &&& a.conversation_id@ == b.conversation_id@
    &&& a.response_sequence == b.response_sequence
    &&& a.terminal_payload@ == b.terminal_payload@
    &&& a.terminal_payload_digest@ == b.terminal_payload_digest@
    &&& a.created_at == b.created_at
}

/// A step that succeeds writes each field of the update into the field of the same
/// name, and leaves a field that the update does not speak of as it was.
pub proof fn a_step_writes_what_it_is_given(
    repo: &mut TerminalDeliveryRepository,
    key: &str,
    revision: u64,
    new_state: TerminalDeliveryState,
    update: TransitionUpdate,
    reason: &str,
    now: Timestamp,
    found: Result<Option<TerminalDeliveryRecordV1>, TerminalDeliveryError>,
    r: Result<TerminalDeliveryRecordV1, TerminalDeliveryError>,
)
    requires
        call_ensures(TerminalDeliveryRepository::get, (&*old(repo), key), found),
        call_ensures(
            TerminalDeliveryRepository::transition,
            (repo, key, revision, new_state, update, reason, now),
            r,
        ),
        r is Ok,
        forall|i: int|
            0 <= i < old(repo)@.rows.len() ==> canonical_numbers(#[trigger] old(repo)@.rows[i]),
        now.reads_back(),
        update.next_attempt_at is Some ==> readable(update.next_attempt_at->0),
        update.delivery_started_at is Some ==> readable(update.delivery_started_at->0),
        found is Ok && found->Ok_0 is Some ==> {
            &&& readable(found->Ok_0->0.next_attempt_at)
            &&& readable(found->Ok_0->0.delivery_started_at)
            &&& readable(found->Ok_0->0.delivered_at)
        },
    ensures
        found is Ok && found->Ok_0 is Some,
        ({
            let before = found->Ok_0->0;
            let after = r->Ok_0;
            &&& after.state == new_state
            &&& before.state_revision == revision
            &&& after.state_revision == revision + 1
            &&& update.attempt_count is Some ==> after.attempt_count == update.attempt_count->0
            &&& update.attempt_count is None ==> after.attempt_count == before.attempt_count
            &&& time_taken_over(
                update.next_attempt_at,
                before.next_attempt_at,
                after.next_attempt_at,
            )
            &&& time_taken_over(
                update.delivery_started_at,
                before.delivery_started_at,
                after.delivery_started_at,
            )
            &&& text_taken_over(
                update.last_failure_classification,
                before.last_failure_classification,
                after.last_failure_classification,
            )
            &&& text_taken_over(
                update.last_safe_error,
                before.last_safe_error,
                after.last_safe_error,
            )
            &&& text_taken_over(
                update.operator_hold_reason,
                before.operator_hold_reason,
                after.operator_hold_reason,
            )
            &&& text_taken_over(
                update.delivery_lease_token,
                before.delivery_lease_token,
                after.delivery_lease_token,
            )
            &&& update.discord_message_id is Some ==> same_optional(
                after.discord_message_id,
                update.discord_message_id,
            )
            &&& update.discord_message_id is None ==> same_optional(
                after.discord_message_id,
                before.discord_message_id,
            )
            &&& same_identity(before, after)
            &&& after.updated_at == micros(now)
            &&& new_state is Delivered ==> after.delivered_at == Some(micros(now))
            &&& !(new_state is Delivered) ==> after.delivered_at == opt_micros(before.delivered_at)
        }),
{
    let rows = old(repo)@.rows;
    let at = key_place(rows, key@);
    lemma_key_place(rows, key@);
    assert(canonical_numbers(rows[at]));
    let before = stored(rows[at])->Ok_0;
    state_name_round_trip(new_state);
    decimal_round_trip((before.state_revision + 1) as u64);
    decimal_round_trip(before.attempt_count);
    if update.attempt_count is Some {
        decimal_round_trip(update.attempt_count->0);
    }
}

/// A text that may stand in the audit trail: 1 to 256 characters, each a capital
/// letter, a digit, or one of `_`, `-`, `.` and `:`, and none of three words that
/// speak of credentials.
pub open spec fn auditable(s: Seq<char>) -> bool {
    &&& 1 <= s.len() <= 256
    &&& forall|i: int|
        0 <= i < s.len() ==> {
            let n = #[trigger] s[i] as u32;
            65 <= n <= 90 || 48 <= n <= 57 || n == 95 || n == 45 || n == 46 || n == 58
        }
    &&& !contains(s, "BEARER"@)
    &&& !contains(s, "TOKEN"@)
    &&& !contains(s, "AUTHORIZATION"@)
}

/// A change to an audit field writes nothing that may not stand there.
pub open spec fn auditable_change(o: Option<Option<String>>) -> bool {
    o is Some && o->0 is Some ==> auditable(o->0->0@)
}

proof fn lemma_code(c: char)
    ensures
        safe_char(c) <==> {
            let n = c as u32;
            65 <= n <= 90 || 48 <= n <= 57 || n == 95 || n == 45 || n == 46 || n == 58
        },
{
}

pub(crate) proof fn lemma_auditable(s: Seq<char>)
    ensures
        auditable(s) == safe_text(s),
{
    if safe_text(s) {
        assert forall|i: int| 0 <= i < s.len() implies {
            let n = #[trigger] s[i] as u32;
            65 <= n <= 90 || 48 <= n <= 57 || n == 95 || n == 45 || n == 46 || n == 58
        } by {
            assert(safe_char(s[i]));
            lemma_code(s[i]);
        }
    }
    if auditable(s) {
        assert forall|i: int| 0 <= i < s.len() implies safe_char(#[trigger] s[i]) by {
            let n = s[i] as u32;
            assert(65 <= n <= 90 || 48 <= n <= 57 || n == 95 || n == 45 || n == 46 || n == 58);
            lemma_code(s[i]);
        }
    }
}

proof fn lemma_auditable_change(o: Option<Option<String>>)
    ensures
        auditable_change(o) == safe_change(change_view(o)),
{
    if o is Some && o->0 is Some {
        lemma_auditable(o->0->0@);
    }
}

/// A text is accepted for the audit trail exactly where it may stand there, and
/// refused under the name of its field.
pub proof fn audit_texts_are_checked(
    value: &str,
    name: &'static str,
    r: Result<(), TerminalDeliveryError>,
)
    requires
        call_ensures(validate_safe_field, (value, name), r),
    ensures
        r is Ok <==> auditable(value@),
        r is Err ==> r->Err_0 is UnsafeAuditField && r->Err_0->UnsafeAuditField_0@ == name@,
{
    lemma_auditable(value@);
}

/// A change is accepted exactly where none of its three audit texts is refused.
pub proof fn changes_are_checked(update: TransitionUpdate, r: Result<(), TerminalDeliveryError>)
    requires
        call_ensures(validate_transition_update, (&update,), r),
    ensures
        r is Ok <==> auditable_change(update.last_failure_classification) && auditable_change(
            update.last_safe_error,
        ) && auditable_change(update.operator_hold_reason),
        r is Err ==> r->Err_0 is UnsafeAuditField && r->Err_0->UnsafeAuditField_0@ == "safe field"@,
{
    lemma_auditable_change(update.last_failure_classification);
    lemma_auditable_change(update.last_safe_error);
    lemma_auditable_change(update.operator_hold_reason);
}

/// The approved steps: from a state, to a state.
pub open spec fn approved(from: TerminalDeliveryState, to: TerminalDeliveryState) -> bool {
    ||| from is PendingResult && to is ReadyToDeliver
    ||| from is PendingResult && to is OperatorHold
    ||| from is ReadyToDeliver && to is Delivering
    ||| from is ReadyToDeliver && to is OperatorHold
    ||| from is Delivering && to is Delivered
    ||| from is Delivering && to is RetryScheduled
    ||| from is Delivering && to is PermanentRejected
    ||| from is Delivering && to is Ambiguous
    ||| from is RetryScheduled && to is Delivering
    ||| from is RetryScheduled && to is OperatorHold
    ||| from is Ambiguous && to is Delivered
    ||| from is Ambiguous && to is OperatorHold
    ||| from is OperatorHold && to is ReadyToDeliver
    ||| from is OperatorHold && to is Delivered
    ||| from is OperatorHold && to is PermanentRejected
}

/// A state may become another exactly where the step is approved, and is terminal
/// exactly where it may become none.
pub proof fn states_take_approved_steps(
    from: TerminalDeliveryState,
    to: TerminalDeliveryState,
    may: bool,
    terminal: bool,
)
    requires
        call_ensures(TerminalDeliveryState::may_transition_to, (from, to), may),
        call_ensures(TerminalDeliveryState::is_terminal, (from,), terminal),
    ensures
        may <==> approved(from, to),
        terminal <==> from is Delivered || from is PermanentRejected,
        terminal ==> !may,
{
}

/// A state is written under its own name, and every name is read as its state and
/// no other text is.
pub proof fn states_have_their_names(
    s: TerminalDeliveryState,
    name: &'static str,
    text: &str,
    read: Result<TerminalDeliveryState, TerminalDeliveryError>,
)
    requires
        call_ensures(TerminalDeliveryState::as_str, (s,), name),
        call_ensures(TerminalDeliveryState::parse, (text,), read),
    ensures
        match s {
            TerminalDeliveryState::PendingResult => name@ == "PENDING_RESULT"@,
            TerminalDeliveryState::ReadyToDeliver => name@ == "READY_TO_DELIVER"@,
            TerminalDeliveryState::Delivering => name@ == "DELIVERING"@,
            TerminalDeliveryState::RetryScheduled => name@ == "RETRY_SCHEDULED"@,
            TerminalDeliveryState::Ambiguous => name@ == "AMBIGUOUS"@,
            TerminalDeliveryState::Delivered => name@ == "DELIVERED"@,
            TerminalDeliveryState::PermanentRejected => name@ == "PERMANENT_REJECTED"@,
            TerminalDeliveryState::OperatorHold => name@ == "OPERATOR_HOLD"@,
        },
        read is Ok <==> exists|t: TerminalDeliveryState| #[trigger] t.text() == text@,
        read is Ok ==> read->Ok_0.text() == text@,
        read is Err ==> read->Err_0 is MalformedRecord && read->Err_0->MalformedRecord_0@
            == "unknown state"@,
{
    if exists|t: TerminalDeliveryState| #[trigger] t.text() == text@ {
        let t = choose|t: TerminalDeliveryState| #[trigger] t.text() == text@;
        state_name_round_trip(t);
    }
    if read is Ok {
        assert(read->Ok_0.text() == text@);
    }
}

/// Whether another delivery on the same platform holds a message id.
pub open spec fn held_elsewhere(rows: Seq<RowText>, key: Seq<char>, id: Seq<char>) -> bool {
    let at = key_place(rows, key);
    exists|i: int|
        0 <= i < rows.len() && i != at && (#[trigger] rows[i]).platform == rows[at].platform
            && rows[i].discord_message_id == Some(id)
}

/// A step is refused for the first of these reasons that applies, and otherwise
/// succeeds: the reason's code or an audit text may not stand in the trail; there is
/// no such delivery; its state is terminal; its revision is another; the step is
/// not approved; attempts would be counted down; a message id would be set twice;
/// revisions run out; or another delivery holds the message id.
pub proof fn a_step_succeeds_or_says_why(
    repo: &mut TerminalDeliveryRepository,
    key: &str,
    revision: u64,
    new_state: TerminalDeliveryState,
    update: TransitionUpdate,
    reason: &str,
    now: Timestamp,
    found: Result<Option<TerminalDeliveryRecordV1>, TerminalDeliveryError>,
    r: Result<TerminalDeliveryRecordV1, TerminalDeliveryError>,
)
    requires
        call_ensures(TerminalDeliveryRepository::get, (&*old(repo), key), found),
        call_ensures(
            TerminalDeliveryRepository::transition,
            (repo, key, revision, new_state, update, reason, now),
            r,
        ),
        found is Ok,
        unique_rows(old(repo)@.rows),
        forall|i: int|
            0 <= i < old(repo)@.rows.len() ==> canonical_numbers(#[trigger] old(repo)@.rows[i]),
        now.reads_back(),
        update.next_attempt_at is Some ==> readable(update.next_attempt_at->0),
        update.delivery_started_at is Some ==> readable(update.delivery_started_at->0),
        found->Ok_0 is Some ==> {
            &&& readable(found->Ok_0->0.next_attempt_at)
            &&& readable(found->Ok_0->0.delivery_started_at)
            &&& readable(found->Ok_0->0.delivered_at)
        },
    ensures
        r is Err ==> final(repo)@ == old(repo)@,
        if !auditable(reason@) {
            r is Err && r->Err_0 is UnsafeAuditField && r->Err_0->UnsafeAuditField_0@
                == "safe_reason_code"@
        } else if !auditable_change(update.last_failure_classification) || !auditable_change(
            update.last_safe_error,
        ) || !auditable_change(update.operator_hold_reason) {
            r is Err && r->Err_0 is UnsafeAuditField && r->Err_0->UnsafeAuditField_0@ == "safe field"@
        } else if found->Ok_0 is None {
            r is Err && r->Err_0 is InvalidInput && r->Err_0->InvalidInput_0@
                == "terminal_delivery_key"@
        } else {
            let before = found->Ok_0->0;
            if before.state is Delivered || before.state is PermanentRejected {
                r is Err && r->Err_0 is ImmutableTerminalState
                    && r->Err_0->ImmutableTerminalState_0 == before.state
            } else if before.state_revision != revision {
                r is Err && r->Err_0 is RevisionConflict && r->Err_0->expected == revision
                    && r->Err_0->actual == before.state_revision
            } else if !approved(before.state, new_state) {
                r is Err && r->Err_0 is IllegalTransition && r->Err_0->from == before.state
                    && r->Err_0->to == new_state
            } else if update.attempt_count is Some && update.attempt_count->0
                < before.attempt_count {
                r is Err && r->Err_0 is InvalidInput && r->Err_0->InvalidInput_0@
                    == "attempt_count must be monotonic"@
            } else if before.discord_message_id is Some && update.discord_message_id is Some {
                r is Err && r->Err_0 is DiscordMessageIdWriteOnce
            } else if revision == u64::MAX {
                r is Err && r->Err_0 is InvalidInput && r->Err_0->InvalidInput_0@
                    == "state_revision overflow"@
            } else if update.discord_message_id is Some && held_elsewhere(
                old(repo)@.rows,
                key@,
                update.discord_message_id->0@,
            ) {
                r is Err && r->Err_0 is Storage && r->Err_0->Storage_0@
                    == "UNIQUE constraint failed: terminal_deliveries.platform, terminal_deliveries.discord_message_id"@
            } else {
                r is Ok
            }
        },
{
    let rows = old(repo)@.rows;
    let at = key_place(rows, key@);
    lemma_key_place(rows, key@);
    lemma_auditable(reason@);
    lemma_auditable_change(update.last_failure_classification);
    lemma_auditable_change(update.last_safe_error);
    lemma_auditable_change(update.operator_hold_reason);
    if at < rows.len() {
        assert(canonical_numbers(rows[at]));
        let before = stored(rows[at])->Ok_0;
        let row = advanced(rows[at], before, new_state, update@, now);
        state_name_round_trip(new_state);
        decimal_round_trip((before.state_revision + 1) as u64);
        decimal_round_trip(before.attempt_count);
        if update.attempt_count is Some {
            decimal_round_trip(update.attempt_count->0);
        }
        if update.discord_message_id is None && message_taken(rows, at, row) {
            let j = choose|j: int|
                0 <= j < rows.len() && j != at && (#[trigger] rows[j]).platform == row.platform
                    && rows[j].discord_message_id == row.discord_message_id;
            if j < at {
                assert(rows[j].discord_message_id != rows[at].discord_message_id);
            } else {
                assert(rows[at].discord_message_id != rows[j].discord_message_id);
            }
        }
        if update.discord_message_id is Some {
            let id = update.discord_message_id->0@;
            if message_taken(rows, at, row) {
                let j = choose|j: int|
                    0 <= j < rows.len() && j != at && (#[trigger] rows[j]).platform == row.platform
                        && rows[j].discord_message_id == row.discord_message_id;
                assert(rows[j].discord_message_id == Some(id));
            }
            if held_elsewhere(rows, key@, id) {
                let j = choose|i: int|
                    0 <= i < rows.len() && i != at && (#[trigger] rows[i]).platform
                        == rows[at].platform && rows[i].discord_message_id == Some(id);
                assert(rows[j].platform == row.platform);
            }
        }
    }
}

} // verus!
