//! What every operation on a database of deliveries keeps.

use vstd::prelude::*;

use crate::clock::Timestamp;
use crate::decimal::{decimal, decimal_denotes, decimal_round_trip, is_digit, parsed_u64};
use crate::digest::text_digest;
use crate::json::{canonical_json, json_string, json_string_is_read_back};

use super::identity::{
    blank, created_from, delivery_key, key_material, new_fault, no_change, normalized,
    UpdateText,
};
use super::record::{event_row_fault, row_record, EventRowText, EventText, NewText, RecordText, RowText};
use super::repository::{
    advanced, create_step, created_event, key_place, logged, looked_up, message_taken, new_row, new_slot, open_fault,
    opened_row_fault, row_slot, rows_fault, slot_place, step_event, step_fault, step_is_due, step_reads_back, stored,
    transition_step, RepositoryText, SlotText,
};
use super::state::{
    state_name_round_trip, state_named, Fault, TerminalDeliveryState, TERMINAL_DELIVERY_PAYLOAD_CONFLICT,
};

verus! {

pub(crate) proof fn lemma_key_place(rows: Seq<RowText>, key: Seq<char>)
    ensures
        0 <= key_place(rows, key) <= rows.len(),
        key_place(rows, key) < rows.len() ==> rows[key_place(rows, key)].terminal_delivery_key
            == key,
        forall|k: int|
            0 <= k < key_place(rows, key) ==> (#[trigger] rows[k]).terminal_delivery_key != key,
    decreases rows.len(),
{
    if rows.len() > 0 && rows[0].terminal_delivery_key != key {
        let rest = rows.skip(1);
        lemma_key_place(rest, key);
        assert forall|k: int| 0 <= k < key_place(rows, key) implies (
        #[trigger] rows[k]).terminal_delivery_key != key by {
            if k > 0 {
                assert(rest[k - 1] == rows[k]);
            }
        }
    }
}

pub(crate) proof fn lemma_slot_place(rows: Seq<RowText>, slot: SlotText)
    ensures
        0 <= slot_place(rows, slot) <= rows.len(),
        slot_place(rows, slot) < rows.len() ==> row_slot(rows[slot_place(rows, slot)]) == slot,
        forall|k: int| 0 <= k < slot_place(rows, slot) ==> row_slot(#[trigger] rows[k]) != slot,
    decreases rows.len(),
{
    if rows.len() > 0 && row_slot(rows[0]) != slot {
        let rest = rows.skip(1);
        lemma_slot_place(rest, slot);
        assert forall|k: int| 0 <= k < slot_place(rows, slot) implies row_slot(#[trigger] rows[k])
            != slot by {
            if k > 0 {
                assert(rest[k - 1] == rows[k]);
            }
        }
    }
}

/// An operation that fails leaves the rows and the log as they were.
pub proof fn failure_changes_nothing(
    repo: RepositoryText,
    n: NewText,
    key: Seq<char>,
    expected_revision: u64,
    new_state: TerminalDeliveryState,
    u: UpdateText,
    reason: Seq<char>,
    now: Timestamp,
)
    ensures
        create_step(repo, n, now).1 is Err ==> create_step(repo, n, now).0 == repo,
        ({
            let (after, r) = transition_step(
                repo,
                key,
                expected_revision,
                new_state,
                u,
                reason,
                now,
            );
            r is Err ==> after == repo
        }),
{
}

/// The log only grows: by one entry for a delivery that is created or takes a
/// step, and by none otherwise. The path never changes.
pub proof fn log_is_append_only(
    repo: RepositoryText,
    n: NewText,
    key: Seq<char>,
    expected_revision: u64,
    new_state: TerminalDeliveryState,
    u: UpdateText,
    reason: Seq<char>,
    now: Timestamp,
)
    ensures
        ({
            let after = create_step(repo, n, now).0;
            &&& after.database_path == repo.database_path
            &&& repo.log.is_prefix_of(after.log)
            &&& after.log.len() - repo.log.len() == after.rows.len() - repo.rows.len()
            &&& after.log.len() <= repo.log.len() + 1
        }),
        ({
            let (after, r) = transition_step(
                repo,
                key,
                expected_revision,
                new_state,
                u,
                reason,
                now,
            );
            &&& after.database_path == repo.database_path
            &&& repo.log.is_prefix_of(after.log)
            &&& after.log.len() == repo.log.len() + if r is Ok {
                1int
            } else {
                0int
            }
        }),
{
}

/// Everything that a row holds from its creation on.
pub open spec fn same_delivery(a: RowText, b: RowText) -> bool {
    &&& a.record_version == b.record_version
    &&& a.terminal_delivery_key == b.terminal_delivery_key
    &&& a.openab_inbound_turn_id == b.openab_inbound_turn_id
    &&& a.platform == b.platform
    &&& a.channel_id == b.channel_id
    &&& a.thread_id == b.thread_id
    &&& a.acp_request_id == b.acp_request_id
    &&& a.acp_session_id == b.acp_session_id
    &&& a.runtime_run_id == b.runtime_run_id
    &&& a.workflow_run_id == b.workflow_run_id
    &&& a.conversation_id == b.conversation_id
    &&& a.response_sequence == b.response_sequence
    &&& a.terminal_payload == b.terminal_payload
    &&& a.terminal_payload_digest == b.terminal_payload_digest
    &&& a.created_at == b.created_at
}

/// No row disappears, and no operation changes what a delivery was created with.
pub proof fn deliveries_are_kept(
    repo: RepositoryText,
    n: NewText,
    key: Seq<char>,
    expected_revision: u64,
    new_state: TerminalDeliveryState,
    u: UpdateText,
    reason: Seq<char>,
    now: Timestamp,
)
    ensures
        repo.rows.is_prefix_of(create_step(repo, n, now).0.rows),
        ({
            let after = transition_step(
                repo,
                key,
                expected_revision,
                new_state,
                u,
                reason,
                now,
            ).0;
            &&& after.rows.len() == repo.rows.len()
            &&& forall|i: int|
                0 <= i < repo.rows.len() ==> same_delivery(#[trigger] after.rows[i], repo.rows[i])
        }),
{
    lemma_key_place(repo.rows, key);
}

/// A delivery in a terminal state is never changed again.
pub proof fn terminal_rows_are_immutable(
    repo: RepositoryText,
    i: int,
    n: NewText,
    key: Seq<char>,
    expected_revision: u64,
    new_state: TerminalDeliveryState,
    u: UpdateText,
    reason: Seq<char>,
    now: Timestamp,
)
    requires
        0 <= i < repo.rows.len(),
        stored(repo.rows[i]) is Ok,
        stored(repo.rows[i])->Ok_0.state.terminal(),
    ensures
        create_step(repo, n, now).0.rows[i] == repo.rows[i],
        transition_step(repo, key, expected_revision, new_state, u, reason, now).0.rows[i]
            == repo.rows[i],
{
    lemma_key_place(repo.rows, key);
}

/// A row's numbers are stored in canonical decimal.
pub open spec fn canonical_numbers(row: RowText) -> bool {
    &&& parsed_u64(row.state_revision) is Some
    &&& row.state_revision == decimal(parsed_u64(row.state_revision)->0 as nat)
}

/// A step that succeeds leads to the requested state over an approved edge, counts
/// the revision up by one, never counts attempts down, and sets a message id at
/// most once. A step at any other revision is refused.
pub proof fn steps_move_on(
    repo: RepositoryText,
    key: Seq<char>,
    expected_revision: u64,
    new_state: TerminalDeliveryState,
    u: UpdateText,
    reason: Seq<char>,
    now: Timestamp,
)
    requires
        forall|i: int| 0 <= i < repo.rows.len() ==> canonical_numbers(#[trigger] repo.rows[i]),
    ensures
        ({
            let (after, r) = transition_step(
                repo,
                key,
                expected_revision,
                new_state,
                u,
                reason,
                now,
            );
            let at = key_place(repo.rows, key);
            r is Ok ==> {
                let before = stored(repo.rows[at])->Ok_0;
                let updated = r->Ok_0;
                &&& at < repo.rows.len() && stored(repo.rows[at]) is Ok
                &&& stored(after.rows[at]) == r
                &&& before.state_revision == expected_revision
                &&& before.state.may_become(new_state)
                &&& updated.state == new_state
                &&& updated.state_revision == before.state_revision + 1
                &&& updated.attempt_count >= before.attempt_count
                &&& before.discord_message_id is Some ==> updated.discord_message_id
                    == before.discord_message_id
                &&& u.discord_message_id is Some ==> updated.discord_message_id
                    == u.discord_message_id
                &&& updated.terminal_payload == before.terminal_payload
                &&& canonical_numbers(after.rows[at])
            }
        }),
{
    let at = key_place(repo.rows, key);
    lemma_key_place(repo.rows, key);
    let (after, r) = transition_step(repo, key, expected_revision, new_state, u, reason, now);
    if r is Ok {
        assert(canonical_numbers(repo.rows[at]));
        let before = stored(repo.rows[at])->Ok_0;
        let row = advanced(repo.rows[at], before, new_state, u, now);
        assert(after.rows[at] == row);
        state_name_round_trip(new_state);
        decimal_round_trip((before.state_revision + 1) as u64);
        decimal_round_trip(before.attempt_count);
        if u.attempt_count is Some {
            decimal_round_trip(u.attempt_count->0);
        }
    }
}

/// A step that nothing speaks against succeeds, provided that the points in time
/// that it writes read back from their text.
pub proof fn due_step_succeeds(
    repo: RepositoryText,
    key: Seq<char>,
    expected_revision: u64,
    new_state: TerminalDeliveryState,
    u: UpdateText,
    reason: Seq<char>,
    now: Timestamp,
)
    requires
        step_is_due(repo, key, expected_revision, new_state, u, reason, now),
        step_reads_back(
            stored(repo.rows[key_place(repo.rows, key)])->Ok_0,
            new_state,
            u,
            now,
        ),
    ensures
        transition_step(repo, key, expected_revision, new_state, u, reason, now).1 is Ok,
{
    let row = repo.rows[key_place(repo.rows, key)];
    let before = stored(row)->Ok_0;
    state_name_round_trip(new_state);
    decimal_round_trip((before.state_revision + 1) as u64);
    decimal_round_trip(before.attempt_count);
    if u.attempt_count is Some {
        decimal_round_trip(u.attempt_count->0);
    }
    assert(stored(advanced(row, before, new_state, u, now)) is Ok);
}

/// Every operation keeps the revisions of all rows in canonical decimal.
pub proof fn revisions_stay_canonical(
    repo: RepositoryText,
    n: NewText,
    key: Seq<char>,
    expected_revision: u64,
    new_state: TerminalDeliveryState,
    u: UpdateText,
    reason: Seq<char>,
    now: Timestamp,
)
    requires
        forall|i: int| 0 <= i < repo.rows.len() ==> canonical_numbers(#[trigger] repo.rows[i]),
    ensures
        ({
            let rows = create_step(repo, n, now).0.rows;
            forall|i: int| 0 <= i < rows.len() ==> canonical_numbers(#[trigger] rows[i])
        }),
        ({
            let rows = transition_step(
                repo,
                key,
                expected_revision,
                new_state,
                u,
                reason,
                now,
            ).0.rows;
            forall|i: int| 0 <= i < rows.len() ==> canonical_numbers(#[trigger] rows[i])
        }),
{
    lemma_zero();
    lemma_key_place(repo.rows, key);
    steps_move_on(repo, key, expected_revision, new_state, u, reason, now);
    let created = create_step(repo, n, now).0.rows;
    assert forall|i: int| 0 <= i < created.len() implies canonical_numbers(#[trigger] created[i]) by {
        if i < repo.rows.len() {
            assert(created[i] == repo.rows[i]);
        }
    }
    let (after, r) = transition_step(repo, key, expected_revision, new_state, u, reason, now);
    assert forall|i: int| 0 <= i < after.rows.len() implies canonical_numbers(
        #[trigger] after.rows[i],
    ) by {
        if i != key_place(repo.rows, key) {
            assert(after.rows[i] == repo.rows[i]);
        } else if r is Err {
            assert(canonical_numbers(repo.rows[i]));
        }
    }
}

/// No two rows share a key, a slot, or a message id on one platform.
pub open spec fn unique_rows(rows: Seq<RowText>) -> bool {
    forall|i: int, j: int|
        0 <= i < j < rows.len() ==> {
            &&& (#[trigger] rows[i]).terminal_delivery_key != (
            #[trigger] rows[j]).terminal_delivery_key
            &&& row_slot(rows[i]) != row_slot(rows[j])
            &&& rows[i].discord_message_id is Some && rows[i].platform == rows[j].platform
                ==> rows[i].discord_message_id != rows[j].discord_message_id
        }
}

/// Every operation keeps keys, slots and message ids unique.
pub proof fn uniqueness_is_kept(
    repo: RepositoryText,
    n: NewText,
    key: Seq<char>,
    expected_revision: u64,
    new_state: TerminalDeliveryState,
    u: UpdateText,
    reason: Seq<char>,
    now: Timestamp,
)
    requires
        unique_rows(repo.rows),
    ensures
        unique_rows(create_step(repo, n, now).0.rows),
        unique_rows(
            transition_step(repo, key, expected_revision, new_state, u, reason, now).0.rows,
        ),
{
    lemma_key_place(repo.rows, key);
    lemma_key_place(repo.rows, delivery_key(n));
    lemma_slot_place(repo.rows, new_slot(n));
    let created = create_step(repo, n, now).0.rows;
    assert(unique_rows(created)) by {
        if created.len() > repo.rows.len() {
            let row = new_row(n, now);
            assert(row_slot(row) == new_slot(n));
            assert forall|i: int, j: int| 0 <= i < j < created.len() implies {
                &&& (#[trigger] created[i]).terminal_delivery_key != (
                #[trigger] created[j]).terminal_delivery_key
                &&& row_slot(created[i]) != row_slot(created[j])
                &&& created[i].discord_message_id is Some && created[i].platform
                    == created[j].platform ==> created[i].discord_message_id
                    != created[j].discord_message_id
            } by {
                assert(created[i] == repo.rows[i]);
                if j == repo.rows.len() {
                    assert(created[j] == row);
                } else {
                    assert(created[j] == repo.rows[j]);
                }
            }
        }
    }
    let (after, r) = transition_step(repo, key, expected_revision, new_state, u, reason, now);
    if r is Ok {
        let at = key_place(repo.rows, key);
        let row = after.rows[at];
        assert(row_slot(row) == row_slot(repo.rows[at]));
        assert(!message_taken(repo.rows, at, row));
        assert forall|i: int, j: int| 0 <= i < j < after.rows.len() implies {
            &&& (#[trigger] after.rows[i]).terminal_delivery_key != (
            #[trigger] after.rows[j]).terminal_delivery_key
            &&& row_slot(after.rows[i]) != row_slot(after.rows[j])
            &&& after.rows[i].discord_message_id is Some && after.rows[i].platform
                == after.rows[j].platform ==> after.rows[i].discord_message_id
                != after.rows[j].discord_message_id
        } by {
            assert(repo.rows[i].terminal_delivery_key != repo.rows[j].terminal_delivery_key);
            if i == at {
                assert(after.rows[j] == repo.rows[j]);
            } else {
                assert(after.rows[i] == repo.rows[i]);
            }
        }
    }
}

/// A delivery that was created is found again: the same input at a later time
/// gives the same record and changes nothing.
pub proof fn creating_again_is_a_replay(
    repo: RepositoryText,
    n: NewText,
    now: Timestamp,
    later: Timestamp,
)
    requires
        create_step(repo, n, now).1 is Ok,
    ensures
        create_step(create_step(repo, n, now).0, n, later) == create_step(repo, n, now),
{
    let (after, r) = create_step(repo, n, now);
    lemma_key_place(repo.rows, delivery_key(n));
    lemma_key_place(after.rows, delivery_key(n));
    if after.rows.len() > repo.rows.len() {
        let last = repo.rows.len() as int;
        assert(after.rows[last] == new_row(n, now));
        let at = key_place(after.rows, delivery_key(n));
        if at < last {
            assert(after.rows[at] == repo.rows[at]);
        }
        if at > last {
            assert(after.rows[last].terminal_delivery_key != delivery_key(n));
        }
        assert(at == last);
    }
}

/// The transport session is no part of a delivery's identity: the same response
/// over another session is refused alike, and has the same key and slot.
pub proof fn session_is_no_identity(n: NewText, session: Seq<char>)
    ensures
        !blank(session) && !blank(n.acp_session_id) ==> new_fault(
            NewText { acp_session_id: session, ..n },
        ) == new_fault(n),
        delivery_key(NewText { acp_session_id: session, ..n }) == delivery_key(n),
        new_slot(NewText { acp_session_id: session, ..n }) == new_slot(n),
{
}

/// Once a response is recorded, another payload for its slot is refused, and the
/// same payload gives the record that is there.
pub proof fn slot_holds_one_payload(
    repo: RepositoryText,
    n: NewText,
    now: Timestamp,
    other: NewText,
    later: Timestamp,
)
    requires
        create_step(repo, n, now).1 is Ok,
        create_step(repo, n, now).0.rows.len() > repo.rows.len(),
        new_slot(other) == new_slot(n),
        new_fault(other) is None,
        key_place(create_step(repo, n, now).0.rows, delivery_key(other)) >= create_step(
            repo,
            n,
            now,
        ).0.rows.len(),
    ensures
        ({
            let (after, r) = create_step(repo, n, now);
            create_step(after, other, later) == (
                after,
                if text_digest(other.terminal_payload) == text_digest(n.terminal_payload) {
                    r
                } else {
                    Err(Fault::PayloadConflict(TERMINAL_DELIVERY_PAYLOAD_CONFLICT@))
                },
            )
        }),
{
    let (after, r) = create_step(repo, n, now);
    lemma_slot_place(repo.rows, new_slot(n));
    lemma_slot_place(after.rows, new_slot(n));
    let last = repo.rows.len() as int;
    let row = new_row(n, now);
    assert(after.rows[last] == row);
    assert(row_slot(row) == new_slot(n));
    let at = slot_place(after.rows, new_slot(n));
    if at < last {
        assert(after.rows[at] == repo.rows[at]);
    }
    if at > last {
        assert(row_slot(after.rows[last]) != new_slot(n));
    }
    assert(at == last);
}

/// A response that fills a free slot is recorded as pending at revision 0,
/// provided that its payload and the time read back from their text.
pub proof fn new_response_is_recorded(repo: RepositoryText, n: NewText, now: Timestamp)
    requires
        new_fault(n) is None,
        key_place(repo.rows, delivery_key(n)) >= repo.rows.len(),
        slot_place(repo.rows, new_slot(n)) >= repo.rows.len(),
        canonical_json(n.terminal_payload) is Some,
        now.reads_back(),
    ensures
        ({
            let (after, r) = create_step(repo, n, now);
            &&& r is Ok
            &&& r->Ok_0.state is PendingResult
            &&& r->Ok_0.state_revision == 0
            &&& r->Ok_0.attempt_count == 0
            &&& r->Ok_0.terminal_delivery_key == delivery_key(n)
            &&& r->Ok_0.response_sequence == n.response_sequence
            &&& r->Ok_0.created_at == now.to_micros()
            &&& r->Ok_0.updated_at == now.to_micros()
            &&& after.rows == repo.rows.push(new_row(n, now))
            &&& after.log == repo.log.push(created_event(delivery_key(n), now))
        }),
{
    lemma_zero();
    decimal_round_trip(n.response_sequence);
    state_name_round_trip(TerminalDeliveryState::PendingResult);
}

proof fn lemma_zero()
    ensures
        "0"@ == decimal(0),
        parsed_u64("0"@) == Some(0u64),
{
    reveal_strlit("0");
    assert("0"@ =~= decimal(0));
    decimal_round_trip(0);
}

pub(crate) proof fn lemma_rows_fault(rows: Seq<RowText>)
    ensures
        rows_fault(rows) is None <==> forall|i: int|
            0 <= i < rows.len() ==> opened_row_fault(#[trigger] rows[i]) is None,
    decreases rows.len(),
{
    if rows.len() > 0 {
        let init = rows.drop_last();
        lemma_rows_fault(init);
        if rows_fault(rows) is None {
            assert forall|i: int| 0 <= i < rows.len() implies opened_row_fault(#[trigger] rows[i])
                is None by {
                if i < init.len() {
                    assert(init[i] == rows[i]);
                }
            }
        }
        if forall|i: int| 0 <= i < rows.len() ==> opened_row_fault(#[trigger] rows[i]) is None {
            assert forall|i: int| 0 <= i < init.len() implies opened_row_fault(#[trigger] init[i])
                is None by {
                assert(init[i] == rows[i]);
            }
            assert(opened_row_fault(rows[rows.len() - 1]) is None);
        }
    }
}

/// A database that can be opened can be opened again after any step of a
/// delivery, and after any creation whose payload reads back as it was written.
pub proof fn databases_reopen(
    repo: RepositoryText,
    n: NewText,
    key: Seq<char>,
    expected_revision: u64,
    new_state: TerminalDeliveryState,
    u: UpdateText,
    reason: Seq<char>,
    now: Timestamp,
)
    requires
        open_fault(1, "ok"@, repo.rows) is None,
    ensures
        open_fault(
            1,
            "ok"@,
            transition_step(repo, key, expected_revision, new_state, u, reason, now).0.rows,
        ) is None,
        canonical_json(n.terminal_payload) == Some(n.terminal_payload) ==> open_fault(
            1,
            "ok"@,
            create_step(repo, n, now).0.rows,
        ) is None,
{
    lemma_rows_fault(repo.rows);
    lemma_key_place(repo.rows, key);
    reveal(opened_row_fault);
    let (after, r) = transition_step(repo, key, expected_revision, new_state, u, reason, now);
    lemma_rows_fault(after.rows);
    if r is Ok {
        let at = key_place(repo.rows, key);
        let old_row = repo.rows[at];
        let row = after.rows[at];
        assert(opened_row_fault(old_row) is None);
        let before = row_record(old_row);
        assert(created_from(row_record(row)) == created_from(before));
        assert(opened_row_fault(row) is None);
        assert forall|i: int| 0 <= i < after.rows.len() implies opened_row_fault(
            #[trigger] after.rows[i],
        ) is None by {
            if i != at {
                assert(after.rows[i] == repo.rows[i]);
            }
        }
    }
    let (created, c) = create_step(repo, n, now);
    lemma_rows_fault(created.rows);
    if canonical_json(n.terminal_payload) == Some(n.terminal_payload) && created.rows.len()
        > repo.rows.len() {
        let row = new_row(n, now);
        decimal_round_trip(n.response_sequence);
        assert(created_from(row_record(row)) == n);
        assert(opened_row_fault(row) is None);
        assert forall|i: int| 0 <= i < created.rows.len() implies opened_row_fault(
            #[trigger] created.rows[i],
        ) is None by {
            if i < repo.rows.len() {
                assert(created.rows[i] == repo.rows[i]);
            } else {
                assert(created.rows[i] == row);
            }
        }
    }
}

pub(crate) proof fn lemma_found_at(rows: Seq<RowText>, i: int)
    requires
        unique_rows(rows),
        0 <= i < rows.len(),
    ensures
        key_place(rows, rows[i].terminal_delivery_key) == i,
{
    let key = rows[i].terminal_delivery_key;
    lemma_key_place(rows, key);
    let at = key_place(rows, key);
    if at < i {
        assert(rows[at].terminal_delivery_key != rows[i].terminal_delivery_key);
    } else if i < at {
        assert(rows[i].terminal_delivery_key != key);
    }
}

/// What an operation returned is what is found under its key afterwards.
pub proof fn written_records_are_found(
    repo: RepositoryText,
    n: NewText,
    key: Seq<char>,
    expected_revision: u64,
    new_state: TerminalDeliveryState,
    u: UpdateText,
    reason: Seq<char>,
    now: Timestamp,
)
    requires
        unique_rows(repo.rows),
    ensures
        ({
            let (after, r) = create_step(repo, n, now);
            r is Ok ==> looked_up(after.rows, r->Ok_0.terminal_delivery_key) == Ok::<
                Option<RecordText>,
                Fault,
            >(Some(r->Ok_0))
        }),
        ({
            let (after, r) = transition_step(
                repo,
                key,
                expected_revision,
                new_state,
                u,
                reason,
                now,
            );
            r is Ok ==> looked_up(after.rows, key) == Ok::<Option<RecordText>, Fault>(
                Some(r->Ok_0),
            )
        }),
{
    uniqueness_is_kept(repo, n, key, expected_revision, new_state, u, reason, now);
    lemma_key_place(repo.rows, delivery_key(n));
    lemma_slot_place(repo.rows, new_slot(n));
    lemma_key_place(repo.rows, key);
    let (created, c) = create_step(repo, n, now);
    if c is Ok {
        let keyed = key_place(repo.rows, delivery_key(n));
        let slotted = slot_place(repo.rows, new_slot(n));
        if keyed < repo.rows.len() {
            lemma_found_at(repo.rows, keyed);
        } else if slotted < repo.rows.len() {
            lemma_found_at(repo.rows, slotted);
        } else {
            assert(created.rows[repo.rows.len() as int] == new_row(n, now));
            lemma_found_at(created.rows, repo.rows.len() as int);
        }
    }
    let (after, r) = transition_step(repo, key, expected_revision, new_state, u, reason, now);
    if r is Ok {
        let at = key_place(repo.rows, key);
        assert(after.rows[at].terminal_delivery_key == key);
        lemma_found_at(after.rows, at);
    }
}

/// Each step is told by one more event: where it started, where it led, at which
/// revision, why, and when to the microsecond. The events of other deliveries stay
/// as they were.
pub proof fn events_tell_each_step(
    repo: RepositoryText,
    key: Seq<char>,
    expected_revision: u64,
    new_state: TerminalDeliveryState,
    u: UpdateText,
    reason: Seq<char>,
    now: Timestamp,
    other: Seq<char>,
)
    requires
        now.reads_back(),
        logged(repo.log, key) is Ok,
        other != key,
        transition_step(repo, key, expected_revision, new_state, u, reason, now).1 is Ok,
    ensures
        ({
            let after = transition_step(
                repo,
                key,
                expected_revision,
                new_state,
                u,
                reason,
                now,
            ).0;
            let before = stored(repo.rows[key_place(repo.rows, key)])->Ok_0;
            &&& logged(after.log, key) == Ok::<Seq<EventText>, Fault>(
                logged(repo.log, key)->Ok_0.push(
                    EventText {
                        terminal_delivery_key: key,
                        previous_state: Some(before.state),
                        new_state,
                        state_revision: (before.state_revision + 1) as u64,
                        safe_reason_code: reason,
                        timestamp: now.to_micros(),
                    },
                ),
            )
            &&& logged(after.log, other) == logged(repo.log, other)
        }),
{
    let before = stored(repo.rows[key_place(repo.rows, key)])->Ok_0;
    let e = step_event(key, before, new_state, reason, now);
    let after = transition_step(repo, key, expected_revision, new_state, u, reason, now).0;
    assert(after.log == repo.log.push(e));
    assert(after.log.drop_last() =~= repo.log);
    state_name_round_trip(before.state);
    state_name_round_trip(new_state);
    decimal_round_trip((before.state_revision + 1) as u64);
    match logged(repo.log, other) {
        Ok(_) => {},
        Err(_) => {},
    }
}

/// The log entries of one delivery.
pub open spec fn trail(log: Seq<EventRowText>, key: Seq<char>) -> Seq<EventRowText>
    decreases log.len(),
{
    if log.len() == 0 {
        Seq::empty()
    } else if log.last().terminal_delivery_key == key {
        trail(log.drop_last(), key).push(log.last())
    } else {
        trail(log.drop_last(), key)
    }
}

/// A trail tells how a delivery came to a state at a revision: it starts with the
/// creation, has one entry for each revision, and each entry takes an approved
/// step from where the one before led.
pub open spec fn trail_leads_to(t: Seq<EventRowText>, state: Seq<char>, revision: Seq<char>) -> bool {
    &&& t.len() > 0
    &&& t[0].previous_state is None
    &&& t[0].new_state == TerminalDeliveryState::PendingResult.text()
    &&& t[0].safe_reason_code == "CREATED"@
    &&& forall|k: int| 0 <= k < t.len() ==> (#[trigger] t[k]).state_revision == decimal(k as nat)
    &&& forall|k: int| 0 < k < t.len() ==> approved_entry(t, k)
    &&& t.last().new_state == state
    &&& revision == decimal((t.len() - 1) as nat)
}

/// Entry `k` takes an approved step from where the entry before it led.
pub open spec fn approved_entry(t: Seq<EventRowText>, k: int) -> bool {
    &&& t[k].previous_state == Some(t[k - 1].new_state)
    &&& state_named(t[k - 1].new_state) is Some
    &&& state_named(t[k].new_state) is Some
    &&& state_named(t[k - 1].new_state)->0.may_become(state_named(t[k].new_state)->0)
}

/// The log accounts for every row, speaks of no other delivery, and can be read.
pub open spec fn audited(repo: RepositoryText) -> bool {
    &&& unique_rows(repo.rows)
    &&& forall|i: int|
        0 <= i < repo.rows.len() ==> trail_leads_to(
            trail(repo.log, (#[trigger] repo.rows[i]).terminal_delivery_key),
            repo.rows[i].state,
            repo.rows[i].state_revision,
        )
    &&& forall|e: int|
        0 <= e < repo.log.len() ==> key_place(
            repo.rows,
            (#[trigger] repo.log[e]).terminal_delivery_key,
        ) < repo.rows.len() && event_row_fault(repo.log[e]) is None
}

proof fn lemma_trail_push(log: Seq<EventRowText>, e: EventRowText, key: Seq<char>)
    ensures
        trail(log.push(e), key) == if e.terminal_delivery_key == key {
            trail(log, key).push(e)
        } else {
            trail(log, key)
        },
{
    assert(log.push(e).drop_last() =~= log);
}

pub(crate) proof fn lemma_no_trail(log: Seq<EventRowText>, key: Seq<char>)
    requires
        forall|e: int| 0 <= e < log.len() ==> (#[trigger] log[e]).terminal_delivery_key != key,
    ensures
        trail(log, key) == Seq::<EventRowText>::empty(),
    decreases log.len(),
{
    if log.len() > 0 {
        let init = log.drop_last();
        assert forall|e: int| 0 <= e < init.len() implies (#[trigger] init[e]).terminal_delivery_key
            != key by {
            assert(init[e] == log[e]);
        }
        lemma_no_trail(init, key);
        assert(log[log.len() - 1].terminal_delivery_key != key);
    }
}

proof fn lemma_found(rows: Seq<RowText>, key: Seq<char>, i: int)
    requires
        0 <= i < rows.len(),
        rows[i].terminal_delivery_key == key,
    ensures
        key_place(rows, key) <= i,
{
    lemma_key_place(rows, key);
}

proof fn lemma_create_is_audited(repo: RepositoryText, n: NewText, now: Timestamp)
    requires
        audited(repo),
    ensures
        audited(create_step(repo, n, now).0),
{
    let (after, r) = create_step(repo, n, now);
    uniqueness_is_kept(
        repo,
        n,
        Seq::empty(),
        0,
        TerminalDeliveryState::PendingResult,
        no_change(),
        Seq::empty(),
        now,
    );
    if after.rows.len() > repo.rows.len() {
        let key = delivery_key(n);
        let row = new_row(n, now);
        let e = created_event(key, now);
        let last = repo.rows.len() as int;
        lemma_key_place(repo.rows, key);
        assert(trail(repo.log, key) =~= Seq::empty()) by {
            assert forall|x: int| 0 <= x < repo.log.len() implies (
            #[trigger] repo.log[x]).terminal_delivery_key != key by {
                assert(key_place(repo.rows, repo.log[x].terminal_delivery_key) < repo.rows.len());
            }
            lemma_no_trail(repo.log, key);
        }
        lemma_zero();
        lemma_trail_push(repo.log, e, key);
        assert(trail(after.log, key) =~= seq![e]);
        assert forall|i: int| 0 <= i < after.rows.len() implies trail_leads_to(
            trail(after.log, (#[trigger] after.rows[i]).terminal_delivery_key),
            after.rows[i].state,
            after.rows[i].state_revision,
        ) by {
            if i < last {
                assert(after.rows[i] == repo.rows[i]);
                assert(repo.rows[i].terminal_delivery_key != key);
                lemma_trail_push(repo.log, e, repo.rows[i].terminal_delivery_key);
            } else {
                assert(after.rows[i] == row);
            }
        }
        state_name_round_trip(TerminalDeliveryState::PendingResult);
        assert(event_row_fault(e) is None);
        assert forall|x: int| 0 <= x < after.log.len() implies key_place(
            after.rows,
            (#[trigger] after.log[x]).terminal_delivery_key,
        ) < after.rows.len() && event_row_fault(after.log[x]) is None by {
            if x < repo.log.len() {
                let k = repo.log[x].terminal_delivery_key;
                assert(after.log[x] == repo.log[x]);
                lemma_key_place(repo.rows, k);
                let i = key_place(repo.rows, k);
                assert(after.rows[i] == repo.rows[i]);
                lemma_found(after.rows, k, i);
            } else {
                assert(after.rows[last] == row);
                lemma_found(after.rows, key, last);
            }
        }
    }
}

proof fn lemma_step_extends(
    t: Seq<EventRowText>,
    row: RowText,
    key: Seq<char>,
    expected_revision: u64,
    new_state: TerminalDeliveryState,
    u: UpdateText,
    reason: Seq<char>,
    now: Timestamp,
)
    requires
        stored(row) is Ok,
        trail_leads_to(t, row.state, row.state_revision),
        step_fault(stored(row)->Ok_0, expected_revision, new_state, u) is None,
    ensures
        row.state_revision == decimal(expected_revision as nat),
        ({
            let next = advanced(row, stored(row)->Ok_0, new_state, u, now);
            trail_leads_to(
                t.push(step_event(key, stored(row)->Ok_0, new_state, reason, now)),
                next.state,
                next.state_revision,
            )
        }),
{
    let current = stored(row)->Ok_0;
    let e = step_event(key, current, new_state, reason, now);
    let more = t.push(e);
    decimal_denotes((t.len() - 1) as nat);
    assert(is_digit(decimal((t.len() - 1) as nat)[0]));
    assert(current.state_revision == t.len() - 1);
    assert(current.state.text() == row.state);
    state_name_round_trip(new_state);
    state_name_round_trip(current.state);
    assert forall|k: int| 0 <= k < more.len() implies (#[trigger] more[k]).state_revision == decimal(
        k as nat,
    ) by {
        if k < t.len() {
            assert(more[k] == t[k]);
        }
    }
    assert forall|k: int| 0 < k < more.len() implies approved_entry(more, k) by {
        assert(more[k - 1] == t[k - 1]);
        if k < t.len() {
            assert(more[k] == t[k]);
            assert(approved_entry(t, k));
        }
    }
}

proof fn lemma_step_is_audited(
    repo: RepositoryText,
    key: Seq<char>,
    expected_revision: u64,
    new_state: TerminalDeliveryState,
    u: UpdateText,
    reason: Seq<char>,
    now: Timestamp,
)
    requires
        audited(repo),
        unique_rows(
            transition_step(repo, key, expected_revision, new_state, u, reason, now).0.rows,
        ),
    ensures
        audited(transition_step(repo, key, expected_revision, new_state, u, reason, now).0),
{
    let (after, r) = transition_step(repo, key, expected_revision, new_state, u, reason, now);
    if r is Ok {
        let at = key_place(repo.rows, key);
        lemma_key_place(repo.rows, key);
        let old_row = repo.rows[at];
        let current = stored(old_row)->Ok_0;
        let e = step_event(key, current, new_state, reason, now);
        lemma_step_extends(
            trail(repo.log, key),
            old_row,
            key,
            expected_revision,
            new_state,
            u,
            reason,
            now,
        );
        assert(after.rows[at] == advanced(old_row, current, new_state, u, now));
        assert forall|i: int| 0 <= i < after.rows.len() implies trail_leads_to(
            trail(after.log, (#[trigger] after.rows[i]).terminal_delivery_key),
            after.rows[i].state,
            after.rows[i].state_revision,
        ) by {
            lemma_trail_push(repo.log, e, after.rows[i].terminal_delivery_key);
            if i != at {
                assert(after.rows[i] == repo.rows[i]);
                if i < at {
                    assert(repo.rows[i].terminal_delivery_key != repo.rows[at].terminal_delivery_key);
                } else {
                    assert(repo.rows[at].terminal_delivery_key != repo.rows[i].terminal_delivery_key);
                }
            }
        }
        state_name_round_trip(current.state);
        state_name_round_trip(new_state);
        decimal_round_trip((current.state_revision + 1) as u64);
        assert(event_row_fault(e) is None);
        assert forall|x: int| 0 <= x < after.log.len() implies key_place(
            after.rows,
            (#[trigger] after.log[x]).terminal_delivery_key,
        ) < after.rows.len() && event_row_fault(after.log[x]) is None by {
            if x < repo.log.len() {
                let k = repo.log[x].terminal_delivery_key;
                assert(after.log[x] == repo.log[x]);
                lemma_key_place(repo.rows, k);
                let i = key_place(repo.rows, k);
                assert(after.rows[i].terminal_delivery_key == repo.rows[i].terminal_delivery_key);
                lemma_found(after.rows, k, i);
            } else {
                lemma_found(after.rows, key, at);
            }
        }
    }
}

/// The log of a database accounts for every delivery, from its creation to its
/// state and revision: an empty database does so, and every operation keeps it so.
pub proof fn audit_trail_is_kept(
    repo: RepositoryText,
    n: NewText,
    key: Seq<char>,
    expected_revision: u64,
    new_state: TerminalDeliveryState,
    u: UpdateText,
    reason: Seq<char>,
    now: Timestamp,
)
    ensures
        repo.rows.len() == 0 && repo.log.len() == 0 ==> audited(repo),
        audited(repo) ==> audited(create_step(repo, n, now).0),
        audited(repo) ==> audited(
            transition_step(repo, key, expected_revision, new_state, u, reason, now).0,
        ),
{
    if audited(repo) {
        uniqueness_is_kept(repo, n, key, expected_revision, new_state, u, reason, now);
        lemma_create_is_audited(repo, n, now);
        lemma_step_is_audited(repo, key, expected_revision, new_state, u, reason, now);
    }
}

proof fn lemma_same_head(head: Seq<char>, a: Seq<char>, b: Seq<char>)
    requires
        head + a == head + b,
    ensures
        a == b,
{
    assert(a =~= (head + a).skip(head.len() as int));
    assert(b =~= (head + b).skip(head.len() as int));
}

proof fn lemma_same_number(a: nat, b: nat, u: Seq<char>, v: Seq<char>)
    requires
        decimal(a) + u == decimal(b) + v,
        u.len() > 0 && !is_digit(u[0]),
        v.len() > 0 && !is_digit(v[0]),
    ensures
        a == b,
        u == v,
{
    decimal_denotes(a);
    decimal_denotes(b);
    let s = decimal(a) + u;
    let n = decimal(a).len() as int;
    let m = decimal(b).len() as int;
    assert(s == decimal(b) + v);
    if n < m {
        assert(s[n] == u[0]);
        assert(s[n] == decimal(b)[n]);
    } else if m < n {
        assert(s[m] == v[0]);
        assert(s[m] == decimal(a)[m]);
    }
    assert(decimal(a) =~= s.take(n));
    assert(decimal(b) =~= s.take(n));
    assert(u =~= s.skip(n));
    assert(v =~= s.skip(n));
}

/// The tail of the key material from the sequence number on.
spec fn material_end(n: NewText) -> Seq<char> {
    decimal(n.response_sequence as nat) + (",\"terminal_payload\":"@ + (n.terminal_payload + "}"@))
}

/// The key material, grouped to the right.
spec fn material_parts(n: NewText) -> Seq<char> {
    "{\"record_version\":1,\"openab_inbound_turn_id\":"@ + (json_string(n.openab_inbound_turn_id)
        + (",\"platform\":"@ + (json_string(n.platform) + (",\"channel_id\":"@ + (json_string(
        n.channel_id,
    ) + (",\"thread_id_normalized\":"@ + (json_string(normalized(n.thread_id)) + (
    ",\"acp_request_id\":"@ + (json_string(n.acp_request_id) + (",\"runtime_run_id\":"@ + (
    json_string(n.runtime_run_id) + (",\"workflow_run_id_normalized\":"@ + (json_string(
        normalized(n.workflow_run_id),
    ) + (",\"conversation_id\":"@ + (json_string(n.conversation_id) + (",\"response_sequence\":"@
        + material_end(n)))))))))))))))))
}

proof fn lemma_regroup(a: Seq<char>, b: Seq<char>, c: Seq<char>)
    ensures
        (a + b) + c == a + (b + c),
{
    assert((a + b) + c =~= a + (b + c));
}

proof fn lemma_material(n: NewText)
    ensures
        key_material(n) == material_parts(n),
{
    let x0 = "{\"record_version\":1,\"openab_inbound_turn_id\":"@;
    let x1 = json_string(n.openab_inbound_turn_id);
    let x2 = ",\"platform\":"@;
    let x3 = json_string(n.platform);
    let x4 = ",\"channel_id\":"@;
    let x5 = json_string(n.channel_id);
    let x6 = ",\"thread_id_normalized\":"@;
    let x7 = json_string(normalized(n.thread_id));
    let x8 = ",\"acp_request_id\":"@;
    let x9 = json_string(n.acp_request_id);
    let x10 = ",\"runtime_run_id\":"@;
    let x11 = json_string(n.runtime_run_id);
    let x12 = ",\"workflow_run_id_normalized\":"@;
    let x13 = json_string(normalized(n.workflow_run_id));
    let x14 = ",\"conversation_id\":"@;
    let x15 = json_string(n.conversation_id);
    let x16 = ",\"response_sequence\":"@;
    let x17 = decimal(n.response_sequence as nat);
    let x18 = ",\"terminal_payload\":"@;
    let x19 = n.terminal_payload;
    let x20 = "}"@;
    let l0 = x0;
    let l1 = l0 + x1;
    let l2 = l1 + x2;
    let l3 = l2 + x3;
    let l4 = l3 + x4;
    let l5 = l4 + x5;
    let l6 = l5 + x6;
    let l7 = l6 + x7;
    let l8 = l7 + x8;
    let l9 = l8 + x9;
    let l10 = l9 + x10;
    let l11 = l10 + x11;
    let l12 = l11 + x12;
    let l13 = l12 + x13;
    let l14 = l13 + x14;
    let l15 = l14 + x15;
    let l16 = l15 + x16;
    let l17 = l16 + x17;
    let l18 = l17 + x18;
    let l19 = l18 + x19;
    let l20 = l19 + x20;
    let r20 = x20;
    let r19 = x19 + r20;
    let r18 = x18 + r19;
    let r17 = x17 + r18;
    let r16 = x16 + r17;
    let r15 = x15 + r16;
    let r14 = x14 + r15;
    let r13 = x13 + r14;
    let r12 = x12 + r13;
    let r11 = x11 + r12;
    let r10 = x10 + r11;
    let r9 = x9 + r10;
    let r8 = x8 + r9;
    let r7 = x7 + r8;
    let r6 = x6 + r7;
    let r5 = x5 + r6;
    let r4 = x4 + r5;
    let r3 = x3 + r4;
    let r2 = x2 + r3;
    let r1 = x1 + r2;
    lemma_regroup(l18, x19, r20);
    lemma_regroup(l17, x18, r19);
    lemma_regroup(l16, x17, r18);
    lemma_regroup(l15, x16, r17);
    lemma_regroup(l14, x15, r16);
    lemma_regroup(l13, x14, r15);
    lemma_regroup(l12, x13, r14);
    lemma_regroup(l11, x12, r13);
    lemma_regroup(l10, x11, r12);
    lemma_regroup(l9, x10, r11);
    lemma_regroup(l8, x9, r10);
    lemma_regroup(l7, x8, r9);
    lemma_regroup(l6, x7, r8);
    lemma_regroup(l5, x6, r7);
    lemma_regroup(l4, x5, r6);
    lemma_regroup(l3, x4, r5);
    lemma_regroup(l2, x3, r4);
    lemma_regroup(l1, x2, r3);
    lemma_regroup(l0, x1, r2);
}

/// The key digests the whole identity of a delivery: two inputs with the same key
/// material agree on everything but the transport session.
pub proof fn key_material_is_the_identity(a: NewText, b: NewText)
    requires
        key_material(a) == key_material(b),
    ensures
        a.openab_inbound_turn_id == b.openab_inbound_turn_id,
        a.platform == b.platform,
        a.channel_id == b.channel_id,
        normalized(a.thread_id) == normalized(b.thread_id),
        a.acp_request_id == b.acp_request_id,
        a.runtime_run_id == b.runtime_run_id,
        normalized(a.workflow_run_id) == normalized(
            b.workflow_run_id,
        ),
        a.conversation_id == b.conversation_id,
        a.response_sequence == b.response_sequence,
        a.terminal_payload == b.terminal_payload,
        new_slot(a) == new_slot(b),
{
    lemma_material(a);
    lemma_material(b);
    let ea = material_end(a);
    let eb = material_end(b);
    let sa = ",\"response_sequence\":"@ + ea;
    let sb = ",\"response_sequence\":"@ + eb;
    let ca = json_string(a.conversation_id) + sa;
    let cb = json_string(b.conversation_id) + sb;
    let wa = json_string(normalized(a.workflow_run_id)) + (
    ",\"conversation_id\":"@ + ca);
    let wb = json_string(normalized(b.workflow_run_id)) + (
    ",\"conversation_id\":"@ + cb);
    let ra = json_string(a.runtime_run_id) + (",\"workflow_run_id_normalized\":"@ + wa);
    let rb = json_string(b.runtime_run_id) + (",\"workflow_run_id_normalized\":"@ + wb);
    let qa = json_string(a.acp_request_id) + (",\"runtime_run_id\":"@ + ra);
    let qb = json_string(b.acp_request_id) + (",\"runtime_run_id\":"@ + rb);
    let ta = json_string(normalized(a.thread_id)) + (",\"acp_request_id\":"@ + qa);
    let tb = json_string(normalized(b.thread_id)) + (",\"acp_request_id\":"@ + qb);
    let ha = json_string(a.channel_id) + (",\"thread_id_normalized\":"@ + ta);
    let hb = json_string(b.channel_id) + (",\"thread_id_normalized\":"@ + tb);
    let pa = json_string(a.platform) + (",\"channel_id\":"@ + ha);
    let pb = json_string(b.platform) + (",\"channel_id\":"@ + hb);
    let ia = json_string(a.openab_inbound_turn_id) + (",\"platform\":"@ + pa);
    let ib = json_string(b.openab_inbound_turn_id) + (",\"platform\":"@ + pb);
    lemma_same_head("{\"record_version\":1,\"openab_inbound_turn_id\":"@, ia, ib);
    json_string_is_read_back(
        a.openab_inbound_turn_id,
        b.openab_inbound_turn_id,
        ",\"platform\":"@ + pa,
        ",\"platform\":"@ + pb,
    );
    lemma_same_head(",\"platform\":"@, pa, pb);
    json_string_is_read_back(
        a.platform,
        b.platform,
        ",\"channel_id\":"@ + ha,
        ",\"channel_id\":"@ + hb,
    );
    lemma_same_head(",\"channel_id\":"@, ha, hb);
    json_string_is_read_back(
        a.channel_id,
        b.channel_id,
        ",\"thread_id_normalized\":"@ + ta,
        ",\"thread_id_normalized\":"@ + tb,
    );
    lemma_same_head(",\"thread_id_normalized\":"@, ta, tb);
    json_string_is_read_back(
        normalized(a.thread_id),
        normalized(b.thread_id),
        ",\"acp_request_id\":"@ + qa,
        ",\"acp_request_id\":"@ + qb,
    );
    lemma_same_head(",\"acp_request_id\":"@, qa, qb);
    json_string_is_read_back(
        a.acp_request_id,
        b.acp_request_id,
        ",\"runtime_run_id\":"@ + ra,
        ",\"runtime_run_id\":"@ + rb,
    );
    lemma_same_head(",\"runtime_run_id\":"@, ra, rb);
    json_string_is_read_back(
        a.runtime_run_id,
        b.runtime_run_id,
        ",\"workflow_run_id_normalized\":"@ + wa,
        ",\"workflow_run_id_normalized\":"@ + wb,
    );
    lemma_same_head(",\"workflow_run_id_normalized\":"@, wa, wb);
    json_string_is_read_back(
        normalized(a.workflow_run_id),
        normalized(b.workflow_run_id),
        ",\"conversation_id\":"@ + ca,
        ",\"conversation_id\":"@ + cb,
    );
    lemma_same_head(",\"conversation_id\":"@, ca, cb);
    json_string_is_read_back(a.conversation_id, b.conversation_id, sa, sb);
    lemma_same_head(",\"response_sequence\":"@, ea, eb);
    let ua = ",\"terminal_payload\":"@ + (a.terminal_payload + "}"@);
    let ub = ",\"terminal_payload\":"@ + (b.terminal_payload + "}"@);
    reveal_strlit(",\"terminal_payload\":");
    assert(ua[0] == ',' && ub[0] == ',');
    lemma_same_number(a.response_sequence as nat, b.response_sequence as nat, ua, ub);
    lemma_same_head(
        ",\"terminal_payload\":"@,
        a.terminal_payload + "}"@,
        b.terminal_payload + "}"@,
    );
    let la = a.terminal_payload + "}"@;
    let lb = b.terminal_payload + "}"@;
    assert(a.terminal_payload =~= la.take(la.len() - "}"@.len()));
    assert(b.terminal_payload =~= lb.take(lb.len() - "}"@.len()));
}

} // verus!
