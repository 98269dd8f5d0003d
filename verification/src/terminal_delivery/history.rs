//! What holds of a database after any number of operations.

use vstd::prelude::*;

use crate::clock::Timestamp;
use crate::decimal::{decimal, decimal_denotes, decimal_round_trip, is_digit};
use crate::digest::text_digest;

use super::identity::{delivery_key, new_fault, no_change, UpdateText};
use super::laws::{
    approved_entry, audit_trail_is_kept, audited, deliveries_are_kept, lemma_found_at, lemma_key_place,
    lemma_no_trail, lemma_slot_place, same_delivery, trail, trail_leads_to, unique_rows,
    uniqueness_is_kept,
};
use super::record::{event_row_fault, row_event, EventRowText, EventText, NewText, RecordText, RowText};
use super::repository::{
    create_step, key_place, logged, looked_up, new_slot, row_slot, slot_place, stored, transition_step,
    RepositoryText,
};
use super::state::{
    state_name_round_trip, Fault, TerminalDeliveryState, TERMINAL_DELIVERY_PAYLOAD_CONFLICT,
};

verus! {

/// One call that can change a database, whether it succeeds or not.
pub enum Operation {
    Create { input: NewText, now: Timestamp },
    Step {
        key: Seq<char>,
        expected_revision: u64,
        new_state: TerminalDeliveryState,
        update: UpdateText,
        reason: Seq<char>,
        now: Timestamp,
    },
}

/// The database after one operation.
pub open spec fn after_one(repo: RepositoryText, op: Operation) -> RepositoryText {
    match op {
        Operation::Create { input, now } => create_step(repo, input, now).0,
        Operation::Step { key, expected_revision, new_state, update, reason, now } => transition_step(
            repo,
            key,
            expected_revision,
            new_state,
            update,
            reason,
            now,
        ).0,
    }
}

/// The database after some operations, one after the other.
pub open spec fn after_all(repo: RepositoryText, ops: Seq<Operation>) -> RepositoryText
    decreases ops.len(),
{
    if ops.len() == 0 {
        repo
    } else {
        after_one(after_all(repo, ops.drop_last()), ops.last())
    }
}

/// Whatever is done to a database whose log accounts for every delivery, its log
/// does so afterwards; and that of a new database does.
pub proof fn every_history_is_audited(repo: RepositoryText, ops: Seq<Operation>)
    ensures
        repo.rows.len() == 0 && repo.log.len() == 0 ==> audited(repo),
        audited(repo) ==> audited(after_all(repo, ops)),
    decreases ops.len(),
{
    let n = some_input();
    let pending = TerminalDeliveryState::PendingResult;
    let at = Timestamp { secs: 0, nanos: 0 };
    audit_trail_is_kept(repo, n, Seq::empty(), 0, pending, no_change(), Seq::empty(), at);
    if audited(repo) && ops.len() > 0 {
        let before = after_all(repo, ops.drop_last());
        every_history_is_audited(repo, ops.drop_last());
        match ops.last() {
            Operation::Create { input, now } => {
                audit_trail_is_kept(
                    before,
                    input,
                    Seq::empty(),
                    0,
                    pending,
                    no_change(),
                    Seq::empty(),
                    now,
                );
            },
            Operation::Step { key, expected_revision, new_state, update, reason, now } => {
                audit_trail_is_kept(
                    before,
                    n,
                    key,
                    expected_revision,
                    new_state,
                    update,
                    reason,
                    now,
                );
            },
        }
    }
}

/// Some input, for the part of a law that speaks of a creation.
spec fn some_input() -> NewText {
    arbitrary()
}

proof fn lemma_logged_is_trail(log: Seq<EventRowText>, key: Seq<char>)
    requires
        forall|e: int| 0 <= e < log.len() ==> event_row_fault(#[trigger] log[e]) is None,
    ensures
        logged(log, key) is Ok,
        logged(log, key)->Ok_0.len() == trail(log, key).len(),
        forall|k: int|
            0 <= k < trail(log, key).len() ==> (#[trigger] logged(log, key)->Ok_0[k]) == row_event(
                trail(log, key)[k],
            ) && event_row_fault(trail(log, key)[k]) is None && trail(
                log,
                key,
            )[k].terminal_delivery_key == key,
    decreases log.len(),
{
    if log.len() > 0 {
        let init = log.drop_last();
        assert forall|e: int| 0 <= e < init.len() implies event_row_fault(
            #[trigger] init[e],
        ) is None by {
            assert(init[e] == log[e]);
        }
        lemma_logged_is_trail(init, key);
        assert(event_row_fault(log[log.len() - 1]) is None);
        let t = trail(log, key);
        let es = logged(log, key)->Ok_0;
        assert forall|k: int| 0 <= k < t.len() implies (#[trigger] es[k]) == row_event(t[k])
            && event_row_fault(t[k]) is None && t[k].terminal_delivery_key == key by {
            if k < trail(init, key).len() {
                assert(logged(init, key)->Ok_0[k] == row_event(trail(init, key)[k]));
            }
        }
    }
}

/// The events of a delivery tell how it came to be what it is: the first is its
/// creation, there is one for each revision, each takes an approved step from
/// where the one before led, and the last leads to the record's state.
pub open spec fn events_tell(es: Seq<EventText>, key: Seq<char>, record: RecordText) -> bool {
    &&& es.len() == record.state_revision + 1
    &&& es[0].previous_state is None
    &&& es[0].new_state is PendingResult
    &&& es[0].safe_reason_code == "CREATED"@
    &&& forall|k: int|
        0 <= k < es.len() ==> (#[trigger] es[k]).terminal_delivery_key == key
            && es[k].state_revision == k
    &&& forall|k: int| 0 < k < es.len() ==> approved_event(es, k)
    &&& es.last().new_state == record.state
}

/// Event `k` takes an approved step from where the event before it led.
pub open spec fn approved_event(es: Seq<EventText>, k: int) -> bool {
    &&& es[k].previous_state == Some(es[k - 1].new_state)
    &&& es[k - 1].new_state.may_become(es[k].new_state)
}

/// In every database that comes about by operations on a new one, the events of a
/// delivery tell its whole history, and a key without a delivery has no events.
pub proof fn events_tell_the_history(repo: RepositoryText, key: Seq<char>)
    requires
        audited(repo),
    ensures
        logged(repo.log, key) is Ok,
        match looked_up(repo.rows, key) {
            Ok(Some(record)) => events_tell(logged(repo.log, key)->Ok_0, key, record),
            Ok(None) => logged(repo.log, key)->Ok_0.len() == 0,
            Err(_) => true,
        },
{
    let t = trail(repo.log, key);
    let es = logged(repo.log, key)->Ok_0;
    let at = key_place(repo.rows, key);
    lemma_logged_is_trail(repo.log, key);
    lemma_key_place(repo.rows, key);
    if at >= repo.rows.len() {
        assert forall|e: int| 0 <= e < repo.log.len() implies (
        #[trigger] repo.log[e]).terminal_delivery_key != key by {
            assert(key_place(repo.rows, repo.log[e].terminal_delivery_key) < repo.rows.len());
        }
        lemma_no_trail(repo.log, key);
    } else if stored(repo.rows[at]) is Ok {
        let row = repo.rows[at];
        let record = stored(row)->Ok_0;
        assert(trail_leads_to(t, row.state, row.state_revision));
        decimal_denotes((t.len() - 1) as nat);
        assert(is_digit(decimal((t.len() - 1) as nat)[0]));
        assert(record.state_revision == t.len() - 1);
        state_name_round_trip(TerminalDeliveryState::PendingResult);
        assert forall|k: int| 0 <= k < es.len() implies (#[trigger] es[k]).terminal_delivery_key == key
            && es[k].state_revision == k by {
            assert(es[k] == row_event(t[k]));
            assert(t[k].state_revision == decimal(k as nat));
            decimal_round_trip(k as u64);
        }
        assert forall|k: int| 0 < k < es.len() implies approved_event(es, k) by {
            assert(approved_entry(t, k));
            assert(es[k] == row_event(t[k]));
            assert(es[k - 1] == row_event(t[k - 1]));
        }
        assert(es[0] == row_event(t[0]));
        assert(es[es.len() - 1] == row_event(t[t.len() - 1]));
    }
}

/// Events are never taken back: what was listed of a delivery before some
/// operations is the beginning of what is listed after them.
pub proof fn event_lists_only_grow(repo: RepositoryText, ops: Seq<Operation>, key: Seq<char>)
    requires
        audited(repo),
    ensures
        logged(repo.log, key) is Ok,
        logged(after_all(repo, ops).log, key) is Ok,
        logged(repo.log, key)->Ok_0.is_prefix_of(logged(after_all(repo, ops).log, key)->Ok_0),
    decreases ops.len(),
{
    lemma_logged_is_trail(repo.log, key);
    if ops.len() > 0 {
        let before = after_all(repo, ops.drop_last());
        let after = after_all(repo, ops);
        event_lists_only_grow(repo, ops.drop_last(), key);
        every_history_is_audited(repo, ops);
        lemma_logged_is_trail(after.log, key);
        assert(after.log == before.log || after.log.drop_last() =~= before.log);
    }
}

/// What stands under the key of a response is that response. It fails only where
/// two responses have the same digest, or where a row was damaged.
pub open spec fn keyed_truly(rows: Seq<RowText>, n: NewText) -> bool {
    forall|i: int|
        0 <= i < rows.len() && (#[trigger] rows[i]).terminal_delivery_key == delivery_key(n)
            ==> row_slot(rows[i]) == new_slot(n) && rows[i].terminal_payload_digest == text_digest(
            n.terminal_payload,
        )
}

proof fn lemma_row_lasts(repo: RepositoryText, ops: Seq<Operation>, at: int)
    requires
        unique_rows(repo.rows),
        0 <= at < repo.rows.len(),
        stored(repo.rows[at]) is Ok,
    ensures
        unique_rows(after_all(repo, ops).rows),
        at < after_all(repo, ops).rows.len(),
        same_delivery(after_all(repo, ops).rows[at], repo.rows[at]),
        stored(after_all(repo, ops).rows[at]) is Ok,
    decreases ops.len(),
{
    if ops.len() > 0 {
        let before = after_all(repo, ops.drop_last());
        let pending = TerminalDeliveryState::PendingResult;
        lemma_row_lasts(repo, ops.drop_last(), at);
        match ops.last() {
            Operation::Create { input, now } => {
                uniqueness_is_kept(
                    before,
                    input,
                    Seq::empty(),
                    0,
                    pending,
                    no_change(),
                    Seq::empty(),
                    now,
                );
                assert(after_all(repo, ops).rows[at] == before.rows[at]);
            },
            Operation::Step { key, expected_revision, new_state, update, reason, now } => {
                let n = some_input();
                uniqueness_is_kept(
                    before,
                    n,
                    key,
                    expected_revision,
                    new_state,
                    update,
                    reason,
                    now,
                );
                deliveries_are_kept(
                    before,
                    n,
                    key,
                    expected_revision,
                    new_state,
                    update,
                    reason,
                    now,
                );
                lemma_key_place(before.rows, key);
                assert(same_delivery(after_all(repo, ops).rows[at], before.rows[at]));
            },
        }
    }
}

proof fn lemma_same_slot(rows: Seq<RowText>, i: int, j: int)
    requires
        unique_rows(rows),
        0 <= i < rows.len(),
        0 <= j < rows.len(),
        row_slot(rows[i]) == row_slot(rows[j]),
    ensures
        i == j,
{
    if i < j {
        assert(row_slot(rows[i]) != row_slot(rows[j]));
    } else if j < i {
        assert(row_slot(rows[j]) != row_slot(rows[i]));
    }
}

/// Where the record that a creation returned stands afterwards.
proof fn lemma_created_at(repo: RepositoryText, n: NewText, now: Timestamp) -> (at: int)
    requires
        unique_rows(repo.rows),
        keyed_truly(repo.rows, n),
        create_step(repo, n, now).1 is Ok,
    ensures
        0 <= at < create_step(repo, n, now).0.rows.len(),
        stored(create_step(repo, n, now).0.rows[at]) == create_step(repo, n, now).1,
        row_slot(create_step(repo, n, now).0.rows[at]) == new_slot(n),
        create_step(repo, n, now).0.rows[at].terminal_payload_digest == text_digest(
            n.terminal_payload,
        ),
        unique_rows(create_step(repo, n, now).0.rows),
{
    lemma_key_place(repo.rows, delivery_key(n));
    lemma_slot_place(repo.rows, new_slot(n));
    uniqueness_is_kept(
        repo,
        n,
        Seq::empty(),
        0,
        TerminalDeliveryState::PendingResult,
        no_change(),
        Seq::empty(),
        now,
    );
    let keyed = key_place(repo.rows, delivery_key(n));
    let slotted = slot_place(repo.rows, new_slot(n));
    if keyed < repo.rows.len() {
        assert(row_slot(repo.rows[keyed]) == new_slot(n));
        keyed
    } else if slotted < repo.rows.len() {
        slotted
    } else {
        repo.rows.len() as int
    }
}

/// A response that was recorded is found again whatever has happened to it since.
/// The same payload for its slot, over whatever request, session or conversation,
/// gives the record as it is now, with the identifiers that it was created with,
/// and changes nothing; another payload is refused.
pub proof fn replay_finds_the_current_record(
    repo: RepositoryText,
    a: NewText,
    now: Timestamp,
    ops: Seq<Operation>,
    b: NewText,
    later: Timestamp,
)
    requires
        unique_rows(repo.rows),
        keyed_truly(repo.rows, a),
        create_step(repo, a, now).1 is Ok,
        keyed_truly(after_all(create_step(repo, a, now).0, ops).rows, b),
        new_slot(b) == new_slot(a),
        new_fault(b) is None,
    ensures
        ({
            let first = create_step(repo, a, now).1->Ok_0;
            let done = after_all(create_step(repo, a, now).0, ops);
            let found = looked_up(done.rows, first.terminal_delivery_key);
            &&& found is Ok && found->Ok_0 is Some
            &&& found->Ok_0->0.terminal_delivery_key == first.terminal_delivery_key
            &&& found->Ok_0->0.acp_request_id == first.acp_request_id
            &&& found->Ok_0->0.acp_session_id == first.acp_session_id
            &&& found->Ok_0->0.conversation_id == first.conversation_id
            &&& found->Ok_0->0.terminal_payload == first.terminal_payload
            &&& found->Ok_0->0.created_at == first.created_at
            &&& create_step(done, b, later) == (
                done,
                if text_digest(b.terminal_payload) == text_digest(a.terminal_payload) {
                    Ok(found->Ok_0->0)
                } else {
                    Err(Fault::PayloadConflict(TERMINAL_DELIVERY_PAYLOAD_CONFLICT@))
                },
            )
        }),
{
    let created = create_step(repo, a, now).0;
    let at = lemma_created_at(repo, a, now);
    lemma_row_lasts(created, ops, at);
    let done = after_all(created, ops);
    let row = done.rows[at];
    assert(row_slot(row) == new_slot(b));
    lemma_found_at(done.rows, at);
    assert(row.terminal_delivery_key == create_step(repo, a, now).1->Ok_0.terminal_delivery_key);
    lemma_key_place(done.rows, delivery_key(b));
    lemma_slot_place(done.rows, new_slot(b));
    let keyed = key_place(done.rows, delivery_key(b));
    let slotted = slot_place(done.rows, new_slot(b));
    if keyed < done.rows.len() {
        assert(row_slot(done.rows[keyed]) == new_slot(b));
        lemma_same_slot(done.rows, keyed, at);
    }
    assert(slotted <= at) by {
        if at < slotted {
            assert(row_slot(done.rows[at]) != new_slot(b));
        }
    }
    lemma_same_slot(done.rows, slotted, at);
}

} // verus!
