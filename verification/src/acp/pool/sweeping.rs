//! What a sweep, a shutdown and a restart answer and keep, in terms of what they are
//! given.

use vstd::prelude::*;

use crate::acp::project::ProjectContext;
use crate::decimal::decimal;
use crate::json::json_string_map;
use crate::log::{field_views, LogEntry};
use crate::redact::redacted;
use crate::text::{char_at, is_space, lemma_char_at, lemma_char_at_is, trim, views};
use crate::text_laws::blank_is_all_space;
use crate::text_map::TextMap;

use super::answers::{
    agree, lemma_first, lemma_shown, lemma_starts_native, maps, same_project, same_settings, shows,
    starts_native, still_bound, unconnected,
};
use super::capacity::Eviction;
use super::create::{CreateDecision, CreateOutcome, CreatePlan, NewConnection};
use super::laws::same_at;
use super::lifecycle::{id_views, suspending};
use super::persistence::{
    agent_persistence_root, filter_native_keys_projects_map, filter_native_keys_string_map,
    load_mapping, load_projects, persistence_paths, temporary_path, PersistencePaths, ProjectsFile,
    SessionPoolTestState,
};
use super::state::{
    probe_views, ConnectionProbe, PoolError, PoolText, SessionPool,
};
use super::sweep::{
    all_hung_swept, all_stale_swept, hung_session, hung_swept, hung_tokens, hung_views, idle_evicted,
    is_hung, is_stale, stale_session, stale_swept, stale_tokens, stale_views, still_has,
    warn_force_evicting_hung, HungText, StaleText, SweepPlan,
};

verus! {

/// A plan names a thread among the stale sessions.
pub open spec fn lists_as_stale(plan: SweepPlan, s: int, k: Seq<char>) -> bool {
    0 <= s < plan.stale@.len() && plan.stale@[s].key@ == k
}

/// A plan names a thread among the hung sessions.
pub open spec fn lists_as_hung(plan: SweepPlan, s: int, k: Seq<char>) -> bool {
    0 <= s < plan.hung@.len() && plan.hung@[s].key@ == k
}

/// A connection's probe shows that it was last active before the cutoff or is dead.
pub open spec fn shown_stale(probes: Seq<ConnectionProbe>, i: int, handle: u64, cutoff: u64) -> bool {
    shows(probes, i, handle) && (probes[i].last_active < cutoff || !probes[i].alive)
}

/// No probe shows a connection, so that it is locked.
pub open spec fn locked(probes: Seq<ConnectionProbe>, handle: u64) -> bool {
    forall|j: int| 0 <= j < probes.len() ==> (#[trigger] probes[j]).handle != handle
}

/// A prompt has been in flight for longer than the threshold.
pub open spec fn overdue(p: PoolText, k: Seq<char>, now: u64) -> bool {
    &&& p.activity.contains_key(k)
    &&& p.activity[k].in_flight
    &&& now - p.activity[k].touched_at > p.hung_threshold_secs * 1000000000
}

/// A sweep plans to get rid of exactly the sessions whose probe shows them idle since
/// before the cutoff or dead, and of those that are locked by a prompt in flight for
/// longer than the threshold. Each is named with its connection, and with what it
/// takes to suspend or to end it.
pub proof fn sweeps_find_the_idle_the_dead_and_the_hung(
    pool: &mut SessionPool,
    probes: &Vec<ConnectionProbe>,
    cutoff: u64,
    now: u64,
    plan: SweepPlan,
    k: Seq<char>,
    i: int,
    s: int,
)
    requires
        call_ensures(SessionPool::cleanup_idle, (pool, probes, cutoff, now), plan),
    ensures
        ({
            let p = old(pool)@;
            let h = p.active[k].handle;
            &&& p.active.contains_key(k) && shown_stale(probes@, i, h, cutoff) ==> exists|x: int|
                lists_as_stale(plan, x, k)
            &&& lists_as_stale(plan, s, k) ==> {
                &&& p.active.contains_key(k)
                &&& plan.stale@[s].handle == h
                &&& exists|x: int| #[trigger] shown_stale(probes@, x, h, cutoff)
                &&& shows(probes@, i, h) ==> {
                    &&& plan.stale@[s].session_id is Some <==> probes@[i].session_id is Some
                    &&& probes@[i].session_id is Some ==> plan.stale@[s].session_id->0@
                        == probes@[i].session_id->0@
                }
            }
            &&& p.active.contains_key(k) && locked(probes@, h) && overdue(p, k, now) ==> exists|x: int|
                lists_as_hung(plan, x, k)
            &&& lists_as_hung(plan, s, k) ==> {
                let x = plan.hung@[s];
                &&& p.active.contains_key(k)
                &&& x.handle == h
                &&& locked(probes@, h)
                &&& overdue(p, k, now)
                &&& x.age == now - p.activity[k].touched_at
                &&& x.cancel is Some <==> p.cancel_handles.contains_key(k)
                &&& x.cancel is Some ==> x.cancel->0.connection == p.cancel_handles[k].connection
                    && x.cancel->0.session_id@ == p.cancel_handles[k].session_id
                &&& x.pgid is Some <==> p.pgids.contains_key(k)
                &&& x.pgid is Some ==> x.pgid->0 == p.pgids[k]
            }
        }),
{
    let p = old(pool)@;
    let seen = probe_views(probes@);
    let h = p.active[k].handle;
    lemma_shown(probes@, h, i);
    if p.active.contains_key(k) && shown_stale(probes@, i, h, cutoff) {
        assert(is_stale(p, seen, cutoff, k));
        let x = stale_session(p, seen, k);
        assert(stale_views(plan.stale@).contains(x));
        let n = choose|n: int| 0 <= n < stale_views(plan.stale@).len() && stale_views(plan.stale@)[n] == x;
        assert(plan.stale@[n]@ == x);
        assert(lists_as_stale(plan, n, k));
    }
    if lists_as_stale(plan, s, k) {
        assert(stale_views(plan.stale@)[s] == plan.stale@[s]@);
        assert(is_stale(p, seen, cutoff, k));
        let n = lemma_first(probes@, h);
        lemma_shown(probes@, h, n);
        assert(shown_stale(probes@, n, h, cutoff));
    }
    if p.active.contains_key(k) && locked(probes@, h) && overdue(p, k, now) {
        assert(is_hung(p, seen, now, k));
        let x = hung_session(p, now, k);
        assert(hung_views(plan.hung@).contains(x));
        let n = choose|n: int| 0 <= n < hung_views(plan.hung@).len() && hung_views(plan.hung@)[n] == x;
        assert(plan.hung@[n]@ == x);
        assert(lists_as_hung(plan, n, k));
    }
    if lists_as_hung(plan, s, k) {
        assert(hung_views(plan.hung@)[s] == plan.hung@[s]@);
        assert(is_hung(p, seen, now, k));
    }
}

/// Planning a sweep changes nothing but this: a prompt that is said to be in flight
/// on a connection that a probe shows has ended, now.
pub proof fn planning_ends_prompts_that_are_over(
    pool: &mut SessionPool,
    probes: &Vec<ConnectionProbe>,
    cutoff: u64,
    now: u64,
    plan: SweepPlan,
    k: Seq<char>,
    i: int,
)
    requires
        call_ensures(SessionPool::cleanup_idle, (pool, probes, cutoff, now), plan),
    ensures
        ({
            let p = old(pool)@;
            let q = final(pool)@;
            &&& same_settings(p, q) && q.outstanding == p.outstanding
            &&& q == (PoolText { activity: q.activity, ..p })
            &&& q.activity.contains_key(k) == p.activity.contains_key(k)
            &&& p.activity.contains_key(k) ==> {
                let over = p.active.contains_key(k) && p.activity[k].in_flight && shows(
                    probes@,
                    i,
                    p.active[k].handle,
                );
                &&& over ==> !q.activity[k].in_flight && q.activity[k].touched_at == now
                &&& !p.activity[k].in_flight || !p.active.contains_key(k) || locked(
                    probes@,
                    p.active[k].handle,
                ) ==> q.activity[k] == p.activity[k]
            }
        }),
{
    let p = old(pool)@;
    if p.active.contains_key(k) {
        lemma_shown(probes@, p.active[k].handle, i);
    }
}

proof fn lemma_same_at_trans(p: PoolText, q: PoolText, r: PoolText, k: Seq<char>)
    requires
        same_at(p, q, k),
        same_at(q, r, k),
    ensures
        same_at(p, r, k),
{
}

proof fn lemma_stale_spares(p: PoolText, stale: Seq<StaleText>, k: Seq<char>)
    requires
        forall|i: int| 0 <= i < stale.len() ==> (#[trigger] stale[i]).key != k,
    ensures
        same_at(p, all_stale_swept(p, stale), k),
    decreases stale.len(),
{
    if stale.len() > 0 {
        let init = stale.drop_last();
        assert forall|i: int| 0 <= i < init.len() implies (#[trigger] init[i]).key != k by {
            assert(init[i] == stale[i]);
        }
        lemma_stale_spares(p, init, k);
        assert(stale[stale.len() - 1].key != k);
        let q = all_stale_swept(p, init);
        assert(same_at(q, stale_swept(q, stale.last()), k));
        lemma_same_at_trans(p, q, all_stale_swept(p, stale), k);
    }
}

proof fn lemma_hung_spares(p: PoolText, hung: Seq<HungText>, k: Seq<char>)
    requires
        forall|i: int| 0 <= i < hung.len() ==> (#[trigger] hung[i]).key != k,
    ensures
        same_at(p, all_hung_swept(p, hung), k),
    decreases hung.len(),
{
    if hung.len() > 0 {
        let init = hung.drop_last();
        assert forall|i: int| 0 <= i < init.len() implies (#[trigger] init[i]).key != k by {
            assert(init[i] == hung[i]);
        }
        lemma_hung_spares(p, init, k);
        assert(hung[hung.len() - 1].key != k);
        let q = all_hung_swept(p, init);
        assert(same_at(q, hung_swept(q, hung.last()), k));
        lemma_same_at_trans(p, q, all_hung_swept(p, hung), k);
    }
}

proof fn lemma_settings(p: PoolText, stale: Seq<StaleText>, hung: Seq<HungText>)
    ensures
        same_settings(p, all_stale_swept(p, stale)),
        all_stale_swept(p, stale).outstanding == p.outstanding,
        same_settings(p, all_hung_swept(p, hung)),
        all_hung_swept(p, hung).outstanding == p.outstanding,
    decreases stale.len() + hung.len(),
{
    if stale.len() > 0 {
        lemma_settings(p, stale.drop_last(), Seq::empty());
    }
    if hung.len() > 0 {
        lemma_settings(p, Seq::empty(), hung.drop_last());
    }
}

proof fn lemma_stale_gone(p: PoolText, stale: Seq<StaleText>, i: int)
    requires
        0 <= i < stale.len(),
        still_has(p, stale[i].key, stale[i].handle),
        forall|a: int, b: int|
            0 <= a < b < stale.len() ==> (#[trigger] stale[a]).key != (#[trigger] stale[b]).key,
    ensures
        same_at(
            idle_evicted(p, stale[i].key, stale[i].session_id),
            all_stale_swept(p, stale),
            stale[i].key,
        ),
        p.facade_tokens.contains_key(stale[i].key) ==> stale_tokens(p, stale).contains(
            p.facade_tokens[stale[i].key],
        ),
    decreases stale.len(),
{
    let k = stale[i].key;
    let init = stale.drop_last();
    let last = stale.len() - 1;
    let q = all_stale_swept(p, init);
    assert forall|a: int, b: int| 0 <= a < b < init.len() implies (#[trigger] init[a]).key != (
    #[trigger] init[b]).key by {
        assert(stale[a].key != stale[b].key);
    }
    if i == last {
        assert forall|a: int| 0 <= a < init.len() implies (#[trigger] init[a]).key != k by {
            assert(stale[a].key != stale[last].key);
        }
        lemma_stale_spares(p, init, k);
        assert(still_has(q, k, stale[i].handle));
        if p.facade_tokens.contains_key(k) {
            let more = super::sweep::revoked_with(q, k, stale[i].handle);
            assert(more == seq![p.facade_tokens[k]]);
            let all = stale_tokens(p, init) + more;
            assert(all[stale_tokens(p, init).len() as int] == p.facade_tokens[k]);
        }
    } else {
        assert(init[i] == stale[i]);
        lemma_stale_gone(p, init, i);
        assert(stale[i].key != stale[last].key);
        lemma_same_at_trans(
            idle_evicted(p, k, stale[i].session_id),
            q,
            all_stale_swept(p, stale),
            k,
        );
        if p.facade_tokens.contains_key(k) {
            let before = stale_tokens(p, init);
            let n = choose|n: int| 0 <= n < before.len() && before[n] == p.facade_tokens[k];
            assert(stale_tokens(p, stale)[n] == p.facade_tokens[k]);
        }
    }
}

proof fn lemma_hung_gone(p: PoolText, hung: Seq<HungText>, i: int)
    requires
        0 <= i < hung.len(),
        still_has(p, hung[i].key, hung[i].handle),
        forall|a: int, b: int|
            0 <= a < b < hung.len() ==> (#[trigger] hung[a]).key != (#[trigger] hung[b]).key,
    ensures
        same_at(hung_swept(p, hung[i]), all_hung_swept(p, hung), hung[i].key),
        p.facade_tokens.contains_key(hung[i].key) ==> hung_tokens(p, hung).contains(
            p.facade_tokens[hung[i].key],
        ),
    decreases hung.len(),
{
    let k = hung[i].key;
    let init = hung.drop_last();
    let last = hung.len() - 1;
    let q = all_hung_swept(p, init);
    assert forall|a: int, b: int| 0 <= a < b < init.len() implies (#[trigger] init[a]).key != (
    #[trigger] init[b]).key by {
        assert(hung[a].key != hung[b].key);
    }
    if i == last {
        assert forall|a: int| 0 <= a < init.len() implies (#[trigger] init[a]).key != k by {
            assert(hung[a].key != hung[last].key);
        }
        lemma_hung_spares(p, init, k);
        assert(still_has(q, k, hung[i].handle));
        if p.facade_tokens.contains_key(k) {
            let more = super::sweep::revoked_with(q, k, hung[i].handle);
            assert(more == seq![p.facade_tokens[k]]);
            let all = hung_tokens(p, init) + more;
            assert(all[hung_tokens(p, init).len() as int] == p.facade_tokens[k]);
        }
    } else {
        assert(init[i] == hung[i]);
        lemma_hung_gone(p, init, i);
        assert(hung[i].key != hung[last].key);
        lemma_same_at_trans(hung_swept(p, hung[i]), q, all_hung_swept(p, hung), k);
        if p.facade_tokens.contains_key(k) {
            let before = hung_tokens(p, init);
            let n = choose|n: int| 0 <= n < before.len() && before[n] == p.facade_tokens[k];
            assert(hung_tokens(p, hung)[n] == p.facade_tokens[k]);
        }
    }
}

/// No thread is named twice in a plan.
pub open spec fn names_each_once(plan: SweepPlan) -> bool {
    &&& forall|a: int, b: int|
        0 <= a < b < plan.stale@.len() ==> (#[trigger] plan.stale@[a]).key@ != (
        #[trigger] plan.stale@[b]).key@
    &&& forall|a: int, b: int|
        0 <= a < b < plan.hung@.len() ==> (#[trigger] plan.hung@[a]).key@ != (
        #[trigger] plan.hung@[b]).key@
    &&& forall|a: int, b: int|
        0 <= a < plan.stale@.len() && 0 <= b < plan.hung@.len() ==> (#[trigger] plan.stale@[a]).key@
            != (#[trigger] plan.hung@[b]).key@
}

proof fn lemma_plan(plan: SweepPlan)
    requires
        names_each_once(plan),
    ensures
        ({
            let stale = stale_views(plan.stale@);
            let hung = hung_views(plan.hung@);
            &&& forall|a: int, b: int|
                0 <= a < b < stale.len() ==> (#[trigger] stale[a]).key != (#[trigger] stale[b]).key
            &&& forall|a: int, b: int|
                0 <= a < b < hung.len() ==> (#[trigger] hung[a]).key != (#[trigger] hung[b]).key
            &&& forall|a: int, b: int|
                0 <= a < stale.len() && 0 <= b < hung.len() ==> (#[trigger] stale[a]).key != (
                #[trigger] hung[b]).key
        }),
{
    let stale = stale_views(plan.stale@);
    let hung = hung_views(plan.hung@);
    assert forall|a: int, b: int| 0 <= a < b < stale.len() implies (#[trigger] stale[a]).key != (
    #[trigger] stale[b]).key by {
        assert(plan.stale@[a].key@ != plan.stale@[b].key@);
    }
    assert forall|a: int, b: int| 0 <= a < b < hung.len() implies (#[trigger] hung[a]).key != (
    #[trigger] hung[b]).key by {
        assert(plan.hung@[a].key@ != plan.hung@[b].key@);
    }
    assert forall|a: int, b: int| 0 <= a < stale.len() && 0 <= b < hung.len() implies (
    #[trigger] stale[a]).key != (#[trigger] hung[b]).key by {
        assert(plan.stale@[a].key@ != plan.hung@[b].key@);
    }
}

/// A stale session that has its connection still is removed with what goes with it,
/// and its token is revoked. The session of an ordinary thread with an id can be
/// resumed under just that id, and its thread stays bound to its project, its
/// directory and its lost trust. One without an id is forgotten. A native dispatch
/// leaves nothing.
pub proof fn swept_sessions_are_suspended_and_stay_bound(
    pool: &mut SessionPool,
    plan: SweepPlan,
    i: int,
    tokens: Vec<String>,
)
    requires
        call_ensures(SessionPool::apply_sweep, (pool, &plan), tokens),
        names_each_once(plan),
        0 <= i < plan.stale@.len(),
        old(pool)@.active.contains_key(plan.stale@[i].key@),
        old(pool)@.active[plan.stale@[i].key@].handle == plan.stale@[i].handle,
    ensures
        ({
            let p = old(pool)@;
            let q = final(pool)@;
            let k = plan.stale@[i].key@;
            let sid = plan.stale@[i].session_id;
            &&& unconnected(q, k)
            &&& agree(p.creating, q.creating, k)
            &&& p.facade_tokens.contains_key(k) ==> views(tokens@).contains(p.facade_tokens[k])
            &&& starts_native(k) ==> {
                &&& agree(p.persisted, q.persisted, k)
                &&& agree(p.suspended, q.suspended, k)
                &&& !q.session_workdirs.contains_key(k)
                &&& !q.session_projects.contains_key(k)
                &&& !q.untrusted.contains_key(k)
            }
            &&& !starts_native(k) && sid is Some ==> {
                &&& maps(q.persisted, k, sid->0@)
                &&& maps(q.suspended, k, sid->0@)
                &&& still_bound(p, q, k)
            }
            &&& !starts_native(k) && sid is None ==> {
                &&& !q.persisted.contains_key(k)
                &&& agree(p.suspended, q.suspended, k)
                &&& !q.session_workdirs.contains_key(k)
                &&& !q.session_projects.contains_key(k)
                &&& !q.untrusted.contains_key(k)
            }
        }),
{
    let p = old(pool)@;
    let stale = stale_views(plan.stale@);
    let hung = hung_views(plan.hung@);
    let k = plan.stale@[i].key@;
    lemma_plan(plan);
    lemma_starts_native(k);
    assert(stale[i] == plan.stale@[i]@);
    lemma_stale_gone(p, stale, i);
    let mid = all_stale_swept(p, stale);
    assert forall|b: int| 0 <= b < hung.len() implies (#[trigger] hung[b]).key != k by {
        assert(stale[i].key != hung[b].key);
    }
    lemma_hung_spares(mid, hung, k);
    lemma_same_at_trans(
        idle_evicted(p, k, stale[i].session_id),
        mid,
        all_hung_swept(mid, hung),
        k,
    );
    if p.facade_tokens.contains_key(k) {
        let a = stale_tokens(p, stale);
        let n = choose|n: int| 0 <= n < a.len() && a[n] == p.facade_tokens[k];
        assert(views(tokens@)[n] == p.facade_tokens[k]);
    }
}

/// A hung session that has its connection still is removed, its token is revoked, and
/// nothing of its thread is left but the creation lock. Threads that a plan does not
/// name, and those whose connection was replaced, are left as they were.
pub proof fn hung_sessions_leave_nothing_to_resume(
    pool: &mut SessionPool,
    plan: SweepPlan,
    i: int,
    other: Seq<char>,
    tokens: Vec<String>,
)
    requires
        call_ensures(SessionPool::apply_sweep, (pool, &plan), tokens),
        names_each_once(plan),
    ensures
        same_settings(old(pool)@, final(pool)@),
        final(pool)@.outstanding == old(pool)@.outstanding,
        (forall|s: int| !#[trigger] lists_as_stale(plan, s, other)) && (forall|s: int|
            !#[trigger] lists_as_hung(plan, s, other)) ==> same_at(
            old(pool)@,
            final(pool)@,
            other,
        ),
        0 <= i < plan.hung@.len() && still_has(
            old(pool)@,
            plan.hung@[i].key@,
            plan.hung@[i].handle,
        ) ==> {
            let p = old(pool)@;
            let q = final(pool)@;
            let k = plan.hung@[i].key@;
            &&& unconnected(q, k)
            &&& !q.suspended.contains_key(k) && !q.persisted.contains_key(k)
            &&& !q.session_workdirs.contains_key(k) && !q.session_projects.contains_key(k)
            &&& !q.untrusted.contains_key(k)
            &&& agree(p.creating, q.creating, k)
            &&& p.facade_tokens.contains_key(k) ==> views(tokens@).contains(p.facade_tokens[k])
        },
        0 <= i < plan.hung@.len() && !still_has(
            old(pool)@,
            plan.hung@[i].key@,
            plan.hung@[i].handle,
        ) ==> same_at(old(pool)@, final(pool)@, plan.hung@[i].key@),
{
    let p = old(pool)@;
    let stale = stale_views(plan.stale@);
    let hung = hung_views(plan.hung@);
    let mid = all_stale_swept(p, stale);
    lemma_plan(plan);
    lemma_settings(p, stale, hung);
    lemma_settings(mid, stale, hung);
    if (forall|s: int| !#[trigger] lists_as_stale(plan, s, other)) && (forall|s: int|
        !#[trigger] lists_as_hung(plan, s, other)) {
        assert forall|s: int| 0 <= s < stale.len() implies (#[trigger] stale[s]).key != other by {
            assert(!lists_as_stale(plan, s, other));
        }
        assert forall|s: int| 0 <= s < hung.len() implies (#[trigger] hung[s]).key != other by {
            assert(!lists_as_hung(plan, s, other));
        }
        lemma_stale_spares(p, stale, other);
        lemma_hung_spares(mid, hung, other);
        lemma_same_at_trans(p, mid, all_hung_swept(mid, hung), other);
    }
    if 0 <= i < plan.hung@.len() {
        let k = plan.hung@[i].key@;
        assert(hung[i] == plan.hung@[i]@);
        assert forall|s: int| 0 <= s < stale.len() implies (#[trigger] stale[s]).key != k by {
            assert(stale[s].key != hung[i].key);
        }
        lemma_stale_spares(p, stale, k);
        if still_has(p, k, hung[i].handle) {
            lemma_hung_gone(mid, hung, i);
            if p.facade_tokens.contains_key(k) {
                let a = hung_tokens(mid, hung);
                let n = choose|n: int| 0 <= n < a.len() && a[n] == p.facade_tokens[k];
                let before = stale_tokens(p, stale).len() as int;
                assert(views(tokens@)[before + n] == p.facade_tokens[k]);
            }
        } else {
            super::laws::sweep_spares_successors(mid, Seq::empty(), hung, k);
            assert(mid == all_stale_swept(mid, Seq::<StaleText>::empty()));
            lemma_replaced(mid, hung, i);
            lemma_same_at_trans(p, mid, all_hung_swept(mid, hung), k);
        }
    }
}

proof fn lemma_replaced(p: PoolText, hung: Seq<HungText>, i: int)
    requires
        0 <= i < hung.len(),
        !still_has(p, hung[i].key, hung[i].handle),
        forall|a: int, b: int|
            0 <= a < b < hung.len() ==> (#[trigger] hung[a]).key != (#[trigger] hung[b]).key,
    ensures
        same_at(p, all_hung_swept(p, hung), hung[i].key),
    decreases hung.len(),
{
    let k = hung[i].key;
    let init = hung.drop_last();
    let last = hung.len() - 1;
    let q = all_hung_swept(p, init);
    assert forall|a: int, b: int| 0 <= a < b < init.len() implies (#[trigger] init[a]).key != (
    #[trigger] init[b]).key by {
        assert(hung[a].key != hung[b].key);
    }
    if i == last {
        assert forall|a: int| 0 <= a < init.len() implies (#[trigger] init[a]).key != k by {
            assert(hung[a].key != hung[last].key);
        }
        lemma_hung_spares(p, init, k);
    } else {
        assert(init[i] == hung[i]);
        lemma_replaced(p, init, i);
        assert(hung[i].key != hung[last].key);
        lemma_same_at_trans(p, q, all_hung_swept(p, hung), k);
    }
}

/// After an idle session with an id was swept, its ordinary thread is still refused
/// to any other pinned project, and a request for its own project resumes exactly
/// that session.
pub proof fn swept_threads_are_resumed_for_their_own_project(
    pool: &mut SessionPool,
    plan: SweepPlan,
    i: int,
    tokens: Vec<String>,
    thread: &str,
    project: &ProjectContext,
    canonical: ProjectContext,
    probes: &Vec<ConnectionProbe>,
    r: Result<CreateDecision, PoolError>,
)
    requires
        call_ensures(SessionPool::apply_sweep, (pool, &plan), tokens),
        names_each_once(plan),
        0 <= i < plan.stale@.len(),
        plan.stale@[i].session_id is Some,
        thread@ == plan.stale@[i].key@,
        !starts_native(thread@),
        old(pool)@.active.contains_key(thread@),
        old(pool)@.active[thread@].handle == plan.stale@[i].handle,
        old(pool)@.session_projects.contains_key(thread@),
        !old(pool)@.untrusted.contains_key(thread@),
        call_ensures(
            SessionPool::get_or_create,
            (&*final(pool), thread, Some(project), Some(Ok(canonical)), probes),
            r,
        ),
    ensures
        !same_project(old(pool)@.session_projects[thread@], canonical@) ==> r is Err
            && r->Err_0 is ProjectMismatch,
        same_project(old(pool)@.session_projects[thread@], canonical@) ==> r is Ok
            && r->Ok_0 is Create && r->Ok_0->Create_0.saved_session_id is Some
            && r->Ok_0->Create_0.saved_session_id->0@ == plan.stale@[i].session_id->0@,
{
    swept_sessions_are_suspended_and_stay_bound(pool, plan, i, tokens);
    lemma_starts_native(thread@);
}

proof fn lemma_suspending_at(
    p: PoolText,
    ids: Seq<(Seq<char>, Seq<char>)>,
    k: Seq<char>,
)
    ensures
        (native_or_absent(ids, k)) ==> {
            &&& agree(p.persisted, suspending(p, ids).persisted, k)
            &&& agree(p.suspended, suspending(p, ids).suspended, k)
        },
        suspending(p, ids).session_projects == p.session_projects,
        suspending(p, ids).session_workdirs == p.session_workdirs,
        suspending(p, ids).untrusted == p.untrusted,
        suspending(p, ids).creating == p.creating,
        suspending(p, ids).facade_tokens == p.facade_tokens,
        suspending(p, ids).outstanding == p.outstanding,
        same_settings(p, suspending(p, ids)),
    decreases ids.len(),
{
    if ids.len() > 0 {
        let init = ids.drop_last();
        lemma_suspending_at(p, init, k);
        lemma_starts_native(k);
        if native_or_absent(ids, k) {
            assert forall|i: int| 0 <= i < init.len() implies (#[trigger] init[i]).0 != k
                || starts_native(k) by {
                assert(init[i] == ids[i]);
            }
            assert(ids[ids.len() - 1] == ids.last());
        }
    }
}

/// A thread is a native dispatch's, or is not among these.
pub open spec fn native_or_absent(ids: Seq<(Seq<char>, Seq<char>)>, k: Seq<char>) -> bool {
    forall|i: int| 0 <= i < ids.len() ==> (#[trigger] ids[i]).0 != k || starts_native(k)
}

/// A shutdown drops every connection and says how many there were. Each session that
/// was found can be resumed under its id, also after a restart, but for those of
/// native dispatches. Bindings, directories, lost trust, locks and tokens stay.
pub proof fn shutdowns_suspend_what_was_found(
    pool: &mut SessionPool,
    ids: Vec<(String, String)>,
    n: usize,
    i: int,
    k: Seq<char>,
)
    requires
        call_ensures(SessionPool::shutdown, (pool, ids), n),
    ensures
        ({
            let p = old(pool)@;
            let q = final(pool)@;
            &&& n == p.active.dom().len()
            &&& !q.active.contains_key(k) && !q.cancel_handles.contains_key(k)
            &&& !q.activity.contains_key(k) && !q.pgids.contains_key(k)
            &&& q.session_projects == p.session_projects
            &&& q.session_workdirs == p.session_workdirs
            &&& q.untrusted == p.untrusted
            &&& q.creating == p.creating
            &&& q.facade_tokens == p.facade_tokens
            &&& q.outstanding == p.outstanding && same_settings(p, q)
            &&& 0 <= i < ids@.len() && ids@[i].0@ == k && !starts_native(k) && (forall|j: int|
                i < j < ids@.len() ==> (#[trigger] ids@[j]).0@ != k) ==> {
                &&& maps(q.persisted, k, ids@[i].1@)
                &&& maps(q.suspended, k, ids@[i].1@)
            }
            &&& (forall|j: int| 0 <= j < ids@.len() ==> (#[trigger] ids@[j]).0@ != k)
                || starts_native(k) ==> {
                &&& agree(p.persisted, q.persisted, k)
                &&& agree(p.suspended, q.suspended, k)
            }
        }),
{
    let p = old(pool)@;
    let all = id_views(ids@);
    lemma_starts_native(k);
    if (forall|j: int| 0 <= j < ids@.len() ==> (#[trigger] ids@[j]).0@ != k) || starts_native(k) {
        assert forall|j: int| 0 <= j < all.len() implies (#[trigger] all[j]).0 != k
            || starts_native(k) by {
            assert(all[j].0 == ids@[j].0@);
        }
    }
    lemma_suspending_at(p, all, k);
    if 0 <= i < ids@.len() && ids@[i].0@ == k && !starts_native(k) && (forall|j: int|
        i < j < ids@.len() ==> (#[trigger] ids@[j]).0@ != k) {
        assert(all[i] == (ids@[i].0@, ids@[i].1@));
        assert forall|j: int| i < j < all.len() implies (#[trigger] all[j]).0 != all[i].0 by {
            assert(ids@[j].0@ != k);
        }
        super::laws::shutdown_keeps_ordinary_sessions(p, all, i);
    }
}

/// A pool that is restored has no connections. The sessions that were kept can be
/// resumed, the directories are those that were kept, and the bindings too where they
/// could be read; where not, every thread that can be resumed is untrusted. Nothing of
/// a native dispatch is taken over.
pub proof fn restored_pools_hold_what_was_kept(
    working_dir: String,
    max_sessions: usize,
    hung_threshold_secs: u64,
    mapping: TextMap<String>,
    meta: TextMap<String>,
    projects: Result<TextMap<ProjectContext>, String>,
    r: SessionPool,
    k: Seq<char>,
)
    requires
        call_ensures(
            SessionPool::from_loaded,
            (working_dir, max_sessions, hung_threshold_secs, mapping, meta, projects),
            r,
        ),
    ensures
        r@.working_dir == working_dir@,
        r@.max_sessions == max_sessions,
        r@.hung_threshold_secs == hung_threshold_secs,
        r@.outstanding == 0,
        !r@.active.contains_key(k) && !r@.creating.contains_key(k) && !r@.facade_tokens.contains_key(
            k,
        ),
        !starts_native(k) ==> {
            &&& agree(mapping@, r@.suspended, k)
            &&& agree(mapping@, r@.persisted, k)
            &&& agree(meta@, r@.session_workdirs, k)
            &&& projects is Ok ==> agree(projects->Ok_0@, r@.session_projects, k)
                && !r@.untrusted.contains_key(k)
            &&& projects is Err ==> !r@.session_projects.contains_key(k)
                && r@.untrusted.contains_key(k) == mapping@.contains_key(k)
        },
        starts_native(k) ==> {
            &&& !r@.suspended.contains_key(k) && !r@.persisted.contains_key(k)
            &&& !r@.session_workdirs.contains_key(k) && !r@.session_projects.contains_key(k)
            &&& !r@.untrusted.contains_key(k)
        },
{
    lemma_starts_native(k);
}

/// A restart reads the sessions and directories from their files and the bindings
/// from what was found of theirs, and restores the pool from them.
pub proof fn restarts_restore_from_the_files(
    working_dir: String,
    max_sessions: usize,
    hung_threshold_secs: u64,
    mapping_text: Option<&str>,
    meta_text: Option<&str>,
    file: ProjectsFile,
    mapping: TextMap<String>,
    meta: TextMap<String>,
    projects: Result<TextMap<ProjectContext>, String>,
    a: SessionPool,
    b: SessionPool,
)
    requires
        call_ensures(
            SessionPool::from_persistence_root,
            (working_dir, max_sessions, hung_threshold_secs, mapping_text, meta_text, file),
            a,
        ),
        call_ensures(load_mapping, (mapping_text,), mapping),
        call_ensures(load_mapping, (meta_text,), meta),
        call_ensures(load_projects, (file,), projects),
        call_ensures(
            SessionPool::from_loaded,
            (working_dir, max_sessions, hung_threshold_secs, mapping, meta, projects),
            b,
        ),
    ensures
        a@ == b@,
{
}

/// A file that is missing or holds no map is an empty map; any other is the map that
/// its text denotes. Of the bindings, only a missing file is empty: one that cannot
/// be read or understood is reported, with why.
pub proof fn files_are_read(
    text: Option<&str>,
    map: TextMap<String>,
    file: ProjectsFile,
    projects: Result<TextMap<ProjectContext>, String>,
)
    requires
        call_ensures(load_mapping, (text,), map),
        call_ensures(load_projects, (file,), projects),
    ensures
        text is Some && json_string_map(text->0@) is Some ==> map@ == json_string_map(text->0@)->0,
        text is None || json_string_map(text->0@) is None ==> map@ == Map::<
            Seq<char>,
            Seq<char>,
        >::empty(),
        match file {
            ProjectsFile::Missing => projects is Ok && projects->Ok_0@ =~= Map::empty(),
            ProjectsFile::Unreadable(e) => projects is Err && projects->Err_0@ == "read error: "@
                + e@,
            ProjectsFile::Malformed(e) => projects is Err && projects->Err_0@
                == "json parse error: "@ + e@,
            ProjectsFile::Bindings(m) => projects is Ok && projects->Ok_0@ == m@,
        },
{
}

/// What is written is read back, without the keys of native dispatches: the sessions
/// that restarts find, the directories, and the bindings.
pub proof fn what_is_saved_is_read_back(
    pool: SessionPool,
    mapping: String,
    meta: String,
    projects: TextMap<ProjectContext>,
    k: Seq<char>,
)
    requires
        call_ensures(SessionPool::save_mapping, (&pool,), mapping),
        call_ensures(SessionPool::save_meta, (&pool,), meta),
        call_ensures(SessionPool::save_projects, (&pool,), projects),
        json_string_map(mapping@) is Some,
        json_string_map(meta@) is Some,
    ensures
        !starts_native(k) ==> {
            &&& agree(pool@.persisted, json_string_map(mapping@)->0, k)
            &&& agree(pool@.session_workdirs, json_string_map(meta@)->0, k)
            &&& agree(pool@.session_projects, projects@, k)
        },
        starts_native(k) ==> {
            &&& !json_string_map(mapping@)->0.contains_key(k)
            &&& !json_string_map(meta@)->0.contains_key(k)
            &&& !projects@.contains_key(k)
        },
{
    lemma_starts_native(k);
    let a = super::persistence::loaded(Some(mapping@));
    let b = super::persistence::loaded(Some(meta@));
    assert(a == json_string_map(mapping@)->0);
    assert(b == json_string_map(meta@)->0);
}

/// Filtering takes out the keys of native dispatches and nothing else.
pub proof fn only_native_keys_are_filtered_out(
    texts: TextMap<String>,
    kept_texts: TextMap<String>,
    projects: TextMap<ProjectContext>,
    kept_projects: TextMap<ProjectContext>,
    k: Seq<char>,
)
    requires
        call_ensures(filter_native_keys_string_map, (&texts,), kept_texts),
        call_ensures(filter_native_keys_projects_map, (&projects,), kept_projects),
    ensures
        starts_native(k) ==> !kept_texts@.contains_key(k) && !kept_projects@.contains_key(k),
        !starts_native(k) ==> agree(texts@, kept_texts@, k) && agree(
            projects@,
            kept_projects@,
            k,
        ),
{
    lemma_starts_native(k);
}

/// A pool for tests holds what it is given and no connection.
pub proof fn test_pools_hold_what_they_are_given(
    working_dir: String,
    state: SessionPoolTestState,
    r: SessionPool,
)
    requires
        call_ensures(SessionPool::with_test_state, (working_dir, state), r),
    ensures
        r@.suspended == state.suspended@,
        r@.persisted == state.persisted@,
        r@.session_workdirs == state.session_workdirs@,
        r@.session_projects == state.session_projects@,
        r@.working_dir == working_dir@,
        r@.active.dom() =~= Set::empty(),
        r@.untrusted.dom() =~= Set::empty(),
        r@.outstanding == 0 && r@.max_sessions == 4,
{
}

/// Something beside white space.
pub open spec fn has_text(s: Seq<char>) -> bool {
    exists|i: int| 0 <= i < s.len() && !is_space(#[trigger] s[i])
}

/// The sessions of an agent are kept under the home directory, in a directory with
/// the agent's name. Without a home or a name there is no such place; nor is there
/// for a name that is no single directory.
pub proof fn agents_have_a_directory_of_their_own(
    home: Option<&str>,
    agent: Option<&str>,
    name: Seq<char>,
    r: Result<String, PoolError>,
)
    requires
        call_ensures(agent_persistence_root, (home, agent), r),
    ensures
        home is None || !has_text(home->0@) ==> r is Err && r->Err_0 is MissingHome,
        home is Some && has_text(home->0@) && (agent is None || !has_text(agent->0@)) ==> r is Err
            && r->Err_0 is MissingAgentName,
        home is Some && has_text(home->0@) && agent is Some && agent->0@ == name && trim(name)
            == name && has_text(name) ==> {
            let plain = forall|i: int| 0 <= i < name.len() ==> #[trigger] name[i] != '/' && name[i]
                != '\\';
            &&& plain && name != seq!['.'] && name != seq!['.', '.'] && home->0@.last() != '/' ==> r
                is Ok && r->Ok_0@ == home->0@ + "/.openab/agents/"@ + name
            &&& (exists|i: int| 0 <= i < name.len() && #[trigger] name[i] == '\\') ==> r is Err
                && r->Err_0 is UnsafeAgentName
            &&& name == seq!['.'] || name == seq!['.', '.'] || name[0] == '/' ==> r is Err
                && r->Err_0 is UnsafeAgentName
            &&& (exists|i: int, j: int|
                0 <= i < j < name.len() && #[trigger] name[i] == '/' && #[trigger] name[j] != '/'
                    && name[j] != '.') ==> r is Err && r->Err_0 is UnsafeAgentName
        },
{
    if home is Some {
        blank_is_all_space(home->0@);
    }
    if agent is Some {
        blank_is_all_space(agent->0@);
    }
    if home is Some && has_text(home->0@) && agent is Some && agent->0@ == name && trim(name) == name
        && has_text(name) {
        let h = home->0@;
        lemma_char_at(name, '\\');
        lemma_char_at(name, '/');
        let end = char_at(name, '/') as int;
        let rest = name.skip(end);
        reveal_strlit("/");
        reveal_strlit(".openab");
        reveal_strlit("agents");
        reveal_strlit("/.openab/agents/");
        if h.last() != '/' {
            let a = h + "/"@ + ".openab"@;
            assert(a.last() == 'b');
            let b = a + "/"@ + "agents"@;
            assert(b.last() == 's');
            assert(b + "/"@ + name =~= h + "/.openab/agents/"@ + name);
        }
        if forall|i: int| 0 <= i < name.len() ==> #[trigger] name[i] != '/' && name[i] != '\\' {
            lemma_char_at_is(name, '/', name.len() as int);
            lemma_char_at_is(name, '\\', name.len() as int);
            assert(name.take(end) =~= name);
            assert(rest.len() == 0);
        }
        if name[0] == '/' {
            assert(name.take(end).len() == 0);
        }
        if name == seq!['.'] || name == seq!['.', '.'] {
            assert(end == name.len());
            assert(name.take(end) =~= name);
        }
        if exists|i: int, j: int|
            0 <= i < j < name.len() && #[trigger] name[i] == '/' && #[trigger] name[j] != '/'
                && name[j] != '.' {
            let (i, j) = choose|i: int, j: int|
                0 <= i < j < name.len() && #[trigger] name[i] == '/' && #[trigger] name[j] != '/'
                    && name[j] != '.';
            assert(end <= i);
            assert(rest[j - end] == name[j]);
            assert(!crate::paths::adds_nothing(rest));
        }
    }
}

/// The files lie in the agent's directory under their names, and each is written
/// beside its place first.
pub proof fn files_lie_in_the_agents_directory(
    root: &str,
    r: PersistencePaths,
    path: &str,
    beside: String,
)
    requires
        call_ensures(persistence_paths, (root,), r),
        call_ensures(temporary_path, (path,), beside),
        root@.len() > 0,
        root@.last() != '/',
    ensures
        r.mapping@ == root@ + "/thread_map.json"@,
        r.meta@ == root@ + "/session_meta.json"@,
        r.projects@ == root@ + "/session_projects.json"@,
        beside@ == path@ + ".tmp"@,
{
    reveal_strlit("/");
    reveal_strlit("thread_map.json");
    reveal_strlit("session_meta.json");
    reveal_strlit("session_projects.json");
    reveal_strlit("/thread_map.json");
    reveal_strlit("/session_meta.json");
    reveal_strlit("/session_projects.json");
    assert(root@ + "/"@ + "thread_map.json"@ =~= root@ + "/thread_map.json"@);
    assert(root@ + "/"@ + "session_meta.json"@ =~= root@ + "/session_meta.json"@);
    assert(root@ + "/"@ + "session_projects.json"@ =~= root@ + "/session_projects.json"@);
}

/// A hung session that is ended is reported as a warning, with its thread and its
/// session redacted, its age and the threshold.
pub proof fn hung_sessions_are_reported(
    key: &str,
    session_id: Option<&str>,
    age: u64,
    threshold: u64,
    r: LogEntry,
)
    requires
        call_ensures(warn_force_evicting_hung, (key, session_id, age, threshold), r),
    ensures
        r.level is Warn,
        r.fields@.len() == 5,
        r.fields@[0].0@ == "message"@ && r.fields@[0].1@ == "force-evicting hung session"@,
        r.fields@[1].0@ == "thread_id"@ && r.fields@[1].1@ == redacted(key@),
        r.fields@[2].0@ == "session_id"@,
        session_id is Some ==> r.fields@[2].1@ == redacted(session_id->0@),
        session_id is None ==> r.fields@[2].1@.len() == 0,
        r.fields@[3].0@ == "age_secs"@ && r.fields@[3].1@ == decimal(age as nat),
        r.fields@[4].0@ == "threshold_secs"@ && r.fields@[4].1@ == decimal(threshold as nat),
{
    let v = field_views(r.fields@);
    assert(v.len() == 5);
    assert(v[0] == (r.fields@[0].0@, r.fields@[0].1@));
    assert(v[1] == (r.fields@[1].0@, r.fields@[1].1@));
    assert(v[2] == (r.fields@[2].0@, r.fields@[2].1@));
    assert(v[3] == (r.fields@[3].0@, r.fields@[3].1@));
    assert(v[4] == (r.fields@[4].0@, r.fields@[4].1@));
}

/// The sessions that are there and those that are being created do not exceed the
/// limit, and a connection has an activity as long as it is there.
pub open spec fn within_the_limit(p: PoolText) -> bool {
    &&& p.active.dom().finite()
    &&& p.active.dom().len() + p.outstanding <= p.max_sessions
    &&& forall|k: Seq<char>| #[trigger] p.active.contains_key(k) == p.activity.contains_key(k)
    &&& forall|k: Seq<char>| #[trigger] p.cancel_handles.contains_key(k) ==> p.active.contains_key(k)
    &&& forall|k: Seq<char>| #[trigger] p.pgids.contains_key(k) ==> p.active.contains_key(k)
}

proof fn lemma_within_the_limit(pool: SessionPool)
    requires
        pool.wf(),
    ensures
        within_the_limit(pool@),
{
    let p = pool@;
    assert forall|k: Seq<char>| #[trigger] p.active.contains_key(k) == p.activity.contains_key(k) by {
        assert(p.active.dom().contains(k) == p.activity.dom().contains(k));
    }
    assert forall|k: Seq<char>| #[trigger] p.cancel_handles.contains_key(k) implies p.active.contains_key(
        k,
    ) by {
        assert(p.cancel_handles.dom().contains(k));
    }
    assert forall|k: Seq<char>| #[trigger] p.pgids.contains_key(k) implies p.active.contains_key(k) by {
        assert(p.pgids.dom().contains(k));
    }
}

/// Whatever is done to a pool, it stays within its limit.
pub proof fn pools_stay_within_their_limit(
    pool: &mut SessionPool,
    thread: &str,
    plan: CreatePlan,
    c: NewConnection,
    probes: &Vec<ConnectionProbe>,
    now: u64,
    sweep: SweepPlan,
    ids: Vec<(String, String)>,
    evicted: Result<Option<Eviction>, PoolError>,
    outcome: CreateOutcome,
    token: Option<String>,
    tokens: Vec<String>,
    claimed: Result<u64, PoolError>,
    reset: (Result<(), PoolError>, Option<String>),
    flag: bool,
    n: u64,
    count: usize,
)
    requires
        (call_ensures(
                SessionPool::ensure_capacity_or_evict,
                (pool, thread, probes),
                evicted,
            )
            || call_ensures(SessionPool::release_reservation, (pool,), ())
            || call_ensures(
                SessionPool::finish_get_or_create,
                (pool, thread, plan, c, probes, now),
                outcome,
            )
            || call_ensures(SessionPool::create_fresh_session_only, (pool, thread, c, now), token)
            || call_ensures(SessionPool::claim_connection, (pool, thread, flag, now), claimed)
            || call_ensures(SessionPool::release_connection, (pool, thread, n, now), ())
            || call_ensures(SessionPool::creation_gate, (pool, thread, n), n)
            || call_ensures(SessionPool::reset_session, (pool, thread), reset)
            || call_ensures(SessionPool::cleanup_idle, (pool, probes, n, now), sweep)
            || call_ensures(SessionPool::apply_sweep, (pool, &sweep), tokens)
            || call_ensures(SessionPool::shutdown, (pool, ids), count)),
    ensures
        within_the_limit(final(pool)@),
{
    lemma_within_the_limit(*final(pool));
}

} // verus!
