//! What every operation of the pool keeps, and what one does for the next.

use vstd::prelude::*;

use crate::acp::project::ProjectText;

use super::capacity::{evictable, evicted, idle_since, oldest_evictable, reserved, unreserved};
use super::create::{
    connected, create_decision, installed, DecisionText, NewConnectionText, PlanText,
};
use super::entry_phase;
use super::keys::native;
use super::lifecycle::{after_reset, after_shutdown, claim_fault, in_phase, reusable, suspending};
use super::persistence::{
    loaded, loaded_projects, restored, saved, without_native, ProjectsText,
};
use super::state::{
    probe_of, ActiveEntry, PoolFault, PoolText, ProbeText, SessionActivity,
};
use super::sweep::{
    all_hung_swept, all_stale_swept, healed, hung_session, hung_swept, idle_evicted, is_hung, is_stale,
    lists_hung, lists_stale, stale_session, still_has, swept, HungText, StaleText,
};

verus! {

/// Reserving room in a pool with room, giving a reservation up, and taking a
/// connection in under a reservation all keep the pool within its limit.
pub proof fn creation_keeps_the_limit(
    p: PoolText,
    thread: Seq<char>,
    plan: PlanText,
    c: NewConnectionText,
    now: u64,
)
    requires
        p.within_capacity(),
    ensures
        p.active.dom().len() + p.outstanding < p.max_sessions ==> reserved(p).within_capacity(),
        p.outstanding > 0 ==> unreserved(p).within_capacity(),
        p.outstanding > 0 ==> installed(p, thread, plan, c, now).within_capacity(),
        p.outstanding > 0 ==> unreserved(connected(p, thread, c, now)).within_capacity(),
{
    assert(p.active.insert(
        thread,
        ActiveEntry { handle: c.handle, phase: entry_phase::IDLE },
    ).dom() =~= p.active.dom().insert(thread));
    let rest = p.active.remove(thread);
    assert(rest.dom() =~= p.active.dom().remove(thread));
    assert(rest.insert(thread, ActiveEntry { handle: c.handle, phase: entry_phase::IDLE }).dom()
        =~= rest.dom().insert(thread));
}

/// Evicting a session frees the room that the reservation takes, and no way to
/// end a session exceeds the limit.
pub proof fn removal_keeps_the_limit(
    p: PoolText,
    key: Seq<char>,
    session_id: Option<Seq<char>>,
    stale: Seq<StaleText>,
    hung: Seq<HungText>,
    ids: Seq<(Seq<char>, Seq<char>)>,
)
    requires
        p.within_capacity(),
    ensures
        p.active.contains_key(key) ==> reserved(evicted(p, key, session_id)).within_capacity(),
        after_reset(p, key).within_capacity(),
        swept(p, stale, hung).within_capacity(),
        after_shutdown(p, ids).within_capacity(),
{
    assert(p.active.remove(key).dom() =~= p.active.dom().remove(key));
    lemma_stale_limit(p, stale);
    lemma_hung_limit(all_stale_swept(p, stale), hung);
    lemma_suspending(p, ids);
    assert(Map::<Seq<char>, ActiveEntry>::empty().dom() =~= Set::empty());
}

proof fn lemma_stale_limit(p: PoolText, stale: Seq<StaleText>)
    requires
        p.within_capacity(),
    ensures
        all_stale_swept(p, stale).within_capacity(),
    decreases stale.len(),
{
    if stale.len() > 0 {
        lemma_stale_limit(p, stale.drop_last());
        let q = all_stale_swept(p, stale.drop_last());
        let k = stale.last().key;
        assert(q.active.remove(k).dom() =~= q.active.dom().remove(k));
    }
}

proof fn lemma_hung_limit(p: PoolText, hung: Seq<HungText>)
    requires
        p.within_capacity(),
    ensures
        all_hung_swept(p, hung).within_capacity(),
    decreases hung.len(),
{
    if hung.len() > 0 {
        lemma_hung_limit(p, hung.drop_last());
        let q = all_hung_swept(p, hung.drop_last());
        let k = hung.last().key;
        assert(q.active.remove(k).dom() =~= q.active.dom().remove(k));
    }
}

proof fn lemma_suspending(p: PoolText, ids: Seq<(Seq<char>, Seq<char>)>)
    ensures
        suspending(p, ids) == (PoolText {
            persisted: suspending(p, ids).persisted,
            suspended: suspending(p, ids).suspended,
            ..p
        }),
        p.native_free() ==> suspending(p, ids).native_free(),
    decreases ids.len(),
{
    if ids.len() > 0 {
        lemma_suspending(p, ids.drop_last());
    }
}

/// Nothing of a native dispatch becomes resumable or survives: no eviction, sweep,
/// reset, shutdown or creation stores anything under such a key, and a restored
/// pool has none.
pub proof fn native_dispatches_leave_no_trace(
    p: PoolText,
    thread: Seq<char>,
    plan: PlanText,
    c: NewConnectionText,
    now: u64,
    session_id: Option<Seq<char>>,
    stale: Seq<StaleText>,
    hung: Seq<HungText>,
    ids: Seq<(Seq<char>, Seq<char>)>,
)
    requires
        p.native_free(),
    ensures
        evicted(p, thread, session_id).native_free(),
        !native(thread) ==> installed(p, thread, plan, c, now).native_free(),
        connected(p, thread, c, now).native_free(),
        after_reset(p, thread).native_free(),
        swept(p, stale, hung).native_free(),
        after_shutdown(p, ids).native_free(),
{
    lemma_stale_native(p, stale);
    lemma_hung_native(all_stale_swept(p, stale), hung);
    lemma_suspending(p, ids);
}

proof fn lemma_stale_native(p: PoolText, stale: Seq<StaleText>)
    requires
        p.native_free(),
    ensures
        all_stale_swept(p, stale).native_free(),
    decreases stale.len(),
{
    if stale.len() > 0 {
        lemma_stale_native(p, stale.drop_last());
    }
}

proof fn lemma_hung_native(p: PoolText, hung: Seq<HungText>)
    requires
        p.native_free(),
    ensures
        all_hung_swept(p, hung).native_free(),
    decreases hung.len(),
{
    if hung.len() > 0 {
        lemma_hung_native(p, hung.drop_last());
    }
}

/// A restored pool knows of no native dispatch, whatever the files hold.
pub proof fn restored_pool_is_native_free(
    working_dir: Seq<char>,
    max_sessions: usize,
    hung_threshold_secs: u64,
    mapping: Option<Seq<char>>,
    meta: Option<Seq<char>>,
    projects: ProjectsText,
)
    ensures
        restored(
            working_dir,
            max_sessions,
            hung_threshold_secs,
            mapping,
            meta,
            projects,
        ).native_free(),
{
}

/// A native dispatch is never answered from what the pool holds: it gets a session
/// of its own whatever is active, suspended or persisted under its key.
pub proof fn native_dispatches_start_fresh(
    p: PoolText,
    thread: Seq<char>,
    project: Option<ProjectText>,
    canonicalized: Option<Result<ProjectText, Seq<char>>>,
    probes: Seq<ProbeText>,
    c: NewConnectionText,
    now: u64,
)
    requires
        native(thread),
    ensures
        create_decision(p, thread, project, canonicalized, probes) == Ok::<DecisionText, PoolFault>(
            DecisionText::Fresh,
        ),
        ({
            let q = connected(p, thread, c, now);
            &&& q.suspended == p.suspended
            &&& q.persisted == p.persisted
            &&& q.session_workdirs == p.session_workdirs
            &&& q.session_projects == p.session_projects
            &&& q.untrusted == p.untrusted
        }),
{
}

/// The two pools hold the same of a key.
pub open spec fn same_at(p: PoolText, q: PoolText, k: Seq<char>) -> bool {
    &&& p.active.contains_key(k) == q.active.contains_key(k)
    &&& p.active.contains_key(k) ==> p.active[k] == q.active[k]
    &&& p.cancel_handles.contains_key(k) == q.cancel_handles.contains_key(k)
    &&& p.cancel_handles.contains_key(k) ==> p.cancel_handles[k] == q.cancel_handles[k]
    &&& p.facade_tokens.contains_key(k) == q.facade_tokens.contains_key(k)
    &&& p.facade_tokens.contains_key(k) ==> p.facade_tokens[k] == q.facade_tokens[k]
    &&& p.activity.contains_key(k) == q.activity.contains_key(k)
    &&& p.activity.contains_key(k) ==> p.activity[k] == q.activity[k]
    &&& p.pgids.contains_key(k) == q.pgids.contains_key(k)
    &&& p.pgids.contains_key(k) ==> p.pgids[k] == q.pgids[k]
    &&& p.suspended.contains_key(k) == q.suspended.contains_key(k)
    &&& p.suspended.contains_key(k) ==> p.suspended[k] == q.suspended[k]
    &&& p.persisted.contains_key(k) == q.persisted.contains_key(k)
    &&& p.persisted.contains_key(k) ==> p.persisted[k] == q.persisted[k]
    &&& p.creating.contains_key(k) == q.creating.contains_key(k)
    &&& p.creating.contains_key(k) ==> p.creating[k] == q.creating[k]
    &&& p.session_workdirs.contains_key(k) == q.session_workdirs.contains_key(k)
    &&& p.session_workdirs.contains_key(k) ==> p.session_workdirs[k] == q.session_workdirs[k]
    &&& p.session_projects.contains_key(k) == q.session_projects.contains_key(k)
    &&& p.session_projects.contains_key(k) ==> p.session_projects[k] == q.session_projects[k]
    &&& p.untrusted.contains_key(k) == q.untrusted.contains_key(k)
}

/// Creating, evicting, resetting, claiming or releasing one thread's session
/// leaves every other thread as it was, its lost or kept project binding too.
pub proof fn threads_are_isolated(
    p: PoolText,
    thread: Seq<char>,
    other: Seq<char>,
    plan: PlanText,
    c: NewConnectionText,
    now: u64,
    session_id: Option<Seq<char>>,
    phase: u8,
    activity: SessionActivity,
)
    requires
        other != thread,
    ensures
        same_at(p, installed(p, thread, plan, c, now), other),
        same_at(p, unreserved(connected(p, thread, c, now)), other),
        same_at(p, reserved(evicted(p, thread, session_id)), other),
        same_at(p, idle_evicted(p, thread, session_id), other),
        same_at(p, after_reset(p, thread), other),
        same_at(p, in_phase(p, thread, phase, activity), other),
{
}

/// A session that is at work is never evicted to make room, nor is the session of
/// the thread that room is made for; and none that was idle longer is spared.
pub proof fn eviction_takes_the_oldest_idle(
    p: PoolText,
    exclude: Seq<char>,
    probes: Seq<ProbeText>,
    key: Seq<char>,
    other: Seq<char>,
)
    requires
        oldest_evictable(p, exclude, probes, key),
    ensures
        key != exclude,
        p.active[key].phase == entry_phase::IDLE,
        probe_of(probes, p.active[key].handle) is Some,
        evictable(p, exclude, probes, other) ==> idle_since(p, probes, key) <= idle_since(
            p,
            probes,
            other,
        ),
{
}

/// A connection is claimed by one side only: a prompt's claim takes it out of
/// reach of eviction and of other prompts, and an evicted one cannot be claimed.
pub proof fn claims_are_exclusive(
    p: PoolText,
    thread: Seq<char>,
    exclude: Seq<char>,
    probes: Seq<ProbeText>,
    locked: bool,
    session_id: Option<Seq<char>>,
    now: u64,
)
    requires
        p.active.contains_key(thread),
    ensures
        ({
            let claimed = in_phase(
                p,
                thread,
                entry_phase::BUSY,
                SessionActivity { in_flight: true, touched_at: now },
            );
            &&& !evictable(claimed, exclude, probes, thread)
            &&& claim_fault(claimed, thread, locked) is Some
        }),
        claim_fault(evicted(p, thread, session_id), thread, locked) == Some(
            PoolFault::NoConnection,
        ),
{
}

/// Giving a claimed connection back makes it free again: every connection is as it
/// was before the claim.
pub proof fn release_undoes_the_claim(p: PoolText, thread: Seq<char>, claimed_at: u64, now: u64)
    requires
        claim_fault(p, thread, false) is None,
    ensures
        ({
            let claimed = in_phase(
                p,
                thread,
                entry_phase::BUSY,
                SessionActivity { in_flight: true, touched_at: claimed_at },
            );
            let released = in_phase(
                claimed,
                thread,
                entry_phase::IDLE,
                SessionActivity { in_flight: false, touched_at: now },
            );
            &&& released.active == p.active
            &&& !released.activity[thread].in_flight
            &&& claim_fault(released, thread, false) is None
        }),
{
    let claimed = in_phase(
        p,
        thread,
        entry_phase::BUSY,
        SessionActivity { in_flight: true, touched_at: claimed_at },
    );
    let released = in_phase(
        claimed,
        thread,
        entry_phase::IDLE,
        SessionActivity { in_flight: false, touched_at: now },
    );
    assert(released.active =~= p.active);
}

/// A thread that is bound to a project is refused to any other, whether its
/// session is at work, idle, dead or suspended.
pub proof fn bound_thread_refuses_other_projects(
    p: PoolText,
    thread: Seq<char>,
    project: Option<ProjectText>,
    incoming: ProjectText,
    probes: Seq<ProbeText>,
)
    requires
        !native(thread),
        p.session_projects.contains_key(thread),
        !p.session_projects[thread].same(incoming),
    ensures
        create_decision(p, thread, project, Some(Ok(incoming)), probes) == Err::<
            DecisionText,
            PoolFault,
        >(PoolFault::ProjectMismatch(p.session_projects[thread], incoming)),
{
}

/// A thread whose project binding was lost is refused to a pinned project as long
/// as its session can be resumed. Other threads being bound changes nothing of
/// that; a reset does.
pub proof fn lost_binding_is_refused(
    p: PoolText,
    thread: Seq<char>,
    project: Option<ProjectText>,
    incoming: ProjectText,
    probes: Seq<ProbeText>,
    other: Seq<char>,
    plan: PlanText,
    c: NewConnectionText,
    now: u64,
)
    requires
        !native(thread),
        !p.session_projects.contains_key(thread),
        p.untrusted.contains_key(thread),
        p.persisted.contains_key(thread) || p.suspended.contains_key(thread),
        other != thread,
    ensures
        create_decision(p, thread, project, Some(Ok(incoming)), probes) == Err::<
            DecisionText,
            PoolFault,
        >(PoolFault::UntrustedBinding),
        create_decision(
            installed(p, other, plan, c, now),
            thread,
            project,
            Some(Ok(incoming)),
            probes,
        ) == Err::<DecisionText, PoolFault>(PoolFault::UntrustedBinding),
        create_decision(after_reset(p, thread), thread, project, Some(Ok(incoming)), probes) is Ok,
{
    threads_are_isolated(
        p,
        other,
        thread,
        plan,
        c,
        now,
        None,
        0,
        SessionActivity { in_flight: false, touched_at: 0 },
    );
}

/// After a reset a thread starts over: a pinned project gets a new session in its
/// root, with nothing to resume.
pub proof fn reset_thread_starts_over(
    p: PoolText,
    thread: Seq<char>,
    project: Option<ProjectText>,
    incoming: ProjectText,
    probes: Seq<ProbeText>,
)
    requires
        !native(thread),
        project is Some,
    ensures
        create_decision(after_reset(p, thread), thread, project, Some(Ok(incoming)), probes) == Ok::<
            DecisionText,
            PoolFault,
        >(
            DecisionText::Create(
                PlanText {
                    workdir: incoming.project_root,
                    project_to_store: Some(incoming),
                    saved_session_id: None,
                    had_existing: false,
                    keep_workdir: true,
                },
            ),
        ),
{
}

/// A session that was suspended to make room is the one that its thread resumes.
pub proof fn evicted_session_is_resumed(
    p: PoolText,
    thread: Seq<char>,
    session_id: Seq<char>,
    project: Option<ProjectText>,
    probes: Seq<ProbeText>,
)
    requires
        !native(thread),
    ensures
        ({
            let q = evicted(p, thread, Some(session_id));
            let d = create_decision(q, thread, project, None, probes);
            &&& d is Ok && d->Ok_0 is Create
            &&& d->Ok_0->Create_0.saved_session_id == Some(session_id)
            &&& !d->Ok_0->Create_0.had_existing
        }),
{
}

/// A thread whose session was created uses that session's connection from then on,
/// as long as it lives.
pub proof fn created_session_is_reused(
    p: PoolText,
    thread: Seq<char>,
    plan: PlanText,
    c: NewConnectionText,
    now: u64,
    project: Option<ProjectText>,
    probes: Seq<ProbeText>,
)
    requires
        !native(thread),
        probe_of(probes, c.handle) is None || probe_of(probes, c.handle)->0.alive,
    ensures
        create_decision(installed(p, thread, plan, c, now), thread, project, None, probes) == Ok::<
            DecisionText,
            PoolFault,
        >(DecisionText::Reuse),
        plan.project_to_store is Some ==> create_decision(
            installed(p, thread, plan, c, now),
            thread,
            project,
            Some(Ok(plan.project_to_store->0)),
            probes,
        ) == Ok::<DecisionText, PoolFault>(DecisionText::Reuse),
{
}

proof fn lemma_stale_at_hand(p: PoolText, stale: Seq<StaleText>)
    requires
        p.persisted_at_hand(),
    ensures
        all_stale_swept(p, stale).persisted_at_hand(),
    decreases stale.len(),
{
    if stale.len() > 0 {
        lemma_stale_at_hand(p, stale.drop_last());
    }
}

proof fn lemma_hung_at_hand(p: PoolText, hung: Seq<HungText>)
    requires
        p.persisted_at_hand(),
    ensures
        all_hung_swept(p, hung).persisted_at_hand(),
    decreases hung.len(),
{
    if hung.len() > 0 {
        lemma_hung_at_hand(p, hung.drop_last());
    }
}

proof fn lemma_suspended_at_hand(p: PoolText, ids: Seq<(Seq<char>, Seq<char>)>, k: Seq<char>)
    requires
        !native(k),
    ensures
        suspending(p, ids).persisted.contains_key(k) <==> p.persisted.contains_key(k) || exists|i: int|
            0 <= i < ids.len() && (#[trigger] ids[i]).0 == k,
        suspending(p, ids).suspended.contains_key(k) <==> p.suspended.contains_key(k) || exists|i: int|
            0 <= i < ids.len() && (#[trigger] ids[i]).0 == k,
    decreases ids.len(),
{
    if ids.len() > 0 {
        let init = ids.drop_last();
        lemma_suspended_at_hand(p, init, k);
        let last = ids.len() - 1;
        if exists|i: int| 0 <= i < init.len() && (#[trigger] init[i]).0 == k {
            let i = choose|i: int| 0 <= i < init.len() && (#[trigger] init[i]).0 == k;
            assert(ids[i].0 == k);
        }
        if exists|i: int| 0 <= i < ids.len() && (#[trigger] ids[i]).0 == k {
            let i = choose|i: int| 0 <= i < ids.len() && (#[trigger] ids[i]).0 == k;
            if i < last {
                assert(init[i].0 == k);
            }
        }
        if ids.last().0 == k {
            assert(ids[last].0 == k);
        }
    }
}

/// A shutdown found the session of every ordinary thread that is persisted and
/// has a connection.
pub open spec fn names_every_session(p: PoolText, ids: Seq<(Seq<char>, Seq<char>)>) -> bool {
    forall|k: Seq<char>| #[trigger]
        p.persisted.contains_key(k) && !native(k) && p.active.contains_key(k) ==> exists|i: int|
            0 <= i < ids.len() && (#[trigger] ids[i]).0 == k
}

/// A pool that has every persisted session at hand keeps it so, whatever is done:
/// reserving and giving up room, evicting, taking a connection in, claiming
/// and giving back, sweeping, resetting, and a shutdown that found the sessions of
/// the connections.
pub proof fn persisted_sessions_stay_at_hand(
    p: PoolText,
    thread: Seq<char>,
    plan: PlanText,
    c: NewConnectionText,
    now: u64,
    session_id: Option<Seq<char>>,
    probes: Seq<ProbeText>,
    stale: Seq<StaleText>,
    hung: Seq<HungText>,
    ids: Seq<(Seq<char>, Seq<char>)>,
    phase: u8,
    activity: SessionActivity,
)
    requires
        p.persisted_at_hand(),
    ensures
        reserved(p).persisted_at_hand(),
        unreserved(p).persisted_at_hand(),
        evicted(p, thread, session_id).persisted_at_hand(),
        connected(p, thread, c, now).persisted_at_hand(),
        installed(p, thread, plan, c, now).persisted_at_hand(),
        in_phase(p, thread, phase, activity).persisted_at_hand(),
        healed(p, probes, now).persisted_at_hand(),
        swept(p, stale, hung).persisted_at_hand(),
        after_reset(p, thread).persisted_at_hand(),
        names_every_session(p, ids) ==> after_shutdown(p, ids).persisted_at_hand(),
{
    lemma_stale_at_hand(p, stale);
    lemma_hung_at_hand(all_stale_swept(p, stale), hung);
    if names_every_session(p, ids) {
        let q = after_shutdown(p, ids);
        assert forall|k: Seq<char>| #[trigger] q.persisted.contains_key(k) && !native(
            k,
        ) implies q.active.contains_key(k) || q.suspended.contains_key(k) by {
            lemma_suspended_at_hand(p, ids, k);
        }
    }
}

/// A restored pool has every persisted session at hand, whatever the files hold.
pub proof fn restored_sessions_are_at_hand(
    working_dir: Seq<char>,
    max_sessions: usize,
    hung_threshold_secs: u64,
    mapping: Option<Seq<char>>,
    meta: Option<Seq<char>>,
    projects: ProjectsText,
)
    ensures
        restored(
            working_dir,
            max_sessions,
            hung_threshold_secs,
            mapping,
            meta,
            projects,
        ).persisted_at_hand(),
{
}

/// A thread is said to have a session to go on with exactly where asking for one
/// does not start a new one: its connection serves, or the plan is to go on from an
/// earlier session. This is said of ordinary threads; the premise on the pool holds
/// of every pool that comes about by operations on a restored one.
pub proof fn reuse_is_foretold(
    p: PoolText,
    thread: Seq<char>,
    project: Option<ProjectText>,
    canonicalized: Option<Result<ProjectText, Seq<char>>>,
    probes: Seq<ProbeText>,
)
    requires
        !native(thread),
        p.persisted_at_hand(),
    ensures
        match create_decision(p, thread, project, canonicalized, probes) {
            Ok(DecisionText::Fresh) => false,
            Ok(DecisionText::Reuse) => reusable(p, thread),
            Ok(DecisionText::Create(plan)) => reusable(p, thread) <==> plan.had_existing
                || plan.saved_session_id is Some,
            Err(_) => true,
        },
        project is None && canonicalized is None ==> create_decision(
            p,
            thread,
            project,
            canonicalized,
            probes,
        ) is Ok,
{
}

/// A hung session leaves nothing that could be resumed, but the creation lock of its
/// thread.
pub proof fn hung_session_is_forgotten(p: PoolText, h: HungText)
    requires
        still_has(p, h.key, h.handle),
    ensures
        ({
            let q = hung_swept(p, h);
            &&& !q.active.contains_key(h.key)
            &&& !q.suspended.contains_key(h.key)
            &&& !q.persisted.contains_key(h.key)
            &&& !q.session_workdirs.contains_key(h.key)
            &&& !q.session_projects.contains_key(h.key)
            &&& !q.untrusted.contains_key(h.key)
            &&& !q.facade_tokens.contains_key(h.key)
            &&& q.creating == p.creating
        }),
{
}

proof fn lemma_stale_spares(p: PoolText, stale: Seq<StaleText>, k: Seq<char>)
    requires
        forall|i: int|
            0 <= i < stale.len() ==> !((#[trigger] stale[i]).key == k && still_has(
                p,
                k,
                stale[i].handle,
            )),
    ensures
        same_at(p, all_stale_swept(p, stale), k),
    decreases stale.len(),
{
    if stale.len() > 0 {
        let init = stale.drop_last();
        assert forall|i: int| 0 <= i < init.len() implies !((#[trigger] init[i]).key == k
            && still_has(p, k, init[i].handle)) by {
            assert(init[i] == stale[i]);
        }
        lemma_stale_spares(p, init, k);
        let last = stale[stale.len() - 1];
        assert(!(last.key == k && still_has(p, k, last.handle)));
    }
}

proof fn lemma_hung_spares(p: PoolText, hung: Seq<HungText>, k: Seq<char>)
    requires
        forall|i: int|
            0 <= i < hung.len() ==> !((#[trigger] hung[i]).key == k && still_has(
                p,
                k,
                hung[i].handle,
            )),
    ensures
        same_at(p, all_hung_swept(p, hung), k),
    decreases hung.len(),
{
    if hung.len() > 0 {
        let init = hung.drop_last();
        assert forall|i: int| 0 <= i < init.len() implies !((#[trigger] init[i]).key == k
            && still_has(p, k, init[i].handle)) by {
            assert(init[i] == hung[i]);
        }
        lemma_hung_spares(p, init, k);
        let last = hung[hung.len() - 1];
        assert(!(last.key == k && still_has(p, k, last.handle)));
    }
}

/// A sweep touches no thread that it did not list with the connection that the
/// thread has: a session that took the place of a listed one is spared.
pub proof fn sweep_spares_successors(
    p: PoolText,
    stale: Seq<StaleText>,
    hung: Seq<HungText>,
    k: Seq<char>,
)
    requires
        forall|i: int|
            0 <= i < stale.len() ==> !((#[trigger] stale[i]).key == k && still_has(
                p,
                k,
                stale[i].handle,
            )),
        forall|i: int|
            0 <= i < hung.len() ==> !((#[trigger] hung[i]).key == k && still_has(
                p,
                k,
                hung[i].handle,
            )),
    ensures
        same_at(p, swept(p, stale, hung), k),
{
    let q = all_stale_swept(p, stale);
    lemma_stale_spares(p, stale, k);
    assert forall|i: int| 0 <= i < hung.len() implies !((#[trigger] hung[i]).key == k && still_has(
        q,
        k,
        hung[i].handle,
    )) by {}
    lemma_hung_spares(q, hung, k);
}

proof fn lemma_stale_removes(p: PoolText, stale: Seq<StaleText>, k: Seq<char>)
    ensures
        all_stale_swept(p, stale).active.contains_key(k) ==> p.active.contains_key(k) && p.active[k]
            == all_stale_swept(p, stale).active[k],
        (exists|i: int|
            0 <= i < stale.len() && (#[trigger] stale[i]).key == k && still_has(
                p,
                k,
                stale[i].handle,
            )) ==> !all_stale_swept(p, stale).active.contains_key(k),
    decreases stale.len(),
{
    if stale.len() > 0 {
        let init = stale.drop_last();
        lemma_stale_removes(p, init, k);
        if exists|i: int|
            0 <= i < stale.len() && (#[trigger] stale[i]).key == k && still_has(
                p,
                k,
                stale[i].handle,
            ) {
            let i = choose|i: int|
                0 <= i < stale.len() && (#[trigger] stale[i]).key == k && still_has(
                    p,
                    k,
                    stale[i].handle,
                );
            if i < init.len() {
                assert(init[i] == stale[i]);
            }
        }
    }
}

proof fn lemma_hung_removes(p: PoolText, hung: Seq<HungText>, k: Seq<char>)
    ensures
        all_hung_swept(p, hung).active.contains_key(k) ==> p.active.contains_key(k) && p.active[k]
            == all_hung_swept(p, hung).active[k],
        (exists|i: int|
            0 <= i < hung.len() && (#[trigger] hung[i]).key == k && still_has(
                p,
                k,
                hung[i].handle,
            )) ==> !all_hung_swept(p, hung).active.contains_key(k),
    decreases hung.len(),
{
    if hung.len() > 0 {
        let init = hung.drop_last();
        lemma_hung_removes(p, init, k);
        if exists|i: int|
            0 <= i < hung.len() && (#[trigger] hung[i]).key == k && still_has(p, k, hung[i].handle) {
            let i = choose|i: int|
                0 <= i < hung.len() && (#[trigger] hung[i]).key == k && still_has(
                    p,
                    k,
                    hung[i].handle,
                );
            if i < init.len() {
                assert(init[i] == hung[i]);
            }
        }
    }
}

/// A sweep that is carried out at once removes exactly the sessions that are stale
/// or hung; every other session keeps its connection.
pub proof fn sweep_removes_what_it_should(
    p: PoolText,
    probes: Seq<ProbeText>,
    cutoff: u64,
    now: u64,
    stale: Seq<StaleText>,
    hung: Seq<HungText>,
    k: Seq<char>,
)
    requires
        lists_stale(p, probes, cutoff, stale),
        lists_hung(p, probes, now, hung),
    ensures
        swept(healed(p, probes, now), stale, hung).active.contains_key(k) <==> p.active.contains_key(
            k,
        ) && !is_stale(p, probes, cutoff, k) && !is_hung(p, probes, now, k),
{
    let h = healed(p, probes, now);
    let q = all_stale_swept(h, stale);
    lemma_stale_removes(h, stale, k);
    lemma_hung_removes(q, hung, k);
    if is_stale(p, probes, cutoff, k) {
        let s = stale_session(p, probes, k);
        assert(stale.contains(s));
        let i = choose|i: int| 0 <= i < stale.len() && stale[i] == s;
        assert(stale[i].key == k && still_has(h, k, stale[i].handle));
    } else if is_hung(p, probes, now, k) {
        let s = hung_session(p, now, k);
        assert(hung.contains(s));
        let i = choose|i: int| 0 <= i < hung.len() && hung[i] == s;
        if q.active.contains_key(k) {
            assert(hung[i].key == k && still_has(q, k, hung[i].handle));
        }
    } else if p.active.contains_key(k) {
        assert forall|i: int| 0 <= i < stale.len() implies !((#[trigger] stale[i]).key == k
            && still_has(h, k, stale[i].handle)) by {
            assert(is_stale(p, probes, cutoff, stale[i].key));
        }
        assert forall|i: int| 0 <= i < hung.len() implies !((#[trigger] hung[i]).key == k
            && still_has(h, k, hung[i].handle)) by {
            assert(is_hung(p, probes, now, hung[i].key));
        }
        sweep_spares_successors(h, stale, hung, k);
    }
}

/// A restart finds the sessions, directories and projects that were saved, those of
/// native dispatches excepted, provided that the saved texts read back.
pub proof fn restart_finds_saved_sessions(
    p: PoolText,
    working_dir: Seq<char>,
    max_sessions: usize,
    hung_threshold_secs: u64,
)
    requires
        loaded(Some(saved(p.persisted))) == without_native(p.persisted),
        loaded(Some(saved(p.session_workdirs))) == without_native(p.session_workdirs),
    ensures
        ({
            let q = restored(
                working_dir,
                max_sessions,
                hung_threshold_secs,
                Some(saved(p.persisted)),
                Some(saved(p.session_workdirs)),
                ProjectsText::Bindings(without_native(p.session_projects)),
            );
            &&& q.suspended == without_native(p.persisted)
            &&& q.persisted == without_native(p.persisted)
            &&& q.session_workdirs == without_native(p.session_workdirs)
            &&& q.session_projects == without_native(p.session_projects)
            &&& q.untrusted == Map::<Seq<char>, ()>::empty()
        }),
{
    assert(without_native(without_native(p.persisted)) =~= without_native(p.persisted));
    assert(without_native(without_native(p.session_workdirs)) =~= without_native(
        p.session_workdirs,
    ));
    assert(without_native(without_native(p.session_projects)) =~= without_native(
        p.session_projects,
    ));
}

/// Where the file of projects is corrupt, every thread that can be resumed is
/// untrusted, and no thread is bound.
pub proof fn corrupt_projects_are_not_trusted(
    working_dir: Seq<char>,
    max_sessions: usize,
    hung_threshold_secs: u64,
    mapping: Option<Seq<char>>,
    meta: Option<Seq<char>>,
    projects: ProjectsText,
    thread: Seq<char>,
)
    requires
        loaded_projects(projects) is Err,
    ensures
        ({
            let q = restored(
                working_dir,
                max_sessions,
                hung_threshold_secs,
                mapping,
                meta,
                projects,
            );
            &&& q.untrusted.contains_key(thread) <==> q.suspended.contains_key(thread)
            &&& !q.session_projects.contains_key(thread)
        }),
{
}

/// A shutdown suspends every session that it finds, under the thread that had it,
/// and leaves it for a restart; but for those of native dispatches.
pub proof fn shutdown_keeps_ordinary_sessions(
    p: PoolText,
    ids: Seq<(Seq<char>, Seq<char>)>,
    i: int,
)
    requires
        0 <= i < ids.len(),
        !native(ids[i].0),
        forall|j: int| i < j < ids.len() ==> (#[trigger] ids[j]).0 != ids[i].0,
    ensures
        after_shutdown(p, ids).persisted.contains_key(ids[i].0),
        after_shutdown(p, ids).persisted[ids[i].0] == ids[i].1,
        after_shutdown(p, ids).suspended.contains_key(ids[i].0),
        after_shutdown(p, ids).suspended[ids[i].0] == ids[i].1,
    decreases ids.len(),
{
    if i < ids.len() - 1 {
        let init = ids.drop_last();
        assert(init[i] == ids[i]);
        assert forall|j: int| i < j < init.len() implies (#[trigger] init[j]).0 != init[i].0 by {
            assert(init[j] == ids[j]);
        }
        shutdown_keeps_ordinary_sessions(p, init, i);
        assert(ids[ids.len() - 1].0 != ids[i].0);
    }
}

} // verus!
