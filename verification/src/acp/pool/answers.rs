//! What each operation of the pool answers and keeps, in terms of what it is given.

use vstd::prelude::*;

use crate::acp::project::{is_pinned, ProjectContext, ProjectText};
use crate::decimal::decimal;
use crate::json::json_string;
use crate::json_laws::{member, members, object};
use crate::paths::same_path;
use crate::redact::redacted;
use crate::text::{contains, debug_quoted, occurs_at};
use crate::text_map::TextMap;

use super::capacity::{
    evictable, get_or_insert_gate, none_evictable, phase_load, phase_try_cas, remove_if_same_handle,
    Eviction, EvictionCandidate,
};
use super::create::{
    add_session_token, after_load, facade_channel, mint_channel, native_facade_channel, plan_load, session_was_reset, CreateDecision, CreateOutcome, CreatePlan,
    NewConnection,
};
use super::entry_phase;
use super::keys::{
    better_candidate, canonicalize_pinned, classify_hung, classify_idle, classify_load_error,
    format_native_dispatch_key, is_native_dispatch_key, kill_target, native, resolve_effective_workdir,
    LoadFailure,
};
use super::laws::same_at;
use super::lifecycle::{cancel_line, cancel_request, check_approval_session};
use super::sweep::lists_every_connection;
use super::state::{
    debug_path, probe_of, probe_views, ActiveEntry, ConnectionProbe, PoolError, PoolText,
    SessionPool,
};

verus! {

/// The key of a native dispatch, by how it starts.
pub open spec fn starts_native(key: Seq<char>) -> bool {
    "native-dispatch:"@.is_prefix_of(key)
}

pub(crate) proof fn lemma_starts_native(key: Seq<char>)
    ensures
        native(key) == starts_native(key),
{
    let p = "native-dispatch:"@;
    if native(key) {
        assert(key.subrange(0, p.len() as int) == p);
    }
    if starts_native(key) {
        assert(key.subrange(0, p.len() as int) =~= p);
    }
}

/// A key is one of a native dispatch exactly where it starts with
/// `native-dispatch:`, as the key of every dispatch does; that holds the agent, a
/// colon and the dispatch.
pub proof fn native_keys_are_told_by_their_start(
    key: &str,
    r: bool,
    agent: &str,
    id: &str,
    made: String,
)
    requires
        call_ensures(is_native_dispatch_key, (key,), r),
        call_ensures(format_native_dispatch_key, (agent, id), made),
    ensures
        r <==> starts_native(key@),
        made@ == "native-dispatch:"@ + agent@ + ":"@ + id@,
        starts_native(made@),
{
    lemma_starts_native(key@);
}

/// An unlocked session is cleaned up where it was last active before the cutoff or
/// is dead; a locked one hangs where a prompt has been in flight for longer than the
/// threshold; and of two candidates the one that was active earlier is evicted.
pub proof fn sessions_are_judged_by_their_age(
    last_active: u64,
    alive: bool,
    cutoff: u64,
    idle: bool,
    in_flight: bool,
    age: u128,
    threshold: u128,
    hung: bool,
    oldest: Option<u64>,
    better: bool,
)
    requires
        call_ensures(classify_idle, (last_active, alive, cutoff), idle),
        call_ensures(classify_hung, (in_flight, age, threshold), hung),
        call_ensures(better_candidate, (oldest, last_active), better),
    ensures
        idle <==> last_active < cutoff || !alive,
        hung <==> in_flight && age > threshold,
        better <==> (oldest is Some ==> last_active < oldest->0),
{
}

/// Loading an earlier session failed for now where the agent did not answer in time
/// or the channel closed, and for good otherwise. A timeout is told before a closed
/// channel.
pub proof fn load_errors_are_told_apart(e: &str, r: LoadFailure)
    requires
        call_ensures(classify_load_error, (e,), r),
    ensures
        r is Timeout <==> contains(e@, "timeout waiting for"@),
        r is ConnectionLost <==> !contains(e@, "timeout waiting for"@) && contains(
            e@,
            "channel closed"@,
        ),
        r is Permanent <==> !contains(e@, "timeout waiting for"@) && !contains(
            e@,
            "channel closed"@,
        ),
{
}

/// A session is resumed where loading it succeeded. It is given up for a new one
/// only where it was not tried or failed for good; otherwise the attempt is reported
/// and may be repeated.
pub proof fn sessions_that_may_be_there_are_not_given_up(
    attempt: Option<Result<(), String>>,
    r: Result<bool, PoolError>,
)
    requires
        call_ensures(after_load, (attempt,), r),
    ensures
        attempt is None ==> r == Ok::<bool, PoolError>(false),
        attempt is Some && attempt->0 is Ok ==> r == Ok::<bool, PoolError>(true),
        attempt is Some && attempt->0 is Err ==> {
            let e = attempt->0->Err_0@;
            &&& contains(e, "timeout waiting for"@) ==> r is Err && r->Err_0 is SessionLoad
                && r->Err_0->SessionLoad_reason@ == "timeout"@
            &&& !contains(e, "timeout waiting for"@) && contains(e, "channel closed"@) ==> r is Err
                && r->Err_0 is SessionLoad && r->Err_0->SessionLoad_reason@ == "connection lost"@
            &&& !contains(e, "timeout waiting for"@) && !contains(e, "channel closed"@) ==> r
                == Ok::<bool, PoolError>(false)
        },
{
}

/// Only a process group with a positive number is killed.
pub proof fn only_real_groups_are_killed(pgid: Option<i32>, r: Option<i32>)
    requires
        call_ensures(kill_target, (pgid,), r),
    ensures
        pgid is Some && pgid->0 > 0 ==> r == pgid,
        pgid is Some && pgid->0 <= 0 ==> r is None,
        pgid is None ==> r is None,
{
}

/// A pinned project has the canonical form that the file system gives it, or the
/// file system's refusal; anything else has none.
pub proof fn pinned_projects_are_canonical(
    project: Option<&ProjectContext>,
    canonicalized: Option<Result<ProjectContext, String>>,
    r: Result<Option<ProjectContext>, String>,
)
    requires
        project is Some && project->0.project_id@.len() > 0 <==> canonicalized is Some,
        call_ensures(canonicalize_pinned, (project, canonicalized), r),
    ensures
        project is None || project->0.project_id@.len() == 0 ==> r == Ok::<
            Option<ProjectContext>,
            String,
        >(None),
        project is Some && project->0.project_id@.len() > 0 ==> canonicalized is Some && match canonicalized->0 {
            Ok(c) => r == Ok::<Option<ProjectContext>, String>(Some(c)),
            Err(e) => r == Err::<Option<ProjectContext>, String>(e),
        },
{
}

/// An agent works in the root of a pinned project; else in the directory that its
/// thread had before; else in that of an anonymous project; else in the configured
/// one. Only a pinned project is remembered, as it is.
pub proof fn directories_are_chosen_in_order(
    project: Option<&ProjectContext>,
    canonical: Option<&ProjectContext>,
    stored: Option<&str>,
    configured: &str,
    r: (String, Option<ProjectContext>),
)
    requires
        call_ensures(resolve_effective_workdir, (project, canonical, stored, configured), r),
    ensures
        canonical is Some ==> {
            &&& r.0@ == canonical->0.project_root@
            &&& r.1 is Some
            &&& r.1->0.project_id@ == canonical->0.project_id@
            &&& r.1->0.project_root@ == canonical->0.project_root@
        },
        canonical is None ==> {
            &&& r.1 is None
            &&& stored is Some ==> r.0@ == stored->0@
            &&& stored is None && project is Some && project->0.project_id@.len() == 0 ==> r.0@
                == project->0.project_root@
            &&& stored is None && (project is None || project->0.project_id@.len() > 0) ==> r.0@
                == configured@
        },
{
}

/// An earlier session is asked for where there is one and the agent can load. A
/// session that was not resumed though there had been one started over.
pub proof fn earlier_sessions_are_asked_for(
    plan: CreatePlan,
    supports: bool,
    asked: Option<String>,
    resumed: bool,
    reset: bool,
)
    requires
        call_ensures(plan_load, (&plan, supports), asked),
        call_ensures(session_was_reset, (&plan, resumed), reset),
    ensures
        asked is Some <==> supports && plan.saved_session_id is Some,
        asked is Some ==> asked->0@ == plan.saved_session_id->0@,
        reset <==> !resumed && (plan.had_existing || plan.saved_session_id is Some),
{
}

/// The facade channel of a thread is what follows `acp:` in its key, and that of a
/// native dispatch what follows its prefix. A token is minted for it only where the
/// configuration was written.
pub proof fn facade_channels_follow_the_prefix(
    rest: Seq<char>,
    thread: &str,
    channel: Option<String>,
    dispatch: &str,
    native_channel: String,
    asked: Option<String>,
    written: bool,
    minted: Option<String>,
)
    requires
        call_ensures(facade_channel, (thread,), channel),
        call_ensures(native_facade_channel, (dispatch,), native_channel),
        call_ensures(mint_channel, (asked, written), minted),
    ensures
        thread@ == "acp:"@ + rest ==> channel is Some && channel->0@ == rest,
        !"acp:"@.is_prefix_of(thread@) ==> channel is None,
        dispatch@ == "native-dispatch:"@ + rest ==> native_channel@ == rest,
        !starts_native(dispatch@) ==> native_channel@ == dispatch@,
        minted is Some <==> written && asked is Some,
        minted is Some ==> minted->0@ == asked->0@,
{
    lemma_behind(thread@, "acp:"@, rest);
    lemma_behind(dispatch@, "native-dispatch:"@, rest);
}

proof fn lemma_behind(s: Seq<char>, p: Seq<char>, rest: Seq<char>)
    ensures
        s == p + rest ==> crate::text::behind(s, p) == Some(rest),
        !p.is_prefix_of(s) ==> crate::text::behind(s, p) is None,
{
    if s == p + rest {
        assert(s.subrange(0, p.len() as int) =~= p);
        assert(s.skip(p.len() as int) =~= rest);
    }
    if occurs_at(s, p, 0) {
        assert(s.subrange(0, p.len() as int) == p);
        assert(p.is_prefix_of(s));
    }
}

/// A minted token is in the agent's environment under its name; without one the
/// environment stays as it was.
pub proof fn tokens_go_into_the_environment(env: &mut TextMap<String>, token: Option<&str>)
    requires
        call_ensures(add_session_token, (env, token), ()),
    ensures
        token is None ==> final(env)@ == old(env)@,
        token is Some ==> {
            &&& final(env)@.contains_key("OPENAB_SESSION_TOKEN"@)
            &&& final(env)@["OPENAB_SESSION_TOKEN"@] == token->0@
            &&& forall|k: Seq<char>|
                k != "OPENAB_SESSION_TOKEN"@ ==> final(env)@.contains_key(k) == old(
                    env,
                )@.contains_key(k) && (old(env)@.contains_key(k) ==> #[trigger] final(env)@[k] == old(
                    env,
                )@[k])
        },
{
}

/// A probe shows a connection.
pub open spec fn shows(probes: Seq<ConnectionProbe>, i: int, handle: u64) -> bool {
    &&& 0 <= i < probes.len()
    &&& probes[i].handle == handle
    &&& forall|j: int| 0 <= j < i ==> (#[trigger] probes[j]).handle != handle
}

pub(crate) proof fn lemma_shown(probes: Seq<ConnectionProbe>, handle: u64, i: int)
    ensures
        shows(probes, i, handle) ==> probe_of(probe_views(probes), handle) == Some(probes[i]@),
        (forall|j: int| 0 <= j < probes.len() ==> (#[trigger] probes[j]).handle != handle)
            <==> probe_of(probe_views(probes), handle) is None,
    decreases probes.len(),
{
    let all = probe_views(probes);
    if probes.len() > 0 {
        let rest = probes.skip(1);
        assert(probe_views(rest) =~= all.skip(1));
        assert(all[0] == probes[0]@);
        lemma_shown(rest, handle, i - 1);
        if shows(probes, i, handle) && i > 0 {
            assert(probes[0].handle != handle);
            assert(rest[i - 1] == probes[i]);
            assert forall|j: int| 0 <= j < i - 1 implies (#[trigger] rest[j]).handle != handle by {
                assert(rest[j] == probes[j + 1]);
            }
        }
        if probes[0].handle != handle {
            if forall|j: int| 0 <= j < probes.len() ==> (#[trigger] probes[j]).handle != handle {
                assert forall|j: int| 0 <= j < rest.len() implies (#[trigger] rest[j]).handle
                    != handle by {
                    assert(rest[j] == probes[j + 1]);
                }
            }
            if forall|j: int| 0 <= j < rest.len() ==> (#[trigger] rest[j]).handle != handle {
                assert forall|j: int| 0 <= j < probes.len() implies (#[trigger] probes[j]).handle
                    != handle by {
                    if j > 0 {
                        assert(rest[j - 1] == probes[j]);
                    }
                }
            }
        }
    }
}

/// Two projects are the same: the same id, and roots that are the same path.
pub open spec fn same_project(a: ProjectText, b: ProjectText) -> bool {
    a.project_id == b.project_id && same_path(a.project_root, b.project_root)
}

/// A thread's connection serves: no probe shows it, so that it is locked, or the
/// probe shows it alive.
pub open spec fn serves(p: PoolText, probes: Seq<ConnectionProbe>, thread: Seq<char>) -> bool {
    &&& p.active.contains_key(thread)
    &&& forall|i: int|
        #[trigger] shows(probes, i, p.active[thread].handle) ==> probes[i].alive
}

proof fn lemma_serves(p: PoolText, probes: Seq<ConnectionProbe>, thread: Seq<char>)
    ensures
        serves(p, probes, thread) == super::create::connection_serves(
            p,
            thread,
            probe_views(probes),
        ),
{
    if p.active.contains_key(thread) {
        let h = p.active[thread].handle;
        lemma_shown(probes, h, 0);
        if probe_of(probe_views(probes), h) is Some {
            let i = lemma_first(probes, h);
            lemma_shown(probes, h, i);
            assert(shows(probes, i, h));
            if super::create::connection_serves(p, thread, probe_views(probes)) {
                assert forall|k: int| #[trigger] shows(probes, k, h) implies probes[k].alive by {
                    lemma_shown(probes, h, k);
                }
            }
        }
    }
}

pub(crate) proof fn lemma_first(probes: Seq<ConnectionProbe>, h: u64) -> (i: int)
    requires
        probe_of(probe_views(probes), h) is Some,
    ensures
        shows(probes, i, h),
    decreases probes.len(),
{
    let all = probe_views(probes);
    assert(all[0] == probes[0]@);
    if probes[0].handle == h {
        0
    } else {
        let rest = probes.skip(1);
        assert(probe_views(rest) =~= all.skip(1));
        let k = lemma_first(rest, h);
        assert(probes[k + 1] == rest[k]);
        assert forall|j: int| 0 <= j < k + 1 implies (#[trigger] probes[j]).handle != h by {
            if j > 0 {
                assert(probes[j] == rest[j - 1]);
            }
        }
        k + 1
    }
}

/// A native dispatch always gets a session of its own. An ordinary thread is refused
/// where its project's root cannot be used, where it is bound to another project,
/// and where its binding was lost while it can be resumed; the session that it has
/// serves it where it is locked or alive; and otherwise one is created.
pub proof fn requests_are_decided(
    pool: SessionPool,
    thread: &str,
    project: Option<&ProjectContext>,
    canonicalized: Option<Result<ProjectContext, String>>,
    probes: &Vec<ConnectionProbe>,
    r: Result<CreateDecision, PoolError>,
)
    requires
        call_ensures(
            SessionPool::get_or_create,
            (&pool, thread, project, canonicalized, probes),
            r,
        ),
    ensures
        ({
            let p = pool@;
            let t = thread@;
            let refused_root = canonicalized is Some && canonicalized->0 is Err;
            let pinned = canonicalized is Some && canonicalized->0 is Ok;
            let incoming = canonicalized->0->Ok_0@;
            let elsewhere = pinned && p.session_projects.contains_key(t) && !same_project(
                p.session_projects[t],
                incoming,
            );
            let lost = pinned && p.untrusted.contains_key(t) && (p.persisted.contains_key(t)
                || p.suspended.contains_key(t));
            if starts_native(t) {
                r is Ok && r->Ok_0 is Fresh
            } else if refused_root {
                r is Err && r->Err_0 is ProjectRoot && r->Err_0->ProjectRoot_0@
                    == canonicalized->0->Err_0@
            } else if elsewhere {
                &&& r is Err && r->Err_0 is ProjectMismatch
                &&& r->Err_0->stored.project_id@ == p.session_projects[t].project_id
                &&& r->Err_0->stored.project_root@ == p.session_projects[t].project_root
                &&& r->Err_0->incoming.project_id@ == canonicalized->0->Ok_0.project_id@
                &&& r->Err_0->incoming.project_root@ == canonicalized->0->Ok_0.project_root@
            } else if lost {
                r is Err && r->Err_0 is UntrustedBinding
            } else if serves(p, probes@, t) {
                r is Ok && r->Ok_0 is Reuse
            } else {
                r is Ok && r->Ok_0 is Create
            }
        }),
{
    lemma_starts_native(thread@);
    lemma_serves(pool@, probes@, thread@);
}

/// A session that is created goes on from the suspended one of its thread; else from
/// the one that its dead connection had; else from none. It works in the root of the
/// pinned project; else where its thread worked before; else in the anonymous
/// project's root; else in the configured directory. The project that is pinned is
/// the one to be remembered, and the directory is where the caller named a project.
pub proof fn created_sessions_go_on_where_they_were(
    pool: SessionPool,
    thread: &str,
    project: Option<&ProjectContext>,
    canonicalized: Option<Result<ProjectContext, String>>,
    probes: &Vec<ConnectionProbe>,
    i: int,
    r: Result<CreateDecision, PoolError>,
)
    requires
        call_ensures(
            SessionPool::get_or_create,
            (&pool, thread, project, canonicalized, probes),
            r,
        ),
        r is Ok,
        r->Ok_0 is Create,
    ensures
        ({
            let p = pool@;
            let t = thread@;
            let plan = r->Ok_0->Create_0;
            &&& plan.had_existing == p.active.contains_key(t)
            &&& plan.keep_workdir == (project is Some)
            &&& p.suspended.contains_key(t) ==> plan.saved_session_id is Some
                && plan.saved_session_id->0@ == p.suspended[t]
            &&& !p.suspended.contains_key(t) && !p.active.contains_key(t) ==> plan.saved_session_id
                is None
            &&& !p.suspended.contains_key(t) && p.active.contains_key(t) && shows(
                probes@,
                i,
                p.active[t].handle,
            ) ==> {
                &&& plan.saved_session_id is Some <==> probes@[i].session_id is Some
                &&& plan.saved_session_id is Some ==> plan.saved_session_id->0@
                    == probes@[i].session_id->0@
            }
            &&& canonicalized is Some ==> {
                let c = canonicalized->0->Ok_0;
                &&& plan.workdir@ == c.project_root@
                &&& plan.project_to_store is Some
                &&& plan.project_to_store->0.project_id@ == c.project_id@
                &&& plan.project_to_store->0.project_root@ == c.project_root@
            }
            &&& canonicalized is None ==> {
                &&& plan.project_to_store is None
                &&& p.session_workdirs.contains_key(t) ==> plan.workdir@ == p.session_workdirs[t]
                &&& !p.session_workdirs.contains_key(t) && project is Some
                    && project->0.project_id@.len() == 0 ==> plan.workdir@
                    == project->0.project_root@
                &&& !p.session_workdirs.contains_key(t) && (project is None
                    || project->0.project_id@.len() > 0) ==> plan.workdir@ == p.working_dir
            }
        }),
{
    lemma_starts_native(thread@);
    if pool@.active.contains_key(thread@) {
        lemma_shown(probes@, pool@.active[thread@].handle, i);
    }
}

/// A native dispatch works in the root of its pinned project, or in that of an
/// anonymous one, or else in the configured directory; what its thread did before
/// has no part in it.
pub proof fn dispatches_start_from_nothing(
    pool: SessionPool,
    project: Option<&ProjectContext>,
    canonicalized: Option<Result<ProjectContext, String>>,
    r: Result<String, PoolError>,
)
    requires
        call_ensures(SessionPool::begin_fresh_session, (&pool, project, canonicalized), r),
    ensures
        canonicalized is Some && canonicalized->0 is Err ==> r is Err && r->Err_0 is ProjectRoot
            && r->Err_0->ProjectRoot_0@ == canonicalized->0->Err_0@,
        canonicalized is Some && canonicalized->0 is Ok ==> r is Ok && r->Ok_0@
            == canonicalized->0->Ok_0.project_root@,
        canonicalized is None && project is Some && project->0.project_id@.len() == 0 ==> r is Ok
            && r->Ok_0@ == project->0.project_root@,
        canonicalized is None && (project is None || project->0.project_id@.len() > 0) ==> r is Ok
            && r->Ok_0@ == pool@.working_dir,
{
}

/// A key has this value in a map.
pub open spec fn maps<V>(m: Map<Seq<char>, V>, k: Seq<char>, v: V) -> bool {
    m.contains_key(k) && m[k] == v
}

/// A key has the same value in two maps, or none in both.
pub open spec fn agree<V>(a: Map<Seq<char>, V>, b: Map<Seq<char>, V>, k: Seq<char>) -> bool {
    &&& a.contains_key(k) == b.contains_key(k)
    &&& a.contains_key(k) ==> a[k] == b[k]
}

/// What no operation changes.
pub open spec fn same_settings(p: PoolText, q: PoolText) -> bool {
    &&& p.working_dir == q.working_dir
    &&& p.max_sessions == q.max_sessions
    &&& p.hung_threshold_secs == q.hung_threshold_secs
}

/// The pool knows a connection under a thread as it was handed in: free, without a
/// prompt, with its process group, its token and the way to cancel it.
pub open spec fn knows(
    p: PoolText,
    q: PoolText,
    t: Seq<char>,
    c: NewConnection,
    now: u64,
) -> bool {
    &&& q.active.contains_key(t) && q.active[t].handle == c.handle && q.active[t].phase == 0
    &&& q.activity.contains_key(t) && !q.activity[t].in_flight && q.activity[t].touched_at == now
    &&& c.pgid is Some ==> maps(q.pgids, t, c.pgid->0)
    &&& c.session_id@.len() > 0 ==> q.cancel_handles.contains_key(t)
        && q.cancel_handles[t].connection == c.handle && q.cancel_handles[t].session_id
        == c.session_id@
    &&& c.facade_token is Some ==> maps(q.facade_tokens, t, c.facade_token->0@)
    &&& c.facade_token is None ==> agree(p.facade_tokens, q.facade_tokens, t)
    &&& agree(p.creating, q.creating, t)
}

/// A connection that was made for a thread is taken in, unless the thread got one
/// in the meantime that serves. The session is remembered, unless the agent named
/// none, and is no longer suspended; the first directory sticks; a pinned project is
/// remembered and trusted again; the reservation is used up; and the token that this
/// one replaces is handed out. Nothing else changes.
pub proof fn connections_are_taken_in(
    pool: &mut SessionPool,
    thread: &str,
    plan: CreatePlan,
    c: NewConnection,
    probes: &Vec<ConnectionProbe>,
    now: u64,
    other: Seq<char>,
    r: CreateOutcome,
)
    requires
        call_ensures(
            SessionPool::finish_get_or_create,
            (pool, thread, plan, c, probes, now),
            r,
        ),
        old(pool)@.outstanding > 0,
        other != thread@,
    ensures
        ({
            let p = old(pool)@;
            let q = final(pool)@;
            let t = thread@;
            &&& same_settings(p, q)
            &&& q.outstanding == p.outstanding - 1
            &&& same_at(p, q, other)
            &&& r is Superseded <==> serves(p, probes@, t)
            &&& r is Superseded ==> same_at(p, q, t)
            &&& r is Installed ==> {
                &&& r->is_fresh <==> !plan.had_existing && plan.saved_session_id is None
                &&& r->save_meta == plan.keep_workdir
                &&& r->save_projects == (plan.project_to_store is Some)
                &&& c.facade_token is Some && p.facade_tokens.contains_key(t) ==> r->revoked_token
                    is Some && r->revoked_token->0@ == p.facade_tokens[t]
                &&& c.facade_token is None || !p.facade_tokens.contains_key(t) ==> r->revoked_token
                    is None
                &&& knows(p, q, t, c, now)
                &&& c.session_id@.len() > 0 ==> maps(q.persisted, t, c.session_id@)
                &&& c.session_id@.len() == 0 ==> !q.persisted.contains_key(t)
                &&& !q.suspended.contains_key(t)
                &&& p.session_workdirs.contains_key(t) || !plan.keep_workdir ==> agree(
                    p.session_workdirs,
                    q.session_workdirs,
                    t,
                )
                &&& !p.session_workdirs.contains_key(t) && plan.keep_workdir ==> maps(
                    q.session_workdirs,
                    t,
                    plan.workdir@,
                )
                &&& plan.project_to_store is Some ==> {
                    &&& q.session_projects.contains_key(t)
                    &&& q.session_projects[t].project_id == plan.project_to_store->0.project_id@
                    &&& q.session_projects[t].project_root == plan.project_to_store->0.project_root@
                    &&& !q.untrusted.contains_key(t)
                }
                &&& plan.project_to_store is None ==> {
                    &&& agree(p.session_projects, q.session_projects, t)
                    &&& p.untrusted.contains_key(t) == q.untrusted.contains_key(t)
                }
                &&& p.active.contains_key(t) && c.pgid is None ==> !q.pgids.contains_key(t)
                &&& p.active.contains_key(t) && c.session_id@.len() == 0
                    ==> !q.cancel_handles.contains_key(t)
            }
        }),
{
    lemma_serves(old(pool)@, probes@, thread@);
}

/// The connection of a native dispatch is taken in, and nothing of it is remembered:
/// what is suspended, persisted or bound under its key stays as it was.
pub proof fn dispatches_are_taken_in_without_a_trace(
    pool: &mut SessionPool,
    thread: &str,
    c: NewConnection,
    now: u64,
    other: Seq<char>,
    r: Option<String>,
)
    requires
        call_ensures(SessionPool::create_fresh_session_only, (pool, thread, c, now), r),
        old(pool)@.outstanding > 0,
        other != thread@,
    ensures
        ({
            let p = old(pool)@;
            let q = final(pool)@;
            let t = thread@;
            &&& same_settings(p, q)
            &&& q.outstanding == p.outstanding - 1
            &&& same_at(p, q, other)
            &&& knows(p, q, t, c, now)
            &&& q.suspended == p.suspended
            &&& q.persisted == p.persisted
            &&& q.session_workdirs == p.session_workdirs
            &&& q.session_projects == p.session_projects
            &&& q.untrusted == p.untrusted
            &&& c.facade_token is Some && p.facade_tokens.contains_key(t) ==> r is Some && r->0@
                == p.facade_tokens[t]
            &&& c.facade_token is None || !p.facade_tokens.contains_key(t) ==> r is None
        }),
{
}

/// Nothing of a thread's connection is left: neither the connection nor what goes
/// with it.
pub open spec fn unconnected(q: PoolText, t: Seq<char>) -> bool {
    &&& !q.active.contains_key(t)
    &&& !q.cancel_handles.contains_key(t)
    &&& !q.activity.contains_key(t)
    &&& !q.pgids.contains_key(t)
    &&& !q.facade_tokens.contains_key(t)
}

/// What a thread is bound to and where it works are as they were, and so are its
/// lost trust and its creation lock.
pub open spec fn still_bound(p: PoolText, q: PoolText, t: Seq<char>) -> bool {
    &&& agree(p.session_projects, q.session_projects, t)
    &&& agree(p.session_workdirs, q.session_workdirs, t)
    &&& p.untrusted.contains_key(t) == q.untrusted.contains_key(t)
    &&& agree(p.creating, q.creating, t)
}

/// A session may go: it is free, a probe shows it, and it is not the one that room
/// is made for.
pub open spec fn may_go(
    p: PoolText,
    probes: Seq<ConnectionProbe>,
    exclude: Seq<char>,
    k: Seq<char>,
    i: int,
) -> bool {
    &&& p.active.contains_key(k)
    &&& k != exclude
    &&& p.active[k].phase == 0
    &&& shows(probes, i, p.active[k].handle)
}

/// The sessions that are there and those that are being created leave room for one.
pub open spec fn has_room(p: PoolText) -> bool {
    p.active.dom().len() + p.outstanding < p.max_sessions
}

/// Where there is room, one place is reserved and nothing else changes. Where there
/// is none, the session that has been idle longest goes, if one may go: its id is
/// remembered and suspended, and its thread stays bound; without an id it is
/// forgotten by restarts; and a dispatch leaves nothing. Otherwise the request is
/// refused and nothing changes.
pub proof fn room_is_made_by_suspending_the_oldest(
    pool: &mut SessionPool,
    exclude: &str,
    probes: &Vec<ConnectionProbe>,
    other: Seq<char>,
    i: int,
    j: int,
    r: Result<Option<Eviction>, PoolError>,
)
    requires
        call_ensures(SessionPool::ensure_capacity_or_evict, (pool, exclude, probes), r),
        old(pool)@.outstanding < usize::MAX,
    ensures
        same_settings(old(pool)@, final(pool)@),
        has_room(old(pool)@) ==> r is Ok && r->Ok_0 is None && same_at(
            old(pool)@,
            final(pool)@,
            other,
        ),
        r is Ok ==> final(pool)@.outstanding == old(pool)@.outstanding + 1,
        r is Err ==> {
            &&& !has_room(old(pool)@)
            &&& final(pool)@ == old(pool)@
            &&& r->Err_0 is Exhausted && r->Err_0->max_sessions == old(pool)@.max_sessions
            &&& !may_go(old(pool)@, probes@, exclude@, other, i)
        },
        r is Ok && !has_room(old(pool)@) ==> r->Ok_0 is Some && {
            let p = old(pool)@;
            let q = final(pool)@;
            let e = r->Ok_0->0;
            let k = e.key@;
            &&& p.active.contains_key(k) && k != exclude@ && p.active[k].phase == 0
            &&& e.handle == p.active[k].handle
            &&& p.facade_tokens.contains_key(k) ==> e.revoked_token is Some && e.revoked_token->0@
                == p.facade_tokens[k]
            &&& !p.facade_tokens.contains_key(k) ==> e.revoked_token is None
            &&& unconnected(q, k)
            &&& other != k ==> same_at(p, q, other)
        },
        r is Ok && !has_room(old(pool)@) && shows(probes@, j, r->Ok_0->0.handle) ==> {
            let p = old(pool)@;
            let q = final(pool)@;
            let k = r->Ok_0->0.key@;
            &&& may_go(p, probes@, exclude@, other, i) ==> probes@[j].last_active
                <= probes@[i].last_active
            &&& starts_native(k) ==> {
                &&& agree(p.persisted, q.persisted, k)
                &&& agree(p.suspended, q.suspended, k)
                &&& !q.session_workdirs.contains_key(k)
                &&& !q.session_projects.contains_key(k)
                &&& p.untrusted.contains_key(k) == q.untrusted.contains_key(k)
            }
            &&& !starts_native(k) && probes@[j].session_id is Some ==> {
                &&& maps(q.persisted, k, probes@[j].session_id->0@)
                &&& maps(q.suspended, k, probes@[j].session_id->0@)
                &&& still_bound(p, q, k)
            }
            &&& !starts_native(k) && probes@[j].session_id is None ==> {
                &&& !q.persisted.contains_key(k)
                &&& agree(p.suspended, q.suspended, k)
                &&& still_bound(p, q, k)
            }
        },
{
    let p = old(pool)@;
    if p.active.contains_key(other) {
        lemma_shown(probes@, p.active[other].handle, i);
        if may_go(p, probes@, exclude@, other, i) {
            assert(evictable(p, exclude@, probe_views(probes@), other));
        }
    }
    if r is Err {
        assert(none_evictable(p, exclude@, probe_views(probes@)));
    }
    if r is Ok && r->Ok_0 is Some {
        lemma_starts_native(r->Ok_0->0.key@);
        lemma_shown(probes@, r->Ok_0->0.handle, j);
    }
}

/// A reservation that is given up makes room for one more, and changes nothing else.
pub proof fn reservations_are_given_up(pool: &mut SessionPool, k: Seq<char>)
    requires
        call_ensures(SessionPool::release_reservation, (pool,), ()),
        old(pool)@.outstanding > 0,
    ensures
        final(pool)@.outstanding == old(pool)@.outstanding - 1,
        same_settings(old(pool)@, final(pool)@),
        same_at(old(pool)@, final(pool)@, k),
{
}

/// One creation at a time holds the lock of a thread: the lock that is there is the
/// one, and only a thread without a lock gets the new one.
pub proof fn creation_locks_are_shared(
    pool: &mut SessionPool,
    thread: &str,
    fresh: u64,
    r: u64,
    other: Seq<char>,
)
    requires
        call_ensures(SessionPool::creation_gate, (pool, thread, fresh), r),
        other != thread@,
    ensures
        maps(final(pool)@.creating, thread@, r),
        old(pool)@.creating.contains_key(thread@) ==> r == old(pool)@.creating[thread@]
            && final(pool)@ == old(pool)@,
        !old(pool)@.creating.contains_key(thread@) ==> r == fresh,
        same_at(old(pool)@, final(pool)@, other),
        final(pool)@.active == old(pool)@.active,
        final(pool)@.suspended == old(pool)@.suspended,
        final(pool)@.persisted == old(pool)@.persisted,
{
}

/// A connection that is free and unlocked is claimed by one prompt, and is busy from
/// then on, with a prompt in flight since now. Any other is refused: one that is not
/// there, one that is busy or locked, and one that is being evicted.
pub proof fn connections_are_claimed_by_one_prompt(
    pool: &mut SessionPool,
    thread: &str,
    locked: bool,
    now: u64,
    other: Seq<char>,
    r: Result<u64, PoolError>,
)
    requires
        call_ensures(SessionPool::claim_connection, (pool, thread, locked, now), r),
        other != thread@,
    ensures
        ({
            let p = old(pool)@;
            let q = final(pool)@;
            let t = thread@;
            &&& same_settings(p, q) && q.outstanding == p.outstanding && same_at(p, q, other)
            &&& r is Ok <==> p.active.contains_key(t) && !locked && p.active[t].phase == 0
            &&& r is Ok ==> {
                &&& r->Ok_0 == p.active[t].handle
                &&& q.active[t].handle == p.active[t].handle && q.active[t].phase == 1
                &&& q.activity.contains_key(t) && q.activity[t].in_flight
                    && q.activity[t].touched_at == now
                &&& q.suspended == p.suspended && q.persisted == p.persisted
                &&& q.session_projects == p.session_projects && q.session_workdirs
                    == p.session_workdirs
            }
            &&& r is Err ==> q == p
            &&& !p.active.contains_key(t) ==> r is Err && r->Err_0 is NoConnection
            &&& p.active.contains_key(t) && r is Err ==> {
                &&& r->Err_0 is CannotAcquire
                &&& locked || p.active[t].phase == 1 ==> r->Err_0->CannotAcquire_reason@
                    == "session is busy executing another prompt"@
                &&& !locked && p.active[t].phase == 2 ==> r->Err_0->CannotAcquire_reason@
                    == "session is being evicted"@
                &&& !locked && p.active[t].phase > 2 ==> r->Err_0->CannotAcquire_reason@
                    == "session is not in IDLE state"@
            }
        }),
{
}

/// A claimed connection that is given back is free again and without a prompt since
/// now. A connection that the thread no longer has changes nothing.
pub proof fn claims_are_given_back(
    pool: &mut SessionPool,
    thread: &str,
    handle: u64,
    now: u64,
    other: Seq<char>,
)
    requires
        call_ensures(SessionPool::release_connection, (pool, thread, handle, now), ()),
        other != thread@,
    ensures
        ({
            let p = old(pool)@;
            let q = final(pool)@;
            let t = thread@;
            let held = p.active.contains_key(t) && p.active[t].handle == handle;
            &&& same_settings(p, q) && q.outstanding == p.outstanding && same_at(p, q, other)
            &&& held ==> {
                &&& q.active.contains_key(t) && q.active[t].handle == handle && q.active[t].phase == 0
                &&& q.activity.contains_key(t) && !q.activity[t].in_flight
                    && q.activity[t].touched_at == now
                &&& q.suspended == p.suspended && q.persisted == p.persisted
                &&& q.session_projects == p.session_projects
            }
            &&& !held ==> q == p
        }),
{
}

/// What the phases are seen as from outside, and when one gives way to another.
pub proof fn phases_give_way_when_seen(
    entry: &mut ActiveEntry,
    locked: bool,
    from: u8,
    to: u8,
    r: bool,
    seen: u8,
)
    requires
        call_ensures(phase_load, (&*old(entry), locked), seen),
        call_ensures(phase_try_cas, (entry, locked, from, to), r),
    ensures
        entry_phase::IDLE == 0 && entry_phase::BUSY == 1 && entry_phase::EVICTING == 2,
        locked ==> seen == 1,
        !locked ==> seen == old(entry).phase,
        r <==> !locked && old(entry).phase == from,
        final(entry).handle == old(entry).handle,
        r ==> final(entry).phase == to,
        !r ==> final(entry).phase == old(entry).phase,
{
}

/// What is said of a thread is what the pool knows of it.
pub proof fn threads_are_reported(
    pool: SessionPool,
    thread: &str,
    probes: &Vec<ConnectionProbe>,
    connection: Result<u64, PoolError>,
    cancel: Result<(u64, String), PoolError>,
    active: bool,
    reusable: bool,
    bound: Option<ProjectContext>,
)
    requires
        call_ensures(SessionPool::connection_of, (&pool, thread), connection),
        call_ensures(SessionPool::cancel_session, (&pool, thread), cancel),
        call_ensures(SessionPool::has_active_session, (&pool, thread, probes), active),
        call_ensures(SessionPool::has_reusable_session, (&pool, thread), reusable),
        call_ensures(SessionPool::get_pinned_project, (&pool, thread), bound),
    ensures
        ({
            let p = pool@;
            let t = thread@;
            &&& connection is Ok <==> p.active.contains_key(t)
            &&& connection is Ok ==> connection->Ok_0 == p.active[t].handle
            &&& connection is Err ==> connection->Err_0 is NoConnection
            &&& cancel is Ok <==> p.cancel_handles.contains_key(t)
            &&& cancel is Ok ==> cancel->Ok_0.0 == p.cancel_handles[t].connection
                && cancel->Ok_0.1@ == cancel_line(p.cancel_handles[t].session_id)
            &&& cancel is Err ==> cancel->Err_0 is NoSession
            &&& active <==> p.suspended.contains_key(t) || p.persisted.contains_key(t) || serves(
                p,
                probes@,
                t,
            )
            &&& reusable <==> p.active.contains_key(t) || p.suspended.contains_key(t)
                || p.persisted.contains_key(t)
            &&& bound is Some <==> p.session_projects.contains_key(t)
            &&& bound is Some ==> bound->0.project_id@ == p.session_projects[t].project_id
                && bound->0.project_root@ == p.session_projects[t].project_root
        }),
{
    lemma_serves(pool@, probes@, thread@);
}

proof fn lemma_cancel_params(session_id: Seq<char>)
    ensures
        "{\"jsonrpc\":\"2.0\",\"method\":\"session/cancel\",\"params\":{\"sessionId\":"@ + json_string(
            session_id,
        ) + "}}\n"@ == object(
            seq![
                ("jsonrpc"@, "\"2.0\""@),
                ("method"@, "\"session/cancel\""@),
                ("params"@, object(seq![("sessionId"@, json_string(session_id))])),
            ],
        ) + seq!['\n'],
{
    let id = json_string(session_id);
    reveal_strlit("{\"jsonrpc\":\"2.0\",\"method\":\"session/cancel\",\"params\":{\"sessionId\":");
    reveal_strlit("}}\n");
    reveal_strlit("jsonrpc");
    reveal_strlit("\"2.0\"");
    reveal_strlit("method");
    reveal_strlit("\"session/cancel\"");
    reveal_strlit("params");
    reveal_strlit("sessionId");
    let inner = seq![("sessionId"@, id)];
    let m1 = seq![("jsonrpc"@, "\"2.0\""@)];
    let m2 = m1.push(("method"@, "\"session/cancel\""@));
    let m3 = m2.push(("params"@, object(inner)));
    assert(m2.drop_last() =~= m1);
    assert(m3.drop_last() =~= m2);
    assert(members(m1) == member("jsonrpc"@, "\"2.0\""@));
    assert(members(m2) == members(m1) + seq![','] + member("method"@, "\"session/cancel\""@));
    assert(members(m3) == members(m2) + seq![','] + member("params"@, object(inner)));
    assert(members(inner) == member("sessionId"@, id));
    assert(m3 =~= seq![
        ("jsonrpc"@, "\"2.0\""@),
        ("method"@, "\"session/cancel\""@),
        ("params"@, object(inner)),
    ]);
    assert("{\"jsonrpc\":\"2.0\",\"method\":\"session/cancel\",\"params\":{\"sessionId\":"@ + id
        + "}}\n"@ =~= object(m3) + seq!['\n']);
}

/// A prompt is cancelled by one line that holds one JSON object, which names the
/// method and the session.
pub proof fn cancel_lines_name_the_session(session_id: &str, r: String)
    requires
        call_ensures(cancel_request, (session_id,), r),
    ensures
        r@ == object(
            seq![
                ("jsonrpc"@, "\"2.0\""@),
                ("method"@, "\"session/cancel\""@),
                ("params"@, object(seq![("sessionId"@, json_string(session_id@))])),
            ],
        ) + seq!['\n'],
{
    lemma_cancel_params(session_id@);
}

/// An approval resumes only in the session that it was asked in.
pub proof fn approvals_stay_in_their_session(
    current: Option<&str>,
    expected: &str,
    r: Result<(), PoolError>,
)
    requires
        call_ensures(check_approval_session, (current, expected), r),
    ensures
        r is Ok <==> current is Some && current->0@ == expected@,
        current is None ==> r->Err_0 is NoCurrentSession,
        current is Some && current->0@ != expected@ ==> r->Err_0 is ApprovalMismatch,
{
}

/// A reset leaves nothing of a thread but its creation lock, and hands out its
/// token. It fails where the thread had no connection, but forgets all the same.
pub proof fn resets_forget_the_thread(
    pool: &mut SessionPool,
    thread: &str,
    other: Seq<char>,
    r: (Result<(), PoolError>, Option<String>),
)
    requires
        call_ensures(SessionPool::reset_session, (pool, thread), r),
        other != thread@,
    ensures
        ({
            let p = old(pool)@;
            let q = final(pool)@;
            let t = thread@;
            &&& same_settings(p, q) && q.outstanding == p.outstanding && same_at(p, q, other)
            &&& unconnected(q, t)
            &&& !q.suspended.contains_key(t) && !q.persisted.contains_key(t)
            &&& !q.session_workdirs.contains_key(t) && !q.session_projects.contains_key(t)
            &&& !q.untrusted.contains_key(t)
            &&& agree(p.creating, q.creating, t)
            &&& r.0 is Ok <==> p.active.contains_key(t)
            &&& r.0 is Err ==> r.0->Err_0 is NoSession
            &&& r.1 is Some <==> p.facade_tokens.contains_key(t)
            &&& r.1 is Some ==> r.1->0@ == p.facade_tokens[t]
        }),
{
}

/// How each refusal reads. A thread is shown without its session ids.
pub proof fn refusals_say_what_is_known(e: PoolError, thread: &str, r: String)
    requires
        call_ensures(PoolError::message, (&e, thread), r),
    ensures
        ({
            let t = redacted(thread@);
            match e {
                PoolError::Exhausted { max_sessions } => r@ == "pool exhausted ("@ + decimal(
                    max_sessions as nat,
                ) + " sessions)"@,
                PoolError::ProjectRoot(m) => r@ == m@,
                PoolError::ProjectMismatch { stored, incoming } => r@
                    == "project context mismatch: existing session for "@ + t
                    + " is bound to project_id="@ + debug_quoted(stored.project_id@)
                    + " project_root="@ + debug_path(stored.project_root@)
                    + ", but incoming context is project_id="@ + debug_quoted(incoming.project_id@)
                    + " project_root="@ + debug_path(incoming.project_root@)
                    + "; refuse to reuse a stale cross-project session"@,
                PoolError::UntrustedBinding => r@ == "project binding for "@ + t
                    + " is untrusted (session_projects persistence was corrupt at startup); refusing to resume. Reset the session and retry with a trusted project context."@,
                PoolError::SessionLoad { reason } => r@ == "session load "@ + reason@
                    + ": could not restore previous session"@,
                PoolError::NoConnection => r@ == "no connection for thread "@ + t,
                PoolError::NoSession => r@ == "no session for thread "@ + t,
                PoolError::NoCurrentSession => r@ == "no session"@,
                PoolError::CannotAcquire { reason } => r@ == "cannot acquire session for thread "@ + t
                    + ": "@ + reason@,
                PoolError::ApprovalMismatch => r@
                    == "approval session mismatch: pending approval is bound to a different ACP session"@,
                PoolError::MissingHome => r@ == "HOME is required for ACP session persistence"@,
                PoolError::MissingAgentName => r@
                    == "ARTHUR_AGENT_NAME is required for agent-scoped ACP session persistence"@,
                PoolError::UnsafeAgentName => r@
                    == "ARTHUR_AGENT_NAME must be a single safe path component"@,
            }
        }),
{
}

/// A project without an id is anonymous and pins nothing; two projects are the same
/// where their ids are and their roots are the same path.
pub proof fn projects_are_told_by_id_and_root(
    a: ProjectContext,
    b: ProjectContext,
    anonymous: bool,
    same: bool,
    named: Option<&ProjectContext>,
    pins: bool,
)
    requires
        call_ensures(ProjectContext::is_anonymous, (&a,), anonymous),
        call_ensures(ProjectContext::is_same, (&a, &b), same),
        call_ensures(is_pinned, (named,), pins),
    ensures
        anonymous <==> a.project_id@.len() == 0,
        same <==> a.project_id@ == b.project_id@ && same_path(a.project_root@, b.project_root@),
        pins <==> named is Some && named->0.project_id@.len() > 0,
{
}

/// The candidate for eviction is one that may go, and none that may go was active
/// earlier; there is none only where none may go.
pub proof fn the_oldest_candidate_is_found(
    pool: SessionPool,
    exclude: &str,
    probes: &Vec<ConnectionProbe>,
    other: Seq<char>,
    i: int,
    j: int,
    r: Option<EvictionCandidate>,
)
    requires
        call_ensures(
            SessionPool::find_oldest_idle_eviction_candidate,
            (&pool, exclude, probes),
            r,
        ),
    ensures
        r is None ==> !may_go(pool@, probes@, exclude@, other, i),
        r is Some ==> {
            let c = r->0;
            &&& pool@.active.contains_key(c.key@) && c.key@ != exclude@
            &&& pool@.active[c.key@].phase == 0 && pool@.active[c.key@].handle == c.handle
            &&& may_go(pool@, probes@, exclude@, other, i) ==> c.last_active
                <= probes@[i].last_active
            &&& shows(probes@, j, c.handle) ==> {
                &&& c.last_active == probes@[j].last_active
                &&& c.session_id is Some <==> probes@[j].session_id is Some
                &&& c.session_id is Some ==> c.session_id->0@ == probes@[j].session_id->0@
            }
        },
{
    let p = pool@;
    if p.active.contains_key(other) {
        lemma_shown(probes@, p.active[other].handle, i);
        if may_go(p, probes@, exclude@, other, i) {
            assert(evictable(p, exclude@, probe_views(probes@), other));
        }
    }
    if r is None {
        assert(none_evictable(p, exclude@, probe_views(probes@)));
    } else {
        lemma_shown(probes@, r->0.handle, j);
    }
}

/// The connections that are listed are those that the pool has, each once.
pub proof fn connections_are_listed(pool: SessionPool, r: Vec<(String, u64)>, k: Seq<char>, i: int)
    requires
        call_ensures(SessionPool::active_sessions, (&pool,), r),
    ensures
        pool@.active.contains_key(k) ==> exists|n: int|
            0 <= n < r@.len() && (#[trigger] r@[n]).0@ == k,
        0 <= i < r@.len() ==> pool@.active.contains_key(r@[i].0@) && pool@.active[r@[i].0@].handle
            == r@[i].1,
        forall|a: int, b: int|
            0 <= a < b < r@.len() ==> (#[trigger] r@[a]).0@ != (#[trigger] r@[b]).0@,
{
    assert(lists_every_connection(pool@, r@));
}

/// A connection is removed only where the thread still has it, and a lock is made
/// only where there is none; no other key of the map changes.
pub proof fn maps_change_under_one_key(
    active: &mut TextMap<ActiveEntry>,
    key: &str,
    expected: u64,
    removed: Option<ActiveEntry>,
    gates: &mut TextMap<u64>,
    fresh: u64,
    gate: u64,
    other: Seq<char>,
)
    requires
        call_ensures(remove_if_same_handle, (active, key, expected), removed),
        call_ensures(get_or_insert_gate, (gates, key, fresh), gate),
        other != key@,
    ensures
        ({
            let same = old(active)@.contains_key(key@) && old(active)@[key@].handle == expected;
            &&& removed is Some <==> same
            &&& same ==> removed->0 == old(active)@[key@] && !final(active)@.contains_key(key@)
            &&& !same ==> agree(old(active)@, final(active)@, key@)
            &&& agree(old(active)@, final(active)@, other)
        }),
        maps(final(gates)@, key@, gate),
        old(gates)@.contains_key(key@) ==> gate == old(gates)@[key@],
        !old(gates)@.contains_key(key@) ==> gate == fresh,
        agree(old(gates)@, final(gates)@, other),
{
}

} // verus!
