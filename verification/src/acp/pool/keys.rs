//! Thread keys, and the rules by which sessions are told apart.

use vstd::prelude::*;
use vstd::string::*;

use crate::acp::project::{opt_project, pinned, ProjectContext, ProjectText};
use crate::text::{contains, contains_text, joined, occurs_at, opt_str, starts_with};

verus! {

pub const NATIVE_DISPATCH_KEY_PREFIX: &'static str = "native-dispatch:";

/// The key belongs to a native dispatch.
pub open spec fn native(key: Seq<char>) -> bool {
    occurs_at(key, NATIVE_DISPATCH_KEY_PREFIX@, 0)
}

pub fn is_native_dispatch_key(key: &str) -> (r: bool)
    ensures
        r == native(key@),
{
    starts_with(key, NATIVE_DISPATCH_KEY_PREFIX)
}

/// The key of a native dispatch to an agent.
pub open spec fn native_key(agent: Seq<char>, dispatch_id: Seq<char>) -> Seq<char> {
    NATIVE_DISPATCH_KEY_PREFIX@ + agent + ":"@ + dispatch_id
}

pub fn format_native_dispatch_key(agent: &str, dispatch_id: &str) -> (r: String)
    ensures
        r@ == native_key(agent@, dispatch_id@),
{
    let mut r = joined(NATIVE_DISPATCH_KEY_PREFIX, agent);
    r.append(":");
    r.append(dispatch_id);
    r
}

/// Every key that is made for a native dispatch is recognised as one.
pub proof fn native_keys_are_native(agent: Seq<char>, dispatch_id: Seq<char>)
    ensures
        native(native_key(agent, dispatch_id)),
{
    let p = NATIVE_DISPATCH_KEY_PREFIX@;
    assert(native_key(agent, dispatch_id).subrange(0, p.len() as int) =~= p);
}

/// Two dispatches to agents without a colon in their names share a key only where
/// agent and dispatch are the same.
pub proof fn native_keys_are_distinct(
    agent: Seq<char>,
    dispatch_id: Seq<char>,
    other_agent: Seq<char>,
    other_id: Seq<char>,
)
    requires
        native_key(agent, dispatch_id) == native_key(other_agent, other_id),
        forall|i: int| 0 <= i < agent.len() ==> agent[i] != ':',
        forall|i: int| 0 <= i < other_agent.len() ==> other_agent[i] != ':',
    ensures
        agent == other_agent,
        dispatch_id == other_id,
{
    reveal_strlit(":");
    let p = NATIVE_DISPATCH_KEY_PREFIX@.len() as int;
    let a = native_key(agent, dispatch_id);
    let n = agent.len() as int;
    let m = other_agent.len() as int;
    assert(a[p + n] == ':');
    assert(a == native_key(other_agent, other_id));
    if n < m {
        assert(a[p + n] == other_agent[n]);
    } else if m < n {
        assert(native_key(other_agent, other_id)[p + m] == ':');
        assert(a[p + m] == agent[m]);
    }
    assert(agent =~= a.subrange(p, p + n));
    assert(other_agent =~= a.subrange(p, p + n));
    assert(dispatch_id =~= a.skip(p + n + 1));
    assert(other_id =~= a.skip(p + n + 1));
}

/// Whether an unlocked session is to be cleaned up: it was last active before the
/// cutoff, or its agent is gone.
pub fn classify_idle(last_active: u64, alive: bool, cutoff: u64) -> (r: bool)
    ensures
        r == (last_active < cutoff || !alive),
{
    last_active < cutoff || !alive
}

/// Whether a locked session hangs: a prompt is in flight and nothing has happened
/// for longer than the threshold, both in nanoseconds.
pub fn classify_hung(in_flight: bool, last_active_age: u128, threshold: u128) -> (r: bool)
    ensures
        r == (in_flight && last_active_age > threshold),
{
    in_flight && last_active_age > threshold
}

/// Whether a candidate for eviction is better than the oldest so far.
pub fn better_candidate(current_oldest: Option<u64>, candidate_last_active: u64) -> (r: bool)
    ensures
        r == (current_oldest is None || candidate_last_active < current_oldest->0),
{
    match current_oldest {
        Some(oldest) => candidate_last_active < oldest,
        None => true,
    }
}

/// The canonical form of a pinned project. Nothing is pinned by no project or an
/// anonymous one, so those have no root to look up.
pub fn canonicalize_pinned(
    project: Option<&ProjectContext>,
    canonicalized: Option<Result<ProjectContext, String>>,
) -> (r: Result<Option<ProjectContext>, String>)
    requires
        pinned(opt_project(project)) <==> canonicalized is Some,
    ensures
        !pinned(opt_project(project)) ==> r is Ok && r->Ok_0 is None,
        pinned(opt_project(project)) && canonicalized->0 is Ok ==> r is Ok && r->Ok_0 is Some
            && r->Ok_0->0 == canonicalized->0->Ok_0,
        pinned(opt_project(project)) && canonicalized->0 is Err ==> r is Err && r->Err_0
            == canonicalized->0->Err_0,
{
    match canonicalized {
        Some(Ok(p)) => Ok(Some(p)),
        Some(Err(e)) => Err(e),
        None => Ok(None),
    }
}

/// The directory in which a session works, and the project to remember for it.
pub open spec fn effective_workdir(
    project: Option<ProjectText>,
    canonical: Option<ProjectText>,
    stored: Option<Seq<char>>,
    configured: Seq<char>,
) -> (Seq<char>, Option<ProjectText>) {
    if canonical is Some {
        (canonical->0.project_root, canonical)
    } else if stored is Some {
        (stored->0, None)
    } else if project is Some && project->0.anonymous() {
        (project->0.project_root, None)
    } else {
        (configured, None)
    }
}

pub open spec fn opt_project_view(p: Option<ProjectContext>) -> Option<ProjectText> {
    match p {
        Some(p) => Some(p@),
        None => None,
    }
}

/// The directory in which a session works, and the project to remember for it: the
/// root of a pinned project; else the directory that the thread had before; else
/// that of an anonymous project; else the configured one.
pub fn resolve_effective_workdir(
    project: Option<&ProjectContext>,
    canonical_pinned: Option<&ProjectContext>,
    stored_workdir: Option<&str>,
    config_workdir: &str,
) -> (r: (String, Option<ProjectContext>))
    ensures
        (r.0@, opt_project_view(r.1)) == effective_workdir(
            opt_project(project),
            opt_project(canonical_pinned),
            opt_str(stored_workdir),
            config_workdir@,
        ),
{
    if let Some(canonical) = canonical_pinned {
        return (canonical.project_root.clone(), Some(canonical.copied()));
    }
    if let Some(p) = project {
        if p.is_anonymous() {
            if let Some(stored) = stored_workdir {
                return (stored.to_owned(), None);
            }
            return (p.project_root.clone(), None);
        }
    }
    match stored_workdir {
        Some(stored) => (stored.to_owned(), None),
        None => (config_workdir.to_owned(), None),
    }
}

/// How loading an earlier session failed.
#[derive(Debug, Clone, Copy, PartialEq, Eq, Structural)]
pub enum LoadFailure {
    /// The agent did not answer in time; the session may still be there.
    Timeout,
    /// The connection broke; the session may still be there.
    ConnectionLost,
    /// The agent does not have the session.
    Permanent,
}

/// How loading failed, by the error's text.
pub open spec fn load_failure(error: Seq<char>) -> LoadFailure {
    if contains(error, "timeout waiting for"@) {
        LoadFailure::Timeout
    } else if contains(error, "channel closed"@) {
        LoadFailure::ConnectionLost
    } else {
        LoadFailure::Permanent
    }
}

/// How loading failed, by the error's text.
pub fn classify_load_error(error: &str) -> (r: LoadFailure)
    ensures
        r == load_failure(error@),
{
    if contains_text(error, "timeout waiting for") {
        LoadFailure::Timeout
    } else if contains_text(error, "channel closed") {
        LoadFailure::ConnectionLost
    } else {
        LoadFailure::Permanent
    }
}

/// The process group that is killed with a hung session.
pub fn kill_target(pgid: Option<i32>) -> (r: Option<i32>)
    ensures
        r == if pgid is Some && pgid->0 > 0 {
            pgid
        } else {
            None
        },
{
    match pgid {
        Some(p) => if p > 0 {
            Some(p)
        } else {
            None
        },
        None => None,
    }
}

} // verus!
