//! What the pool knows of its sessions.

use vstd::prelude::*;
use vstd::string::*;

use crate::acp::project::{ProjectContext, ProjectText};
use crate::decimal::{decimal, decimal_text};
use crate::redact::{redact_session_ids, redacted};
use crate::text::{debug_quoted, debug_text, joined, opt_view};
use crate::text_map::TextMap;

use super::keys::native;

verus! {

/// A pooled connection: the number that stands for it, and its phase.
#[derive(Debug, Clone, Copy, PartialEq, Eq, Structural)]
pub struct ActiveEntry {
    pub handle: u64,
    pub phase: u8,
}

impl View for ActiveEntry {
    type V = ActiveEntry;

    open spec fn view(&self) -> ActiveEntry {
        *self
    }
}

/// Whether a prompt is in flight on a connection, and when something last
/// happened there. Times are nanoseconds since a fixed start.
#[derive(Debug, Clone, Copy, PartialEq, Eq, Structural)]
pub struct SessionActivity {
    pub in_flight: bool,
    pub touched_at: u64,
}

impl View for SessionActivity {
    type V = SessionActivity;

    open spec fn view(&self) -> SessionActivity {
        *self
    }
}

impl SessionActivity {
    /// How long ago something happened.
    pub open spec fn age_at(self, now: u64) -> int {
        if now >= self.touched_at {
            now - self.touched_at
        } else {
            0
        }
    }

    /// How long ago something happened.
    pub fn age(&self, now: u64) -> (r: u64)
        ensures
            r == self.age_at(now),
    {
        if now >= self.touched_at {
            now - self.touched_at
        } else {
            0
        }
    }

    /// A prompt starts.
    pub fn arm(now: u64) -> (r: SessionActivity)
        ensures
            r == (SessionActivity { in_flight: true, touched_at: now }),
    {
        SessionActivity { in_flight: true, touched_at: now }
    }

    /// A prompt ends, however it ends.
    pub fn disarm(now: u64) -> (r: SessionActivity)
        ensures
            r == (SessionActivity { in_flight: false, touched_at: now }),
    {
        SessionActivity { in_flight: false, touched_at: now }
    }
}

/// How a running prompt is cancelled: the connection to write to, and the session
/// to name.
#[derive(Clone, PartialEq, Eq)]
pub struct CancelHandle {
    pub connection: u64,
    pub session_id: String,
}

/// A cancel handle, over texts.
pub struct CancelText {
    pub connection: u64,
    pub session_id: Seq<char>,
}

impl View for CancelHandle {
    type V = CancelText;

    open spec fn view(&self) -> CancelText {
        CancelText { connection: self.connection, session_id: self.session_id@ }
    }
}

/// What stands behind the lock of a connection that could be locked.
#[derive(Clone, PartialEq, Eq)]
pub struct ConnectionProbe {
    pub handle: u64,
    pub last_active: u64,
    pub alive: bool,
    pub session_id: Option<String>,
}

/// A probe, over texts.
pub struct ProbeText {
    pub handle: u64,
    pub last_active: u64,
    pub alive: bool,
    pub session_id: Option<Seq<char>>,
}

impl View for ConnectionProbe {
    type V = ProbeText;

    open spec fn view(&self) -> ProbeText {
        ProbeText {
            handle: self.handle,
            last_active: self.last_active,
            alive: self.alive,
            session_id: opt_view(self.session_id),
        }
    }
}

pub open spec fn probe_views(probes: Seq<ConnectionProbe>) -> Seq<ProbeText> {
    probes.map_values(|p: ConnectionProbe| p@)
}

/// What the probes show of a connection. One that they do not show is locked.
pub open spec fn probe_of(probes: Seq<ProbeText>, handle: u64) -> Option<ProbeText>
    decreases probes.len(),
{
    if probes.len() == 0 {
        None
    } else if probes[0].handle == handle {
        Some(probes[0])
    } else {
        probe_of(probes.skip(1), handle)
    }
}

/// What the probes show of a connection.
pub fn find_probe(probes: &Vec<ConnectionProbe>, handle: u64) -> (r: Option<&ConnectionProbe>)
    ensures
        match r {
            Some(p) => probe_of(probe_views(probes@), handle) == Some(p@),
            None => probe_of(probe_views(probes@), handle) is None,
        },
{
    let mut i: usize = 0;
    let ghost all = probe_views(probes@);
    assert(all.skip(0) =~= all);
    while i < probes.len()
        invariant
            all == probe_views(probes@),
            i <= probes.len(),
            probe_of(all.skip(i as int), handle) == probe_of(all, handle),
        decreases probes.len() - i,
    {
        assert(all.skip(i as int)[0] == probes[i as int]@);
        assert(all.skip(i as int).skip(1) =~= all.skip(i + 1));
        if probes[i].handle == handle {
            return Some(&probes[i]);
        }
        i += 1;
    }
    None
}

/// Why the pool refuses.
#[derive(Debug, Clone, PartialEq, Eq)]
pub enum PoolError {
    /// Every session is at work.
    Exhausted { max_sessions: usize },
    /// A pinned project's root cannot be used.
    ProjectRoot(String),
    /// The thread's session is bound to another project.
    ProjectMismatch { stored: ProjectContext, incoming: ProjectContext },
    /// The thread's project binding was lost and has to be reset.
    UntrustedBinding,
    /// An earlier session could not be restored now.
    SessionLoad { reason: &'static str },
    /// The thread has no connection.
    NoConnection,
    /// The thread has no session.
    NoSession,
    /// The connection has no session yet.
    NoCurrentSession,
    /// The thread's connection cannot be claimed.
    CannotAcquire { reason: &'static str },
    /// A pending approval belongs to another session.
    ApprovalMismatch,
    /// The home directory is not known.
    MissingHome,
    /// The agent's name is not known.
    MissingAgentName,
    /// The agent's name is no directory name.
    UnsafeAgentName,
}

/// A refusal, over texts.
pub enum PoolFault {
    Exhausted(usize),
    ProjectRoot(Seq<char>),
    ProjectMismatch(ProjectText, ProjectText),
    UntrustedBinding,
    SessionLoad(Seq<char>),
    NoConnection,
    NoSession,
    NoCurrentSession,
    CannotAcquire(Seq<char>),
    ApprovalMismatch,
    MissingHome,
    MissingAgentName,
    UnsafeAgentName,
}

impl View for PoolError {
    type V = PoolFault;

    open spec fn view(&self) -> PoolFault {
        match self {
            PoolError::Exhausted { max_sessions } => PoolFault::Exhausted(*max_sessions),
            PoolError::ProjectRoot(e) => PoolFault::ProjectRoot(e@),
            PoolError::ProjectMismatch { stored, incoming } => PoolFault::ProjectMismatch(
                stored@,
                incoming@,
            ),
            PoolError::UntrustedBinding => PoolFault::UntrustedBinding,
            PoolError::SessionLoad { reason } => PoolFault::SessionLoad(reason@),
            PoolError::NoConnection => PoolFault::NoConnection,
            PoolError::NoSession => PoolFault::NoSession,
            PoolError::NoCurrentSession => PoolFault::NoCurrentSession,
            PoolError::CannotAcquire { reason } => PoolFault::CannotAcquire(reason@),
            PoolError::ApprovalMismatch => PoolFault::ApprovalMismatch,
            PoolError::MissingHome => PoolFault::MissingHome,
            PoolError::MissingAgentName => PoolFault::MissingAgentName,
            PoolError::UnsafeAgentName => PoolFault::UnsafeAgentName,
        }
    }
}

/// What Rust's `{:?}` prints for a path.
pub uninterp spec fn debug_path(s: Seq<char>) -> Seq<char>;

/// Calls the `Debug` rendering of `std::path::Path` through `format!`. The result
/// is named by `debug_path`: it is a function of the path's text alone. Which
/// characters are escaped, and how, is left unsaid.
#[verifier::external_body]
fn debug_path_text(s: &str) -> (r: String)
    ensures
        r@ == debug_path(s@),
{
    format!("{:?}", std::path::Path::new(s))
}

/// How a refusal reads, for a thread that is shown as `thread`.
pub open spec fn pool_fault_message(f: PoolFault, thread: Seq<char>) -> Seq<char> {
    match f {
        PoolFault::Exhausted(n) => "pool exhausted ("@ + decimal(n as nat) + " sessions)"@,
        PoolFault::ProjectRoot(e) => e,
        PoolFault::ProjectMismatch(stored, incoming) => {
            "project context mismatch: existing session for "@ + thread
                + " is bound to project_id="@ + debug_quoted(stored.project_id)
                + " project_root="@ + debug_path(stored.project_root)
                + ", but incoming context is project_id="@ + debug_quoted(incoming.project_id)
                + " project_root="@ + debug_path(incoming.project_root)
                + "; refuse to reuse a stale cross-project session"@
        },
        PoolFault::UntrustedBinding => {
            "project binding for "@ + thread
                + " is untrusted (session_projects persistence was corrupt at startup); refusing to resume. Reset the session and retry with a trusted project context."@
        },
        PoolFault::SessionLoad(reason) => "session load "@ + reason
            + ": could not restore previous session"@,
        PoolFault::NoConnection => "no connection for thread "@ + thread,
        PoolFault::NoSession => "no session for thread "@ + thread,
        PoolFault::NoCurrentSession => "no session"@,
        PoolFault::CannotAcquire(reason) => "cannot acquire session for thread "@ + thread + ": "@
            + reason,
        PoolFault::ApprovalMismatch =>
            "approval session mismatch: pending approval is bound to a different ACP session"@,
        PoolFault::MissingHome => "HOME is required for ACP session persistence"@,
        PoolFault::MissingAgentName =>
            "ARTHUR_AGENT_NAME is required for agent-scoped ACP session persistence"@,
        PoolFault::UnsafeAgentName => "ARTHUR_AGENT_NAME must be a single safe path component"@,
    }
}

impl PoolError {
    /// How the refusal reads. The thread's key is shown without session ids.
    pub fn message(&self, thread_id: &str) -> (r: String)
        ensures
            r@ == pool_fault_message(self@, redacted(thread_id@)),
    {
        let shown = redact_session_ids(thread_id);
        let thread = shown.as_str();
        match self {
            PoolError::Exhausted { max_sessions } => {
                let mut r = joined("pool exhausted (", decimal_text(*max_sessions as u64).as_str());
                r.append(" sessions)");
                r
            },
            PoolError::ProjectRoot(e) => e.clone(),
            PoolError::ProjectMismatch { stored, incoming } => {
                let mut r = joined("project context mismatch: existing session for ", thread);
                r.append(" is bound to project_id=");
                r.append(debug_text(stored.project_id.as_str()).as_str());
                r.append(" project_root=");
                r.append(debug_path_text(stored.project_root.as_str()).as_str());
                r.append(", but incoming context is project_id=");
                r.append(debug_text(incoming.project_id.as_str()).as_str());
                r.append(" project_root=");
                r.append(debug_path_text(incoming.project_root.as_str()).as_str());
                r.append("; refuse to reuse a stale cross-project session");
                r
            },
            PoolError::UntrustedBinding => {
                let mut r = joined("project binding for ", thread);
                r.append(
                    " is untrusted (session_projects persistence was corrupt at startup); refusing to resume. Reset the session and retry with a trusted project context.",
                );
                r
            },
            PoolError::SessionLoad { reason } => {
                let mut r = joined("session load ", reason);
                r.append(": could not restore previous session");
                r
            },
            PoolError::NoConnection => joined("no connection for thread ", thread),
            PoolError::NoSession => joined("no session for thread ", thread),
            PoolError::NoCurrentSession => "no session".to_owned(),
            PoolError::CannotAcquire { reason } => {
                let mut r = joined("cannot acquire session for thread ", thread);
                r.append(": ");
                r.append(reason);
                r
            },
            PoolError::ApprovalMismatch =>
                "approval session mismatch: pending approval is bound to a different ACP session".to_owned(),
            PoolError::MissingHome => "HOME is required for ACP session persistence".to_owned(),
            PoolError::MissingAgentName =>
                "ARTHUR_AGENT_NAME is required for agent-scoped ACP session persistence".to_owned(),
            PoolError::UnsafeAgentName =>
                "ARTHUR_AGENT_NAME must be a single safe path component".to_owned(),
        }
    }
}

/// What the pool knows, over texts.
#[verifier::ext_equal]
pub struct PoolText {
    /// The connection of each thread.
    pub active: Map<Seq<char>, ActiveEntry>,
    pub cancel_handles: Map<Seq<char>, CancelText>,
    /// The token with which a session reaches the facade.
    pub facade_tokens: Map<Seq<char>, Seq<char>>,
    pub activity: Map<Seq<char>, SessionActivity>,
    /// The process group of each agent.
    pub pgids: Map<Seq<char>, i32>,
    /// The sessions that can be resumed.
    pub suspended: Map<Seq<char>, Seq<char>>,
    /// The sessions that a restart finds again.
    pub persisted: Map<Seq<char>, Seq<char>>,
    /// The lock that one creation for a thread holds at a time.
    pub creating: Map<Seq<char>, u64>,
    pub session_workdirs: Map<Seq<char>, Seq<char>>,
    pub session_projects: Map<Seq<char>, ProjectText>,
    /// The threads whose project binding was lost.
    pub untrusted: Map<Seq<char>, ()>,
    pub working_dir: Seq<char>,
    pub max_sessions: usize,
    pub outstanding: usize,
    pub hung_threshold_secs: u64,
}

impl PoolText {
    /// The sessions that are there or are being created do not exceed the limit.
    pub open spec fn within_capacity(self) -> bool {
        self.active.dom().finite() && self.active.dom().len() + self.outstanding
            <= self.max_sessions
    }

    /// What is kept beside a connection is kept only as long as the connection.
    pub open spec fn side_maps_follow(self) -> bool {
        &&& self.cancel_handles.dom().subset_of(self.active.dom())
        &&& self.activity.dom() =~= self.active.dom()
        &&& self.pgids.dom().subset_of(self.active.dom())
    }

    /// Every ordinary thread that is persisted is active or suspended, so that asking
    /// for its session finds it.
    pub open spec fn persisted_at_hand(self) -> bool {
        forall|k: Seq<char>| #[trigger]
            self.persisted.contains_key(k) && !native(k) ==> self.active.contains_key(k)
                || self.suspended.contains_key(k)
    }

    /// Nothing of a native dispatch can be resumed or survives a restart.
    pub open spec fn native_free(self) -> bool {
        &&& forall|k: Seq<char>| #[trigger] self.suspended.contains_key(k) ==> !native(k)
        &&& forall|k: Seq<char>| #[trigger] self.persisted.contains_key(k) ==> !native(k)
        &&& forall|k: Seq<char>| #[trigger] self.session_workdirs.contains_key(k) ==> !native(k)
        &&& forall|k: Seq<char>| #[trigger] self.session_projects.contains_key(k) ==> !native(k)
        &&& forall|k: Seq<char>| #[trigger] self.untrusted.contains_key(k) ==> !native(k)
    }
}

/// The pool of agent sessions.
pub struct SessionPool {
    pub(crate) active: TextMap<ActiveEntry>,
    pub(crate) cancel_handles: TextMap<CancelHandle>,
    pub(crate) facade_tokens: TextMap<String>,
    pub(crate) activity: TextMap<SessionActivity>,
    pub(crate) pgids: TextMap<i32>,
    pub(crate) suspended: TextMap<String>,
    pub(crate) persisted: TextMap<String>,
    pub(crate) creating: TextMap<u64>,
    pub(crate) session_workdirs: TextMap<String>,
    pub(crate) session_projects: TextMap<ProjectContext>,
    pub(crate) untrusted: TextMap<()>,
    pub(crate) working_dir: String,
    pub(crate) max_sessions: usize,
    pub(crate) outstanding: usize,
    pub(crate) hung_threshold_secs: u64,
}

impl View for SessionPool {
    type V = PoolText;

    open(crate) spec fn view(&self) -> PoolText {
        PoolText {
            active: self.active@,
            cancel_handles: self.cancel_handles@,
            facade_tokens: self.facade_tokens@,
            activity: self.activity@,
            pgids: self.pgids@,
            suspended: self.suspended@,
            persisted: self.persisted@,
            creating: self.creating@,
            session_workdirs: self.session_workdirs@,
            session_projects: self.session_projects@,
            untrusted: self.untrusted@,
            working_dir: self.working_dir@,
            max_sessions: self.max_sessions,
            outstanding: self.outstanding,
            hung_threshold_secs: self.hung_threshold_secs,
        }
    }
}

impl SessionPool {
    pub open(crate) spec fn maps_wf(self) -> bool {
        &&& self.active.wf()
        &&& self.cancel_handles.wf()
        &&& self.facade_tokens.wf()
        &&& self.activity.wf()
        &&& self.pgids.wf()
        &&& self.suspended.wf()
        &&& self.persisted.wf()
        &&& self.creating.wf()
        &&& self.session_workdirs.wf()
        &&& self.session_projects.wf()
        &&& self.untrusted.wf()
    }

    /// The pool is within its limit, and what it keeps beside its connections
    /// belongs to them.
    pub open(crate) spec fn wf(self) -> bool {
        self.maps_wf() && self@.within_capacity() && self@.side_maps_follow()
    }
}

} // verus!
