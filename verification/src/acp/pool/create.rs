//! How a session comes to be.
//!
//! Creating a session alternates between decisions, which are here, and work with
//! the agent. `get_or_create` decides whether to create at all;
//! `ensure_capacity_or_evict` reserves room; then the agent is started and
//! `plan_load` and `after_load` decide whether it resumes an earlier session; and
//! `finish_get_or_create` takes the connection in.

use vstd::prelude::*;
use vstd::string::*;

use crate::acp::project::{opt_project, pinned, ProjectContext, ProjectText};
use crate::text::{behind, opt_str, opt_view, strip_prefix};
use crate::text_map::TextMap;

use super::capacity::{disconnected, lemma_disconnected, token_of, unreserved};
use super::entry_phase;
use super::keys::{
    canonicalize_pinned, classify_load_error, effective_workdir, is_native_dispatch_key, load_failure,
    native, opt_project_view, resolve_effective_workdir, LoadFailure,
    NATIVE_DISPATCH_KEY_PREFIX,
};
use super::state::{
    find_probe, probe_of, probe_views, ActiveEntry, CancelHandle, CancelText, ConnectionProbe, PoolError,
    PoolFault, PoolText, ProbeText, SessionActivity, SessionPool,
};

verus! {

/// What is known of a session that is to be created.
pub struct CreatePlan {
    /// Where the agent works.
    pub workdir: String,
    /// The project to remember for the thread.
    pub project_to_store: Option<ProjectContext>,
    /// The earlier session to resume.
    pub saved_session_id: Option<String>,
    /// The thread had a connection, which is dead.
    pub had_existing: bool,
    /// The caller named a project, so that the directory is remembered.
    pub keep_workdir: bool,
}

/// A plan, over texts.
pub struct PlanText {
    pub workdir: Seq<char>,
    pub project_to_store: Option<ProjectText>,
    pub saved_session_id: Option<Seq<char>>,
    pub had_existing: bool,
    pub keep_workdir: bool,
}

impl View for CreatePlan {
    type V = PlanText;

    open spec fn view(&self) -> PlanText {
        PlanText {
            workdir: self.workdir@,
            project_to_store: opt_project_view(self.project_to_store),
            saved_session_id: opt_view(self.saved_session_id),
            had_existing: self.had_existing,
            keep_workdir: self.keep_workdir,
        }
    }
}

/// What to do about a thread that wants a session.
pub enum CreateDecision {
    /// A native dispatch: always a session of its own.
    Fresh,
    /// The thread's connection serves.
    Reuse,
    /// Create a session.
    Create(CreatePlan),
}

/// A decision, over texts.
pub enum DecisionText {
    Fresh,
    Reuse,
    Create(PlanText),
}

impl View for CreateDecision {
    type V = DecisionText;

    open spec fn view(&self) -> DecisionText {
        match self {
            CreateDecision::Fresh => DecisionText::Fresh,
            CreateDecision::Reuse => DecisionText::Reuse,
            CreateDecision::Create(plan) => DecisionText::Create(plan@),
        }
    }
}

/// What the file system said of a pinned project's root, over texts.
pub open spec fn canonical_view(c: Option<Result<ProjectContext, String>>) -> Option<
    Result<ProjectText, Seq<char>>,
> {
    match c {
        Some(Ok(p)) => Some(Ok(p@)),
        Some(Err(e)) => Some(Err(e@)),
        None => None,
    }
}

pub open spec fn opt_value<V>(m: Map<Seq<char>, V>, k: Seq<char>) -> Option<V> {
    if m.contains_key(k) {
        Some(m[k])
    } else {
        None
    }
}

/// Why a pinned project may not use a thread's session: the session is bound to
/// another project (roots are compared as paths), or its binding was lost while it can still be resumed.
pub open spec fn binding_fault(p: PoolText, thread: Seq<char>, incoming: ProjectText) -> Option<
    PoolFault,
> {
    if p.session_projects.contains_key(thread) && !p.session_projects[thread].same(incoming) {
        Some(PoolFault::ProjectMismatch(p.session_projects[thread], incoming))
    } else if p.untrusted.contains_key(thread) && (p.persisted.contains_key(thread)
        || p.suspended.contains_key(thread)) {
        Some(PoolFault::UntrustedBinding)
    } else {
        None
    }
}

/// The plan for a thread without a live connection.
pub open spec fn create_plan(
    p: PoolText,
    thread: Seq<char>,
    project: Option<ProjectText>,
    canonical: Option<ProjectText>,
    probes: Seq<ProbeText>,
) -> PlanText {
    let (workdir, project_to_store) = effective_workdir(
        project,
        canonical,
        opt_value(p.session_workdirs, thread),
        p.working_dir,
    );
    PlanText {
        workdir,
        project_to_store,
        saved_session_id: if p.suspended.contains_key(thread) {
            Some(p.suspended[thread])
        } else if p.active.contains_key(thread) {
            probe_of(probes, p.active[thread].handle)->0.session_id
        } else {
            None
        },
        had_existing: p.active.contains_key(thread),
        keep_workdir: project is Some,
    }
}

/// The thread's connection is locked or alive.
pub open spec fn connection_serves(p: PoolText, thread: Seq<char>, probes: Seq<ProbeText>) -> bool {
    p.active.contains_key(thread) && {
        let probe = probe_of(probes, p.active[thread].handle);
        probe is None || probe->0.alive
    }
}

/// What to do about a thread that wants a session.
pub open spec fn create_decision(
    p: PoolText,
    thread: Seq<char>,
    project: Option<ProjectText>,
    canonicalized: Option<Result<ProjectText, Seq<char>>>,
    probes: Seq<ProbeText>,
) -> Result<DecisionText, PoolFault> {
    let canonical = match canonicalized {
        Some(Ok(c)) => Some(c),
        _ => None,
    };
    if native(thread) {
        Ok(DecisionText::Fresh)
    } else if canonicalized is Some && canonicalized->0 is Err {
        Err(PoolFault::ProjectRoot(canonicalized->0->Err_0))
    } else if canonical is Some && binding_fault(p, thread, canonical->0) is Some {
        Err(binding_fault(p, thread, canonical->0)->0)
    } else if connection_serves(p, thread, probes) {
        Ok(DecisionText::Reuse)
    } else {
        Ok(DecisionText::Create(create_plan(p, thread, project, canonical, probes)))
    }
}

/// Whether an earlier session is asked for: there is one, and the agent can load.
pub fn plan_load(plan: &CreatePlan, supports_load: bool) -> (r: Option<String>)
    ensures
        opt_view(r) == if supports_load {
            plan@.saved_session_id
        } else {
            None
        },
{
    if !supports_load {
        return None;
    }
    match &plan.saved_session_id {
        Some(s) => Some(s.clone()),
        None => None,
    }
}

/// What follows from the attempt to load an earlier session: whether it was
/// resumed, or that it may still be there and has to be tried again.
pub open spec fn load_outcome(attempt: Option<Result<(), Seq<char>>>) -> Result<bool, PoolFault> {
    match attempt {
        None => Ok(false),
        Some(Ok(_)) => Ok(true),
        Some(Err(e)) => match load_failure(e) {
            LoadFailure::Timeout => Err(PoolFault::SessionLoad("timeout"@)),
            LoadFailure::ConnectionLost => Err(PoolFault::SessionLoad("connection lost"@)),
            LoadFailure::Permanent => Ok(false),
        },
    }
}

pub open spec fn attempt_view(a: Option<Result<(), String>>) -> Option<Result<(), Seq<char>>> {
    match a {
        Some(Ok(_)) => Some(Ok(())),
        Some(Err(e)) => Some(Err(e@)),
        None => None,
    }
}

/// What follows from the attempt to load an earlier session. A session that may
/// still be there is not given up for a new one.
pub fn after_load(attempt: Option<Result<(), String>>) -> (r: Result<bool, PoolError>)
    ensures
        match load_outcome(attempt_view(attempt)) {
            Ok(resumed) => r == Ok::<bool, PoolError>(resumed),
            Err(f) => r is Err && r->Err_0@ == f,
        },
{
    match attempt {
        None => Ok(false),
        Some(Ok(_)) => Ok(true),
        Some(Err(e)) => match classify_load_error(e.as_str()) {
            LoadFailure::Timeout => Err(PoolError::SessionLoad { reason: "timeout" }),
            LoadFailure::ConnectionLost => Err(PoolError::SessionLoad { reason: "connection lost" }),
            LoadFailure::Permanent => Ok(false),
        },
    }
}

/// Whether the user is told that the session started over: it was not resumed
/// though there had been one.
pub fn session_was_reset(plan: &CreatePlan, resumed: bool) -> (r: bool)
    ensures
        r == (!resumed && (plan.had_existing || plan@.saved_session_id is Some)),
{
    !resumed && (plan.had_existing || plan.saved_session_id.is_some())
}

/// The facade channel of a thread: what follows `acp:` in its key.
pub fn facade_channel(thread_id: &str) -> (r: Option<String>)
    ensures
        opt_view(r) == behind(thread_id@, "acp:"@),
{
    strip_prefix(thread_id, "acp:")
}

/// The facade channel of a native dispatch: its key without the prefix.
pub fn native_facade_channel(thread_id: &str) -> (r: String)
    ensures
        r@ == match behind(thread_id@, NATIVE_DISPATCH_KEY_PREFIX@) {
            Some(rest) => rest,
            None => thread_id@,
        },
{
    match strip_prefix(thread_id, NATIVE_DISPATCH_KEY_PREFIX) {
        Some(rest) => rest,
        None => thread_id.to_owned(),
    }
}

/// The channel that a facade token is minted for: there is one, and the agent's
/// facade configuration could be written. Without it the token could never be
/// presented.
pub fn mint_channel(channel: Option<String>, config_written: bool) -> (r: Option<String>)
    ensures
        opt_view(r) == if config_written {
            opt_view(channel)
        } else {
            None
        },
{
    if config_written {
        channel
    } else {
        None
    }
}

/// Adds the facade token to the environment of an agent.
pub fn add_session_token(env: &mut TextMap<String>, token: Option<&str>)
    requires
        old(env).wf(),
    ensures
        final(env).wf(),
        final(env)@ == match opt_str(token) {
            Some(t) => old(env)@.insert("OPENAB_SESSION_TOKEN"@, t),
            None => old(env)@,
        },
{
    match token {
        Some(t) => {
            env.insert("OPENAB_SESSION_TOKEN".to_owned(), t.to_owned());
        },
        None => {},
    }
}

/// A connection that is ready to be taken in.
pub struct NewConnection {
    pub handle: u64,
    /// The session that the agent opened; empty where it named none.
    pub session_id: String,
    pub pgid: Option<i32>,
    /// The facade token that was minted for the session.
    pub facade_token: Option<String>,
}

/// A new connection, over texts.
pub struct NewConnectionText {
    pub handle: u64,
    pub session_id: Seq<char>,
    pub pgid: Option<i32>,
    pub facade_token: Option<Seq<char>>,
}

impl View for NewConnection {
    type V = NewConnectionText;

    open spec fn view(&self) -> NewConnectionText {
        NewConnectionText {
            handle: self.handle,
            session_id: self.session_id@,
            pgid: self.pgid,
            facade_token: opt_view(self.facade_token),
        }
    }
}

/// The pool with a connection taken in: its entry, its activity, and as far as
/// there are any its process group, its cancel handle and its facade token.
pub open spec fn connected(p: PoolText, thread: Seq<char>, c: NewConnectionText, now: u64) -> PoolText {
    PoolText {
        active: p.active.insert(thread, ActiveEntry { handle: c.handle, phase: entry_phase::IDLE }),
        activity: p.activity.insert(thread, SessionActivity { in_flight: false, touched_at: now }),
        pgids: match c.pgid {
            Some(pgid) => p.pgids.insert(thread, pgid),
            None => p.pgids,
        },
        cancel_handles: if c.session_id.len() > 0 {
            p.cancel_handles.insert(
                thread,
                CancelText { connection: c.handle, session_id: c.session_id },
            )
        } else {
            p.cancel_handles
        },
        facade_tokens: match c.facade_token {
            Some(token) => p.facade_tokens.insert(thread, token),
            None => p.facade_tokens,
        },
        ..p
    }
}

/// The token that taking a connection in revokes: the one that its own replaces.
pub open spec fn superseded_token(p: PoolText, thread: Seq<char>, c: NewConnectionText) -> Option<
    Seq<char>,
> {
    if c.facade_token is Some {
        token_of(p, thread)
    } else {
        None
    }
}

/// The pool after a thread's session was created.
pub open spec fn installed(
    p: PoolText,
    thread: Seq<char>,
    plan: PlanText,
    c: NewConnectionText,
    now: u64,
) -> PoolText {
    let cleared = if p.active.contains_key(thread) {
        disconnected(p, thread)
    } else {
        p
    };
    let mapped = PoolText {
        persisted: if c.session_id.len() > 0 {
            p.persisted.insert(thread, c.session_id)
        } else {
            p.persisted.remove(thread)
        },
        suspended: p.suspended.remove(thread),
        session_workdirs: if plan.keep_workdir && !p.session_workdirs.contains_key(thread) {
            p.session_workdirs.insert(thread, plan.workdir)
        } else {
            p.session_workdirs
        },
        session_projects: match plan.project_to_store {
            Some(project) => p.session_projects.insert(thread, project),
            None => p.session_projects,
        },
        untrusted: match plan.project_to_store {
            Some(_) => p.untrusted.remove(thread),
            None => p.untrusted,
        },
        ..cleared
    };
    unreserved(connected(mapped, thread, c, now))
}

/// What became of a connection that was made for a thread.
#[derive(PartialEq, Eq)]
pub enum CreateOutcome {
    /// The thread got a connection in the meantime; this one is dropped.
    Superseded,
    /// The connection was taken in.
    Installed {
        /// The thread had no session before.
        is_fresh: bool,
        /// The facade token to revoke.
        revoked_token: Option<String>,
        /// The remembered directories changed.
        save_meta: bool,
        /// The remembered projects changed.
        save_projects: bool,
    },
}

proof fn lemma_connected(p: PoolText, thread: Seq<char>, c: NewConnectionText, now: u64)
    requires
        p.within_capacity(),
        p.side_maps_follow(),
        p.outstanding > 0,
    ensures
        unreserved(connected(p, thread, c, now)).within_capacity(),
        unreserved(connected(p, thread, c, now)).side_maps_follow(),
{
    let q = connected(p, thread, c, now);
    assert(q.active.dom() =~= p.active.dom().insert(thread));
    assert(q.activity.dom() =~= p.activity.dom().insert(thread));
}

impl SessionPool {
    /// Decides what to do about a thread that wants a session. The project is
    /// checked before an existing connection can serve, so that no thread reaches a
    /// session of another project.
    pub fn get_or_create(
        &self,
        thread_id: &str,
        project: Option<&ProjectContext>,
        canonicalized: Option<Result<ProjectContext, String>>,
        probes: &Vec<ConnectionProbe>,
    ) -> (r: Result<CreateDecision, PoolError>)
        requires
            self.wf(),
            pinned(opt_project(project)) <==> canonicalized is Some,
        ensures
            match create_decision(
                self@,
                thread_id@,
                opt_project(project),
                canonical_view(canonicalized),
                probe_views(probes@),
            ) {
                Ok(d) => r is Ok && r->Ok_0@ == d,
                Err(f) => r is Err && r->Err_0@ == f,
            },
    {
        if is_native_dispatch_key(thread_id) {
            return Ok(CreateDecision::Fresh);
        }
        let canonical = match canonicalize_pinned(project, canonicalized) {
            Ok(c) => c,
            Err(e) => {
                return Err(PoolError::ProjectRoot(e));
            },
        };
        match &canonical {
            Some(incoming) => {
                match self.session_projects.get(thread_id) {
                    Some(stored) => {
                        if !stored.is_same(incoming) {
                            return Err(
                                PoolError::ProjectMismatch {
                                    stored: stored.copied(),
                                    incoming: incoming.copied(),
                                },
                            );
                        }
                    },
                    None => {},
                }
                if self.untrusted.contains(thread_id) && (self.persisted.contains(thread_id)
                    || self.suspended.contains(thread_id)) {
                    return Err(PoolError::UntrustedBinding);
                }
            },
            None => {},
        }
        let mut saved_session_id: Option<String> = match self.suspended.get(thread_id) {
            Some(s) => Some(s.clone()),
            None => None,
        };
        let mut had_existing = false;
        match self.active.get(thread_id) {
            Some(entry) => {
                had_existing = true;
                match find_probe(probes, entry.handle) {
                    None => {
                        return Ok(CreateDecision::Reuse);
                    },
                    Some(probe) => {
                        if probe.alive {
                            return Ok(CreateDecision::Reuse);
                        }
                        if saved_session_id.is_none() {
                            saved_session_id =
                            match &probe.session_id {
                                Some(s) => Some(s.clone()),
                                None => None,
                            };
                        }
                    },
                }
            },
            None => {},
        }
        let stored_workdir: Option<&str> = match self.session_workdirs.get(thread_id) {
            Some(w) => Some(w.as_str()),
            None => None,
        };
        let (workdir, project_to_store) = resolve_effective_workdir(
            project,
            canonical.as_ref(),
            stored_workdir,
            self.working_dir.as_str(),
        );
        Ok(
            CreateDecision::Create(
                CreatePlan {
                    workdir,
                    project_to_store,
                    saved_session_id,
                    had_existing,
                    keep_workdir: project.is_some(),
                },
            ),
        )
    }

    /// Remembers a thread's facade token, and hands out the one that it replaces.
    pub(crate) fn install_facade_token(&mut self, key: &str, token: String) -> (r: Option<String>)
        requires
            old(self).maps_wf(),
        ensures
            final(self).maps_wf(),
            final(self)@ == (PoolText {
                facade_tokens: old(self)@.facade_tokens.insert(key@, token@),
                ..old(self)@
            }),
            opt_view(r) == token_of(old(self)@, key@),
    {
        let superseded = self.facade_tokens.remove(key);
        self.facade_tokens.insert(key.to_owned(), token);
        assert(self@.facade_tokens =~= old(self)@.facade_tokens.insert(key@, token@));
        superseded
    }

    fn take_in(&mut self, thread_id: &str, connection: NewConnection, now: u64) -> (r: Option<String>)
        requires
            old(self).maps_wf(),
            old(self)@.within_capacity(),
            old(self)@.side_maps_follow(),
            old(self)@.outstanding > 0,
        ensures
            final(self).wf(),
            final(self)@ == unreserved(connected(old(self)@, thread_id@, connection@, now)),
            opt_view(r) == superseded_token(old(self)@, thread_id@, connection@),
    {
        proof {
            lemma_connected(self@, thread_id@, connection@, now);
        }
        self.active.insert(
            thread_id.to_owned(),
            ActiveEntry { handle: connection.handle, phase: entry_phase::IDLE },
        );
        self.activity.insert(thread_id.to_owned(), SessionActivity::disarm(now));
        match connection.pgid {
            Some(pgid) => {
                self.pgids.insert(thread_id.to_owned(), pgid);
            },
            None => {},
        }
        if !connection.session_id.as_str().is_empty() {
            self.cancel_handles.insert(
                thread_id.to_owned(),
                CancelHandle { connection: connection.handle, session_id: connection.session_id },
            );
        }
        let revoked = match connection.facade_token {
            Some(token) => self.install_facade_token(thread_id, token),
            None => None,
        };
        self.outstanding = self.outstanding - 1;
        revoked
    }

    /// Takes in the connection that was made for a thread, and gives its
    /// reservation back. A connection that the thread got in the meantime goes
    /// first.
    pub fn finish_get_or_create(
        &mut self,
        thread_id: &str,
        plan: CreatePlan,
        connection: NewConnection,
        probes: &Vec<ConnectionProbe>,
        now: u64,
    ) -> (r: CreateOutcome)
        requires
            old(self).wf(),
            old(self)@.outstanding > 0,
        ensures
            final(self).wf(),
            if connection_serves(old(self)@, thread_id@, probe_views(probes@)) {
                r is Superseded && final(self)@ == unreserved(old(self)@)
            } else {
                &&& r is Installed
                &&& final(self)@ == installed(old(self)@, thread_id@, plan@, connection@, now)
                &&& r->is_fresh == (!plan@.had_existing && plan@.saved_session_id is None)
                &&& opt_view(r->revoked_token) == superseded_token(
                    old(self)@,
                    thread_id@,
                    connection@,
                )
                &&& r->save_meta == plan@.keep_workdir
                &&& r->save_projects == plan@.project_to_store is Some
            },
    {
        let existing: Option<u64> = match self.active.get(thread_id) {
            Some(entry) => Some(entry.handle),
            None => None,
        };
        match existing {
            Some(handle) => {
                match find_probe(probes, handle) {
                    None => {
                        self.outstanding = self.outstanding - 1;
                        return CreateOutcome::Superseded;
                    },
                    Some(probe) => {
                        if probe.alive {
                            self.outstanding = self.outstanding - 1;
                            return CreateOutcome::Superseded;
                        }
                    },
                }
                proof {
                    lemma_disconnected(self@, thread_id@);
                }
                self.active.remove(thread_id);
                self.drop_side_entries(thread_id);
            },
            None => {},
        }
        if connection.session_id.as_str().is_empty() {
            self.persisted.remove(thread_id);
        } else {
            self.persisted.insert(thread_id.to_owned(), connection.session_id.clone());
        }
        self.suspended.remove(thread_id);
        if plan.keep_workdir && !self.session_workdirs.contains(thread_id) {
            self.session_workdirs.insert(thread_id.to_owned(), plan.workdir);
        }
        let is_fresh = !plan.had_existing && plan.saved_session_id.is_none();
        let save_projects = plan.project_to_store.is_some();
        match plan.project_to_store {
            Some(project) => {
                self.session_projects.insert(thread_id.to_owned(), project);
                self.untrusted.remove(thread_id);
            },
            None => {},
        }
        let revoked_token = self.take_in(thread_id, connection, now);
        CreateOutcome::Installed {
            is_fresh,
            revoked_token,
            save_meta: plan.keep_workdir,
            save_projects,
        }
    }

    /// Decides where the agent of a native dispatch works. Nothing that the pool
    /// remembers is looked at.
    pub fn begin_fresh_session(
        &self,
        project: Option<&ProjectContext>,
        canonicalized: Option<Result<ProjectContext, String>>,
    ) -> (r: Result<String, PoolError>)
        requires
            pinned(opt_project(project)) <==> canonicalized is Some,
        ensures
            match canonical_view(canonicalized) {
                Some(Err(e)) => r is Err && r->Err_0@ == PoolFault::ProjectRoot(e),
                Some(Ok(c)) => r is Ok && r->Ok_0@ == c.project_root,
                None => r is Ok && r->Ok_0@ == effective_workdir(
                    opt_project(project),
                    None,
                    None,
                    self@.working_dir,
                ).0,
            },
    {
        let canonical = match canonicalize_pinned(project, canonicalized) {
            Ok(c) => c,
            Err(e) => {
                return Err(PoolError::ProjectRoot(e));
            },
        };
        let (workdir, _) = resolve_effective_workdir(
            project,
            canonical.as_ref(),
            None,
            self.working_dir.as_str(),
        );
        Ok(workdir)
    }

    /// Takes in the connection of a native dispatch, and gives its reservation
    /// back. Nothing of it is remembered beyond the connection.
    pub fn create_fresh_session_only(
        &mut self,
        thread_id: &str,
        connection: NewConnection,
        now: u64,
    ) -> (r: Option<String>)
        requires
            old(self).wf(),
            old(self)@.outstanding > 0,
        ensures
            final(self).wf(),
            final(self)@ == unreserved(connected(old(self)@, thread_id@, connection@, now)),
            opt_view(r) == superseded_token(old(self)@, thread_id@, connection@),
    {
        self.take_in(thread_id, connection, now)
    }
}

} // verus!
