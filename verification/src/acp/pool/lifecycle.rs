//! How a session is used, cancelled, reset and shut down.

use vstd::prelude::*;
use vstd::string::*;

use crate::acp::project::ProjectContext;
use crate::json::{json_string, json_string_text};
use crate::text::{joined, opt_str, opt_view, same_text};
use crate::text_map::TextMap;

use super::capacity::{phase_load, phase_try_cas, seen_phase, token_of};
use super::create::{connection_serves, opt_value};
use super::entry_phase;
use super::keys::{is_native_dispatch_key, native, opt_project_view};
use super::state::{
    find_probe, probe_views, ActiveEntry, ConnectionProbe, PoolError, PoolFault, PoolText,
    SessionActivity, SessionPool,
};

verus! {

/// Why a connection cannot be claimed, by the phase that it is seen in.
pub open spec fn refusal(phase: u8) -> Seq<char> {
    if phase == entry_phase::BUSY {
        "session is busy executing another prompt"@
    } else if phase == entry_phase::EVICTING {
        "session is being evicted"@
    } else {
        "session is not in IDLE state"@
    }
}

/// Why a thread's connection cannot be claimed.
pub open spec fn claim_fault(p: PoolText, thread: Seq<char>, locked: bool) -> Option<PoolFault> {
    if !p.active.contains_key(thread) {
        Some(PoolFault::NoConnection)
    } else if locked || p.active[thread].phase != entry_phase::IDLE {
        Some(PoolFault::CannotAcquire(refusal(seen_phase(p.active[thread], locked))))
    } else {
        None
    }
}

/// The pool with a thread's connection in a phase and an activity.
pub open spec fn in_phase(
    p: PoolText,
    thread: Seq<char>,
    phase: u8,
    activity: SessionActivity,
) -> PoolText {
    PoolText {
        active: p.active.insert(
            thread,
            ActiveEntry { handle: p.active[thread].handle, phase },
        ),
        activity: p.activity.insert(thread, activity),
        ..p
    }
}

/// The pool without anything that belongs to a key beside its connection.
pub open spec fn purged(p: PoolText, key: Seq<char>) -> PoolText {
    PoolText {
        cancel_handles: p.cancel_handles.remove(key),
        activity: p.activity.remove(key),
        pgids: p.pgids.remove(key),
        suspended: p.suspended.remove(key),
        persisted: p.persisted.remove(key),
        session_workdirs: p.session_workdirs.remove(key),
        session_projects: p.session_projects.remove(key),
        ..p
    }
}

/// The pool after a thread was reset: nothing of it is left but its creation lock.
pub open spec fn after_reset(p: PoolText, thread: Seq<char>) -> PoolText {
    purged(
        PoolText {
            active: p.active.remove(thread),
            facade_tokens: p.facade_tokens.remove(thread),
            untrusted: p.untrusted.remove(thread),
            ..p
        },
        thread,
    )
}

/// The sessions that a shutdown suspends: all but those of native dispatches.
pub open spec fn suspending(p: PoolText, ids: Seq<(Seq<char>, Seq<char>)>) -> PoolText
    decreases ids.len(),
{
    if ids.len() == 0 {
        p
    } else {
        let q = suspending(p, ids.drop_last());
        let (key, sid) = ids.last();
        if native(key) {
            q
        } else {
            PoolText {
                persisted: q.persisted.insert(key, sid),
                suspended: q.suspended.insert(key, sid),
                ..q
            }
        }
    }
}

/// The pool after a shutdown that found these sessions.
pub open spec fn after_shutdown(p: PoolText, ids: Seq<(Seq<char>, Seq<char>)>) -> PoolText {
    PoolText {
        active: Map::empty(),
        cancel_handles: Map::empty(),
        activity: Map::empty(),
        pgids: Map::empty(),
        ..suspending(p, ids)
    }
}

pub open spec fn id_views(ids: Seq<(String, String)>) -> Seq<(Seq<char>, Seq<char>)> {
    ids.map_values(|e: (String, String)| (e.0@, e.1@))
}

/// A thread has a session to go on with: a connection, or one that can be resumed.
pub open spec fn reusable(p: PoolText, key: Seq<char>) -> bool {
    p.active.contains_key(key) || p.suspended.contains_key(key) || p.persisted.contains_key(key)
}

/// The line that cancels a session's prompt.
pub open spec fn cancel_line(session_id: Seq<char>) -> Seq<char> {
    "{\"jsonrpc\":\"2.0\",\"method\":\"session/cancel\",\"params\":{\"sessionId\":"@ + json_string(
        session_id,
    ) + "}}\n"@
}

/// The line that cancels a session's prompt.
pub fn cancel_request(session_id: &str) -> (r: String)
    ensures
        r@ == cancel_line(session_id@),
{
    let mut r = joined(
        "{\"jsonrpc\":\"2.0\",\"method\":\"session/cancel\",\"params\":{\"sessionId\":",
        json_string_text(session_id).as_str(),
    );
    r.append("}}\n");
    r
}

/// Whether an approval may resume: the connection has a session, and it is the one
/// that the approval was asked in.
pub fn check_approval_session(current: Option<&str>, expected: &str) -> (r: Result<(), PoolError>)
    ensures
        match opt_str(current) {
            None => r is Err && r->Err_0@ == PoolFault::NoCurrentSession,
            Some(c) => if c == expected@ {
                r is Ok
            } else {
                r is Err && r->Err_0@ == PoolFault::ApprovalMismatch
            },
        },
{
    match current {
        None => Err(PoolError::NoCurrentSession),
        Some(c) => if same_text(c, expected) {
            Ok(())
        } else {
            Err(PoolError::ApprovalMismatch)
        },
    }
}

impl SessionPool {
    /// Claims a thread's connection for a prompt. A connection serves one prompt at
    /// a time.
    pub fn claim_connection(&mut self, thread_id: &str, locked: bool, now: u64) -> (r: Result<
        u64,
        PoolError,
    >)
        requires
            old(self).wf(),
        ensures
            final(self).wf(),
            match claim_fault(old(self)@, thread_id@, locked) {
                Some(f) => r is Err && r->Err_0@ == f && final(self)@ == old(self)@,
                None => {
                    &&& r == Ok::<u64, PoolError>(old(self)@.active[thread_id@].handle)
                    &&& final(self)@ == in_phase(
                        old(self)@,
                        thread_id@,
                        entry_phase::BUSY,
                        SessionActivity { in_flight: true, touched_at: now },
                    )
                },
            },
    {
        let mut entry: ActiveEntry = match self.active.get(thread_id) {
            Some(e) => *e,
            None => {
                return Err(PoolError::NoConnection);
            },
        };
        if !phase_try_cas(&mut entry, locked, entry_phase::IDLE, entry_phase::BUSY) {
            let phase: u8 = phase_load(&entry, locked);
            let reason = if phase == entry_phase::BUSY {
                "session is busy executing another prompt"
            } else if phase == entry_phase::EVICTING {
                "session is being evicted"
            } else {
                "session is not in IDLE state"
            };
            return Err(PoolError::CannotAcquire { reason });
        }
        self.active.insert(thread_id.to_owned(), entry);
        self.activity.insert(thread_id.to_owned(), SessionActivity::arm(now));
        proof {
            assert(self@.active.dom() =~= old(self)@.active.dom());
            assert(self@.activity.dom() =~= old(self)@.activity.dom());
        }
        Ok(entry.handle)
    }

    /// Gives a claimed connection back, however the prompt ended. A connection
    /// that the thread no longer has needs nothing.
    pub fn release_connection(&mut self, thread_id: &str, handle: u64, now: u64)
        requires
            old(self).wf(),
        ensures
            final(self).wf(),
            final(self)@ == if old(self)@.active.contains_key(thread_id@)
                && old(self)@.active[thread_id@].handle == handle {
                in_phase(
                    old(self)@,
                    thread_id@,
                    entry_phase::IDLE,
                    SessionActivity { in_flight: false, touched_at: now },
                )
            } else {
                old(self)@
            },
    {
        let held = match self.active.get(thread_id) {
            Some(e) => e.handle == handle,
            None => false,
        };
        if held {
            self.active.insert(
                thread_id.to_owned(),
                ActiveEntry { handle, phase: entry_phase::IDLE },
            );
            self.activity.insert(thread_id.to_owned(), SessionActivity::disarm(now));
            proof {
                assert(self@.active.dom() =~= old(self)@.active.dom());
                assert(self@.activity.dom() =~= old(self)@.activity.dom());
            }
        }
    }

    /// The connection of a thread.
    pub fn connection_of(&self, thread_id: &str) -> (r: Result<u64, PoolError>)
        requires
            self.wf(),
        ensures
            if self@.active.contains_key(thread_id@) {
                r == Ok::<u64, PoolError>(self@.active[thread_id@].handle)
            } else {
                r is Err && r->Err_0@ == PoolFault::NoConnection
            },
    {
        match self.active.get(thread_id) {
            Some(e) => Ok(e.handle),
            None => Err(PoolError::NoConnection),
        }
    }

    /// How a thread's running prompt is cancelled: the connection to write to, and
    /// the line to write.
    pub fn cancel_session(&self, thread_id: &str) -> (r: Result<(u64, String), PoolError>)
        requires
            self.wf(),
        ensures
            if self@.cancel_handles.contains_key(thread_id@) {
                &&& r is Ok
                &&& r->Ok_0.0 == self@.cancel_handles[thread_id@].connection
                &&& r->Ok_0.1@ == cancel_line(self@.cancel_handles[thread_id@].session_id)
            } else {
                r is Err && r->Err_0@ == PoolFault::NoSession
            },
    {
        match self.cancel_handles.get(thread_id) {
            Some(h) => Ok((h.connection, cancel_request(h.session_id.as_str()))),
            None => Err(PoolError::NoSession),
        }
    }

    /// Whether a thread has a session that answers or can be resumed.
    pub fn has_active_session(&self, thread_id: &str, probes: &Vec<ConnectionProbe>) -> (r: bool)
        requires
            self.wf(),
        ensures
            r == (self@.suspended.contains_key(thread_id@) || self@.persisted.contains_key(
                thread_id@,
            ) || connection_serves(self@, thread_id@, probe_views(probes@))),
    {
        if self.suspended.contains(thread_id) || self.persisted.contains(thread_id) {
            return true;
        }
        match self.active.get(thread_id) {
            Some(e) => match find_probe(probes, e.handle) {
                Some(p) => p.alive,
                None => true,
            },
            None => false,
        }
    }

    /// The project that a thread is bound to.
    pub fn get_pinned_project(&self, thread_key: &str) -> (r: Option<ProjectContext>)
        requires
            self.wf(),
        ensures
            opt_project_view(r) == opt_value(self@.session_projects, thread_key@),
    {
        match self.session_projects.get(thread_key) {
            Some(p) => Some(p.copied()),
            None => None,
        }
    }

    /// Whether a thread has a session to go on with.
    pub fn has_reusable_session(&self, session_key: &str) -> (r: bool)
        requires
            self.wf(),
        ensures
            r == reusable(self@, session_key@),
    {
        self.active.contains(session_key) || self.suspended.contains(session_key)
            || self.persisted.contains(session_key)
    }

    /// Drops everything that belongs to a key beside its connection and its creation lock.
    pub(crate) fn purge_session_entries(&mut self, key: &str)
        requires
            old(self).maps_wf(),
        ensures
            final(self).maps_wf(),
            final(self)@ == purged(old(self)@, key@),
    {
        self.drop_side_entries(key);
        self.suspended.remove(key);
        self.persisted.remove(key);
        self.session_workdirs.remove(key);
        self.session_projects.remove(key);
    }

    /// Forgets a thread. It is an error if the thread had no connection, but
    /// everything else of it is forgotten all the same. The facade token to revoke
    /// is handed out.
    pub fn reset_session(&mut self, thread_id: &str) -> (r: (Result<(), PoolError>, Option<String>))
        requires
            old(self).wf(),
        ensures
            final(self).wf(),
            final(self)@ == after_reset(old(self)@, thread_id@),
            old(self)@.active.contains_key(thread_id@) ==> r.0 is Ok,
            !old(self)@.active.contains_key(thread_id@) ==> r.0 is Err && r.0->Err_0@
                == PoolFault::NoSession,
            opt_view(r.1) == token_of(old(self)@, thread_id@),
    {
        let had_active = self.active.remove(thread_id).is_some();
        self.purge_session_entries(thread_id);
        let revoked = self.revoke_facade_token_for_key(thread_id);
        self.untrusted.remove(thread_id);
        proof {
            let p = old(self)@;
            assert(self@.active.dom() =~= p.active.dom().remove(thread_id@));
            assert(self@.activity.dom() =~= p.activity.dom().remove(thread_id@));
            assert(self@.cancel_handles.dom() =~= p.cancel_handles.dom().remove(thread_id@));
            assert(self@.pgids.dom() =~= p.pgids.dom().remove(thread_id@));
        }
        let result = if had_active {
            Ok(())
        } else {
            Err(PoolError::NoSession)
        };
        (result, revoked)
    }

    /// Closes the pool: suspends the sessions that were found on its connections,
    /// but those of native dispatches, and drops every connection. Returns how many
    /// there were.
    pub fn shutdown(&mut self, session_ids: Vec<(String, String)>) -> (r: usize)
        requires
            old(self).wf(),
        ensures
            final(self).wf(),
            final(self)@ == after_shutdown(old(self)@, id_views(session_ids@)),
            r == old(self)@.active.dom().len(),
    {
        let ghost ids = id_views(session_ids@);
        let ghost before = self@;
        let mut i: usize = 0;
        assert(ids.take(0) =~= Seq::empty());
        while i < session_ids.len()
            invariant
                ids == id_views(session_ids@),
                i <= session_ids.len(),
                self.wf(),
                self@ == suspending(before, ids.take(i as int)),
                self@.active == before.active,
            decreases session_ids.len() - i,
        {
            assert(ids.take(i + 1).drop_last() =~= ids.take(i as int));
            assert(ids.take(i + 1).last() == (session_ids[i as int].0@, session_ids[i as int].1@));
            if !is_native_dispatch_key(session_ids[i].0.as_str()) {
                self.persisted.insert(session_ids[i].0.clone(), session_ids[i].1.clone());
                self.suspended.insert(session_ids[i].0.clone(), session_ids[i].1.clone());
            }
            i += 1;
        }
        assert(ids.take(ids.len() as int) =~= ids);
        let count: usize = self.active.len();
        self.active = TextMap::new();
        self.cancel_handles = TextMap::new();
        self.activity = TextMap::new();
        self.pgids = TextMap::new();
        proof {
            assert(self@.active.dom() =~= Set::empty());
            assert(self@.activity.dom() =~= Set::empty());
            assert(self@.cancel_handles.dom() =~= Set::empty());
            assert(self@.pgids.dom() =~= Set::empty());
        }
        count
    }
}

} // verus!
