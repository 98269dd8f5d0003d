//! How the pool makes room.

use vstd::prelude::*;
use vstd::string::*;

use crate::text::{opt_view, same_text};
use crate::text_map::TextMap;

use super::entry_phase;
use super::keys::{better_candidate, is_native_dispatch_key, native};
use super::state::{
    find_probe, probe_of, probe_views, ActiveEntry, ConnectionProbe, PoolError, PoolFault, PoolText, ProbeText,
    SessionPool,
};

verus! {

/// The phase of a connection as seen from outside: one that is locked is at work.
pub open spec fn seen_phase(entry: ActiveEntry, locked: bool) -> u8 {
    if locked {
        entry_phase::BUSY
    } else {
        entry.phase
    }
}

/// The phase of a connection as seen from outside.
pub fn phase_load(entry: &ActiveEntry, locked: bool) -> (r: u8)
    ensures
        r == seen_phase(*entry, locked),
{
    if locked {
        entry_phase::BUSY
    } else {
        entry.phase
    }
}

/// Claims a connection that is unlocked and in phase `from`.
pub fn phase_try_cas(entry: &mut ActiveEntry, locked: bool, from: u8, to: u8) -> (r: bool)
    ensures
        r == (!locked && old(entry).phase == from),
        *final(entry) == if r {
            ActiveEntry { handle: old(entry).handle, phase: to }
        } else {
            *old(entry)
        },
{
    if !locked && entry.phase == from {
        entry.phase = to;
        true
    } else {
        false
    }
}

/// Removes the entry of a key if it is still the expected connection.
pub fn remove_if_same_handle(
    map: &mut TextMap<ActiveEntry>,
    key: &str,
    expected: u64,
) -> (r: Option<ActiveEntry>)
    requires
        old(map).wf(),
    ensures
        final(map).wf(),
        old(map)@.contains_key(key@) && old(map)@[key@].handle == expected ==> r == Some(
            old(map)@[key@],
        ) && final(map)@ == old(map)@.remove(key@),
        !(old(map)@.contains_key(key@) && old(map)@[key@].handle == expected) ==> r is None
            && final(map)@ == old(map)@,
{
    let same = match map.get(key) {
        Some(current) => current.handle == expected,
        None => false,
    };
    if same {
        map.remove(key)
    } else {
        None
    }
}

/// The lock of a key: the one that is there, or else the fresh one.
pub fn get_or_insert_gate(map: &mut TextMap<u64>, key: &str, fresh: u64) -> (r: u64)
    requires
        old(map).wf(),
    ensures
        final(map).wf(),
        old(map)@.contains_key(key@) ==> r == old(map)@[key@] && final(map)@ == old(map)@,
        !old(map)@.contains_key(key@) ==> r == fresh && final(map)@ == old(map)@.insert(
            key@,
            fresh,
        ),
{
    match map.get(key) {
        Some(gate) => {
            return *gate;
        },
        None => {},
    }
    map.insert(key.to_owned(), fresh);
    fresh
}

/// A session that may be evicted to make room: idle, unlocked, and not the one
/// that room is made for.
pub open spec fn evictable(
    p: PoolText,
    exclude: Seq<char>,
    probes: Seq<ProbeText>,
    key: Seq<char>,
) -> bool {
    &&& p.active.contains_key(key)
    &&& key != exclude
    &&& probe_of(probes, p.active[key].handle) is Some
    &&& p.active[key].phase == entry_phase::IDLE
}

/// No session may be evicted.
pub open spec fn none_evictable(p: PoolText, exclude: Seq<char>, probes: Seq<ProbeText>) -> bool {
    forall|k: Seq<char>| !#[trigger] evictable(p, exclude, probes, k)
}

/// When an evictable session was last active.
pub open spec fn idle_since(p: PoolText, probes: Seq<ProbeText>, key: Seq<char>) -> u64 {
    probe_of(probes, p.active[key].handle)->0.last_active
}

/// The evictable session that has been idle longest.
pub open spec fn oldest_evictable(
    p: PoolText,
    exclude: Seq<char>,
    probes: Seq<ProbeText>,
    key: Seq<char>,
) -> bool {
    &&& evictable(p, exclude, probes, key)
    &&& forall|k: Seq<char>| #[trigger]
        evictable(p, exclude, probes, k) ==> idle_since(p, probes, key) <= idle_since(
            p,
            probes,
            k,
        )
}

/// A session that was chosen to be evicted.
#[derive(Clone, PartialEq, Eq)]
pub struct EvictionCandidate {
    pub key: String,
    pub handle: u64,
    pub last_active: u64,
    pub session_id: Option<String>,
}

/// A session that was evicted to make room, and the facade token to revoke for it.
#[derive(Clone, PartialEq, Eq)]
pub struct Eviction {
    pub key: String,
    pub handle: u64,
    pub revoked_token: Option<String>,
}

/// What the pool keeps beside the connection of a key, gone with it.
pub open spec fn disconnected(p: PoolText, key: Seq<char>) -> PoolText {
    PoolText {
        active: p.active.remove(key),
        cancel_handles: p.cancel_handles.remove(key),
        activity: p.activity.remove(key),
        pgids: p.pgids.remove(key),
        ..p
    }
}

/// The pool after it evicted a session to make room. A session with an id is
/// suspended; nothing is kept of a native dispatch.
pub open spec fn evicted(p: PoolText, key: Seq<char>, session_id: Option<Seq<char>>) -> PoolText {
    let gone = PoolText { facade_tokens: p.facade_tokens.remove(key), ..disconnected(p, key) };
    if native(key) {
        PoolText {
            session_workdirs: p.session_workdirs.remove(key),
            session_projects: p.session_projects.remove(key),
            ..gone
        }
    } else if session_id is Some {
        PoolText {
            persisted: p.persisted.insert(key, session_id->0),
            suspended: p.suspended.insert(key, session_id->0),
            ..gone
        }
    } else {
        PoolText { persisted: p.persisted.remove(key), ..gone }
    }
}

/// The pool with one more session under creation.
pub open spec fn reserved(p: PoolText) -> PoolText {
    PoolText { outstanding: (p.outstanding + 1) as usize, ..p }
}

/// The pool with one session less under creation.
pub open spec fn unreserved(p: PoolText) -> PoolText {
    PoolText { outstanding: (p.outstanding - 1) as usize, ..p }
}

/// The token that a key's eviction revokes.
pub open spec fn token_of(p: PoolText, key: Seq<char>) -> Option<Seq<char>> {
    if p.facade_tokens.contains_key(key) {
        Some(p.facade_tokens[key])
    } else {
        None
    }
}

pub proof fn lemma_disconnected(p: PoolText, key: Seq<char>)
    requires
        p.within_capacity(),
        p.side_maps_follow(),
        p.active.contains_key(key),
    ensures
        disconnected(p, key).within_capacity(),
        disconnected(p, key).side_maps_follow(),
        disconnected(p, key).active.dom().len() + 1 == p.active.dom().len(),
{
    let q = disconnected(p, key);
    assert(q.active.dom() =~= p.active.dom().remove(key));
    assert(q.activity.dom() =~= p.activity.dom().remove(key));
    assert(q.cancel_handles.dom() =~= p.cancel_handles.dom().remove(key));
    assert(q.pgids.dom() =~= p.pgids.dom().remove(key));
}

impl SessionPool {
    /// Drops what the pool keeps beside a key's connection.
    pub(crate) fn drop_side_entries(&mut self, key: &str)
        requires
            old(self).maps_wf(),
        ensures
            final(self).maps_wf(),
            final(self)@ == (PoolText {
                cancel_handles: old(self)@.cancel_handles.remove(key@),
                activity: old(self)@.activity.remove(key@),
                pgids: old(self)@.pgids.remove(key@),
                ..old(self)@
            }),
    {
        self.cancel_handles.remove(key);
        self.activity.remove(key);
        self.pgids.remove(key);
    }

    /// Forgets a key's facade token and hands it out to be revoked.
    pub(crate) fn revoke_facade_token_for_key(&mut self, key: &str) -> (r: Option<String>)
        requires
            old(self).maps_wf(),
        ensures
            final(self).maps_wf(),
            final(self)@ == (PoolText {
                facade_tokens: old(self)@.facade_tokens.remove(key@),
                ..old(self)@
            }),
            opt_view(r) == token_of(old(self)@, key@),
    {
        self.facade_tokens.remove(key)
    }

    /// The session that has been idle longest, if one may be evicted.
    pub fn find_oldest_idle_eviction_candidate(
        &self,
        exclude_key: &str,
        probes: &Vec<ConnectionProbe>,
    ) -> (r: Option<EvictionCandidate>)
        requires
            self.wf(),
        ensures
            match r {
                Some(c) => {
                    &&& oldest_evictable(self@, exclude_key@, probe_views(probes@), c.key@)
                    &&& c.handle == self@.active[c.key@].handle
                    &&& c.last_active == idle_since(self@, probe_views(probes@), c.key@)
                    &&& opt_view(c.session_id) == probe_of(
                        probe_views(probes@),
                        c.handle,
                    )->0.session_id
                },
                None => none_evictable(self@, exclude_key@, probe_views(probes@)),
            },
    {
        let mut best: Option<EvictionCandidate> = None;
        let n: usize = self.active.len();
        let mut i: usize = 0;
        let ghost keys = self.active.keys();
        let ghost seen = probe_views(probes@);
        while i < n
            invariant
                self.wf(),
                n == keys.len(),
                keys == self.active.keys(),
                seen == probe_views(probes@),
                i <= n,
                forall|j: int| 0 <= j < n ==> self@.active.contains_key(#[trigger] keys[j]),
                match best {
                    Some(c) => {
                        &&& evictable(self@, exclude_key@, seen, c.key@)
                        &&& c.handle == self@.active[c.key@].handle
                        &&& c.last_active == idle_since(self@, seen, c.key@)
                        &&& opt_view(c.session_id) == probe_of(seen, c.handle)->0.session_id
                        &&& forall|j: int|
                            0 <= j < i && evictable(self@, exclude_key@, seen, #[trigger] keys[j])
                                ==> c.last_active <= idle_since(self@, seen, keys[j])
                    },
                    None => forall|j: int|
                        0 <= j < i ==> !evictable(self@, exclude_key@, seen, #[trigger] keys[j]),
                },
            decreases n - i,
        {
            let key = self.active.key_at(i);
            let entry = self.active.value_at(i);
            if !same_text(key.as_str(), exclude_key) {
                match find_probe(probes, entry.handle) {
                    Some(probe) => {
                        if phase_load(entry, false) == entry_phase::IDLE {
                            assert(evictable(self@, exclude_key@, seen, keys[i as int]));
                            let current: Option<u64> = match &best {
                                Some(c) => Some(c.last_active),
                                None => None,
                            };
                            if better_candidate(current, probe.last_active) {
                                let session_id = match &probe.session_id {
                                    Some(s) => Some(s.clone()),
                                    None => None,
                                };
                                best = Some(
                                    EvictionCandidate {
                                        key: key.clone(),
                                        handle: entry.handle,
                                        last_active: probe.last_active,
                                        session_id,
                                    },
                                );
                            }
                        }
                    },
                    None => {},
                }
            }
            i += 1;
        }
        proof {
            assert forall|k: Seq<char>| #[trigger]
                evictable(self@, exclude_key@, seen, k) implies best is Some && best->0.last_active
                <= idle_since(self@, seen, k) by {
                let j = choose|j: int| 0 <= j < keys.len() && keys[j] == k;
                assert(keys.contains(k));
                assert(evictable(self@, exclude_key@, seen, keys[j]));
            }
        }
        best
    }

    /// Reserves room for one session, if there is room or the session that has
    /// been idle longest can be evicted for it.
    pub fn ensure_capacity_or_evict(
        &mut self,
        exclude_key: &str,
        probes: &Vec<ConnectionProbe>,
    ) -> (r: Result<Option<Eviction>, PoolError>)
        requires
            old(self).wf(),
        ensures
            final(self).wf(),
            old(self)@.active.dom().len() + old(self)@.outstanding < old(self)@.max_sessions ==> {
                &&& r == Ok::<Option<Eviction>, PoolError>(None)
                &&& final(self)@ == reserved(old(self)@)
            },
            old(self)@.active.dom().len() + old(self)@.outstanding >= old(self)@.max_sessions ==> {
                match r {
                    Ok(Some(e)) => {
                        &&& oldest_evictable(old(self)@, exclude_key@, probe_views(probes@), e.key@)
                        &&& e.handle == old(self)@.active[e.key@].handle
                        &&& opt_view(e.revoked_token) == token_of(old(self)@, e.key@)
                        &&& final(self)@ == reserved(
                            evicted(
                                old(self)@,
                                e.key@,
                                probe_of(probe_views(probes@), e.handle)->0.session_id,
                            ),
                        )
                    },
                    Ok(None) => false,
                    Err(e) => {
                        &&& e@ == PoolFault::Exhausted(old(self)@.max_sessions)
                        &&& final(self)@ == old(self)@
                        &&& none_evictable(old(self)@, exclude_key@, probe_views(probes@))
                    },
                }
            },
    {
        let used: usize = self.active.len() + self.outstanding;
        if used < self.max_sessions {
            self.outstanding = self.outstanding + 1;
            return Ok(None);
        }
        match self.find_oldest_idle_eviction_candidate(exclude_key, probes) {
            Some(candidate) => {
                let key = candidate.key;
                proof {
                    lemma_disconnected(self@, key@);
                }
                remove_if_same_handle(&mut self.active, key.as_str(), candidate.handle);
                self.drop_side_entries(key.as_str());
                let revoked_token = self.revoke_facade_token_for_key(key.as_str());
                if is_native_dispatch_key(key.as_str()) {
                    self.session_workdirs.remove(key.as_str());
                    self.session_projects.remove(key.as_str());
                } else {
                    match candidate.session_id {
                        Some(sid) => {
                            self.persisted.insert(key.clone(), sid.clone());
                            self.suspended.insert(key.clone(), sid);
                        },
                        None => {
                            self.persisted.remove(key.as_str());
                        },
                    }
                }
                self.outstanding = self.outstanding + 1;
                Ok(Some(Eviction { key, handle: candidate.handle, revoked_token }))
            },
            None => Err(PoolError::Exhausted { max_sessions: self.max_sessions }),
        }
    }

    /// Gives up a reservation: the creation failed or was dropped.
    pub fn release_reservation(&mut self)
        requires
            old(self).wf(),
            old(self)@.outstanding > 0,
        ensures
            final(self).wf(),
            final(self)@ == unreserved(old(self)@),
    {
        self.outstanding = self.outstanding - 1;
    }

    /// The lock that one creation for a thread holds at a time.
    pub fn creation_gate(&mut self, thread_id: &str, fresh: u64) -> (r: u64)
        requires
            old(self).wf(),
        ensures
            final(self).wf(),
            old(self)@.creating.contains_key(thread_id@) ==> r == old(self)@.creating[thread_id@]
                && final(self)@ == old(self)@,
            !old(self)@.creating.contains_key(thread_id@) ==> r == fresh && final(self)@ == (
            PoolText { creating: old(self)@.creating.insert(thread_id@, fresh), ..old(self)@ }),
    {
        get_or_insert_gate(&mut self.creating, thread_id, fresh)
    }
}

} // verus!
