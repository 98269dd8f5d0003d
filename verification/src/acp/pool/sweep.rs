//! How the pool gets rid of sessions that are idle, dead or hung.
//!
//! `cleanup_idle` looks at every session and makes a plan; `apply_sweep` carries
//! it out later, on those sessions that have the same connection still.

use vstd::prelude::*;
use vstd::string::*;

use crate::decimal::{decimal, decimal_text};
use crate::log::{field_views, LogEntry, LogLevel};
use crate::redact::{redact_session_ids, redacted};
use crate::text::{opt_str, opt_view, views};

use super::capacity::{disconnected, lemma_disconnected, remove_if_same_handle};
use super::create::opt_value;
use super::keys::{classify_hung, classify_idle, is_native_dispatch_key, native};
use super::lifecycle::after_reset;
use super::state::{
    find_probe, probe_of, probe_views, CancelHandle, CancelText, ConnectionProbe, PoolText, ProbeText,
    SessionActivity, SessionPool,
};

verus! {

/// A session that has been idle too long, or whose agent is gone.
#[derive(Clone, PartialEq, Eq)]
pub struct StaleSession {
    pub key: String,
    pub handle: u64,
    pub session_id: Option<String>,
}

/// A session whose prompt hangs, and what it takes to end it.
#[derive(Clone, PartialEq, Eq)]
pub struct HungSession {
    pub key: String,
    pub handle: u64,
    /// How its prompt is cancelled.
    pub cancel: Option<CancelHandle>,
    /// The process group of its agent.
    pub pgid: Option<i32>,
    /// How long nothing has happened, in nanoseconds.
    pub age: u64,
}

/// The sessions to get rid of.
#[derive(Clone, PartialEq, Eq)]
pub struct SweepPlan {
    pub stale: Vec<StaleSession>,
    pub hung: Vec<HungSession>,
}

/// A stale session, over texts.
pub struct StaleText {
    pub key: Seq<char>,
    pub handle: u64,
    pub session_id: Option<Seq<char>>,
}

/// A hung session, over texts.
pub struct HungText {
    pub key: Seq<char>,
    pub handle: u64,
    pub cancel: Option<CancelText>,
    pub pgid: Option<i32>,
    pub age: u64,
}

impl View for StaleSession {
    type V = StaleText;

    open spec fn view(&self) -> StaleText {
        StaleText { key: self.key@, handle: self.handle, session_id: opt_view(self.session_id) }
    }
}

pub open spec fn opt_cancel(c: Option<CancelHandle>) -> Option<CancelText> {
    match c {
        Some(c) => Some(c@),
        None => None,
    }
}

impl View for HungSession {
    type V = HungText;

    open spec fn view(&self) -> HungText {
        HungText {
            key: self.key@,
            handle: self.handle,
            cancel: opt_cancel(self.cancel),
            pgid: self.pgid,
            age: self.age,
        }
    }
}

pub open spec fn stale_views(s: Seq<StaleSession>) -> Seq<StaleText> {
    s.map_values(|e: StaleSession| e@)
}

pub open spec fn hung_views(s: Seq<HungSession>) -> Seq<HungText> {
    s.map_values(|e: HungSession| e@)
}

/// The session of a key is unlocked, and idle since before the cutoff or dead.
pub open spec fn is_stale(p: PoolText, probes: Seq<ProbeText>, cutoff: u64, key: Seq<char>) -> bool {
    p.active.contains_key(key) && {
        let probe = probe_of(probes, p.active[key].handle);
        probe is Some && (probe->0.last_active < cutoff || !probe->0.alive)
    }
}

/// The session of a key is locked by a prompt that hangs.
pub open spec fn is_hung(p: PoolText, probes: Seq<ProbeText>, now: u64, key: Seq<char>) -> bool {
    &&& p.active.contains_key(key)
    &&& probe_of(probes, p.active[key].handle) is None
    &&& p.activity.contains_key(key)
    &&& p.activity[key].in_flight
    &&& p.activity[key].age_at(now) > p.hung_threshold_secs * 1000000000
}

/// The stale session of a key.
pub open spec fn stale_session(p: PoolText, probes: Seq<ProbeText>, key: Seq<char>) -> StaleText {
    StaleText {
        key,
        handle: p.active[key].handle,
        session_id: probe_of(probes, p.active[key].handle)->0.session_id,
    }
}

/// The hung session of a key.
pub open spec fn hung_session(p: PoolText, now: u64, key: Seq<char>) -> HungText {
    HungText {
        key,
        handle: p.active[key].handle,
        cancel: opt_value(p.cancel_handles, key),
        pgid: opt_value(p.pgids, key),
        age: p.activity[key].age_at(now) as u64,
    }
}

/// The list holds every stale session once and no other.
pub open spec fn lists_stale(
    p: PoolText,
    probes: Seq<ProbeText>,
    cutoff: u64,
    stale: Seq<StaleText>,
) -> bool {
    &&& forall|i: int|
        0 <= i < stale.len() ==> is_stale(p, probes, cutoff, (#[trigger] stale[i]).key) && stale[i]
            == stale_session(p, probes, stale[i].key)
    &&& forall|i: int, j: int|
        0 <= i < j < stale.len() ==> (#[trigger] stale[i]).key != (#[trigger] stale[j]).key
    &&& forall|k: Seq<char>| #[trigger]
        is_stale(p, probes, cutoff, k) ==> stale.contains(stale_session(p, probes, k))
}

/// The list holds every hung session once and no other.
pub open spec fn lists_hung(
    p: PoolText,
    probes: Seq<ProbeText>,
    now: u64,
    hung: Seq<HungText>,
) -> bool {
    &&& forall|i: int|
        0 <= i < hung.len() ==> is_hung(p, probes, now, (#[trigger] hung[i]).key) && hung[i]
            == hung_session(p, now, hung[i].key)
    &&& forall|i: int, j: int|
        0 <= i < j < hung.len() ==> (#[trigger] hung[i]).key != (#[trigger] hung[j]).key
    &&& forall|k: Seq<char>| #[trigger]
        is_hung(p, probes, now, k) ==> hung.contains(hung_session(p, now, k))
}

/// An activity after the sweep saw its connection. A prompt cannot be in flight on
/// a connection that is unlocked.
pub open spec fn healed_activity(
    p: PoolText,
    probes: Seq<ProbeText>,
    now: u64,
    key: Seq<char>,
) -> SessionActivity {
    if p.active.contains_key(key) && probe_of(probes, p.active[key].handle) is Some
        && p.activity[key].in_flight {
        SessionActivity { in_flight: false, touched_at: now }
    } else {
        p.activity[key]
    }
}

/// The pool with every activity healed.
pub open spec fn healed(p: PoolText, probes: Seq<ProbeText>, now: u64) -> PoolText {
    PoolText {
        activity: Map::new(
            |k: Seq<char>| p.activity.contains_key(k),
            |k: Seq<char>| healed_activity(p, probes, now, k),
        ),
        ..p
    }
}

/// The pool after a stale session was removed. One with an id is suspended; nothing
/// is kept of one without, nor of a native dispatch.
pub open spec fn idle_evicted(p: PoolText, key: Seq<char>, session_id: Option<Seq<char>>) -> PoolText {
    let gone = PoolText { facade_tokens: p.facade_tokens.remove(key), ..disconnected(p, key) };
    if native(key) {
        PoolText {
            session_workdirs: p.session_workdirs.remove(key),
            session_projects: p.session_projects.remove(key),
            untrusted: p.untrusted.remove(key),
            ..gone
        }
    } else if session_id is Some {
        PoolText {
            persisted: p.persisted.insert(key, session_id->0),
            suspended: p.suspended.insert(key, session_id->0),
            ..gone
        }
    } else {
        PoolText {
            persisted: p.persisted.remove(key),
            session_workdirs: p.session_workdirs.remove(key),
            session_projects: p.session_projects.remove(key),
            untrusted: p.untrusted.remove(key),
            ..gone
        }
    }
}

/// The key has this connection still.
pub open spec fn still_has(p: PoolText, key: Seq<char>, handle: u64) -> bool {
    p.active.contains_key(key) && p.active[key].handle == handle
}

pub open spec fn stale_swept(p: PoolText, s: StaleText) -> PoolText {
    if still_has(p, s.key, s.handle) {
        idle_evicted(p, s.key, s.session_id)
    } else {
        p
    }
}

/// A hung session is removed with everything that could be resumed of it; only the
/// thread's creation lock stays.
pub open spec fn hung_swept(p: PoolText, h: HungText) -> PoolText {
    if still_has(p, h.key, h.handle) {
        after_reset(p, h.key)
    } else {
        p
    }
}

pub open spec fn all_stale_swept(p: PoolText, stale: Seq<StaleText>) -> PoolText
    decreases stale.len(),
{
    if stale.len() == 0 {
        p
    } else {
        stale_swept(all_stale_swept(p, stale.drop_last()), stale.last())
    }
}

pub open spec fn all_hung_swept(p: PoolText, hung: Seq<HungText>) -> PoolText
    decreases hung.len(),
{
    if hung.len() == 0 {
        p
    } else {
        hung_swept(all_hung_swept(p, hung.drop_last()), hung.last())
    }
}

/// The pool after a plan was carried out.
pub open spec fn swept(p: PoolText, stale: Seq<StaleText>, hung: Seq<HungText>) -> PoolText {
    all_hung_swept(all_stale_swept(p, stale), hung)
}

/// The token that removing a connection revokes.
pub open spec fn revoked_with(p: PoolText, key: Seq<char>, handle: u64) -> Seq<Seq<char>> {
    if still_has(p, key, handle) && p.facade_tokens.contains_key(key) {
        seq![p.facade_tokens[key]]
    } else {
        Seq::empty()
    }
}

pub open spec fn stale_tokens(p: PoolText, stale: Seq<StaleText>) -> Seq<Seq<char>>
    decreases stale.len(),
{
    if stale.len() == 0 {
        Seq::empty()
    } else {
        stale_tokens(p, stale.drop_last()) + revoked_with(
            all_stale_swept(p, stale.drop_last()),
            stale.last().key,
            stale.last().handle,
        )
    }
}

pub open spec fn hung_tokens(p: PoolText, hung: Seq<HungText>) -> Seq<Seq<char>>
    decreases hung.len(),
{
    if hung.len() == 0 {
        Seq::empty()
    } else {
        hung_tokens(p, hung.drop_last()) + revoked_with(
            all_hung_swept(p, hung.drop_last()),
            hung.last().key,
            hung.last().handle,
        )
    }
}

/// What is reported of a hung session that is removed. Both of its ids are
/// redacted.
pub open spec fn hung_warning(
    key: Seq<char>,
    session_id: Option<Seq<char>>,
    age_secs: u64,
    threshold_secs: u64,
) -> Seq<(Seq<char>, Seq<char>)> {
    seq![
        ("message"@, "force-evicting hung session"@),
        ("thread_id"@, redacted(key)),
        (
            "session_id"@,
            match session_id {
                Some(s) => redacted(s),
                None => Seq::empty(),
            },
        ),
        ("age_secs"@, decimal(age_secs as nat)),
        ("threshold_secs"@, decimal(threshold_secs as nat)),
    ]
}

/// The entry for a hung session that is removed.
pub fn warn_force_evicting_hung(
    key: &str,
    session_id: Option<&str>,
    age_secs: u64,
    threshold_secs: u64,
) -> (r: LogEntry)
    ensures
        r.level is Warn,
        field_views(r.fields@) == hung_warning(
            key@,
            opt_str(session_id),
            age_secs,
            threshold_secs,
        ),
{
    let shown = match session_id {
        Some(s) => redact_session_ids(s),
        None => String::new(),
    };
    let mut fields: Vec<(&'static str, String)> = Vec::new();
    fields.push(("message", "force-evicting hung session".to_owned()));
    fields.push(("thread_id", redact_session_ids(key)));
    fields.push(("session_id", shown));
    fields.push(("age_secs", decimal_text(age_secs)));
    fields.push(("threshold_secs", decimal_text(threshold_secs)));
    assert(field_views(fields@) =~= hung_warning(
        key@,
        opt_str(session_id),
        age_secs,
        threshold_secs,
    ));
    LogEntry { level: LogLevel::Warn, fields }
}

fn copied_cancel(c: Option<&CancelHandle>) -> (r: Option<CancelHandle>)
    ensures
        opt_cancel(r) == match c {
            Some(c) => Some(c@),
            None => None,
        },
{
    match c {
        Some(c) => Some(
            CancelHandle { connection: c.connection, session_id: c.session_id.clone() },
        ),
        None => None,
    }
}

proof fn lemma_reset_keeps_wf(p: PoolText, key: Seq<char>)
    requires
        p.within_capacity(),
        p.side_maps_follow(),
    ensures
        after_reset(p, key).within_capacity(),
        after_reset(p, key).side_maps_follow(),
{
    let q = after_reset(p, key);
    assert(q.active.dom() =~= p.active.dom().remove(key));
    assert(q.activity.dom() =~= p.activity.dom().remove(key));
    assert(q.cancel_handles.dom() =~= p.cancel_handles.dom().remove(key));
    assert(q.pgids.dom() =~= p.pgids.dom().remove(key));
}

/// Every thread with a connection is in the list.
pub open spec fn lists_every_connection(p: PoolText, list: Seq<(String, u64)>) -> bool {
    forall|k: Seq<char>| #[trigger]
        p.active.contains_key(k) ==> exists|i: int| 0 <= i < list.len() && (#[trigger] list[i]).0@ == k
}

impl SessionPool {
    /// Every thread with a connection, and the connection.
    pub fn active_sessions(&self) -> (r: Vec<(String, u64)>)
        requires
            self.wf(),
        ensures
            forall|i: int|
                0 <= i < r@.len() ==> still_has(self@, (#[trigger] r@[i]).0@, r@[i].1),
            forall|i: int, j: int|
                0 <= i < j < r@.len() ==> (#[trigger] r@[i]).0@ != (#[trigger] r@[j]).0@,
            lists_every_connection(self@, r@),
    {
        let mut out: Vec<(String, u64)> = Vec::new();
        let n: usize = self.active.len();
        let mut i: usize = 0;
        let ghost keys = self.active.keys();
        while i < n
            invariant
                self.wf(),
                n == keys.len(),
                keys == self.active.keys(),
                i <= n,
                out@.len() == i,
                forall|j: int| 0 <= j < n ==> self@.active.contains_key(#[trigger] keys[j]),
                forall|j: int|
                    0 <= j < i ==> (#[trigger] out@[j]).0@ == keys[j] && still_has(
                        self@,
                        out@[j].0@,
                        out@[j].1,
                    ),
            decreases n - i,
        {
            let key = self.active.key_at(i).clone();
            let handle: u64 = self.active.value_at(i).handle;
            out.push((key, handle));
            i += 1;
        }
        proof {
            assert forall|k: Seq<char>| #[trigger] self@.active.contains_key(k) implies exists|i: int|
                0 <= i < out@.len() && (#[trigger] out@[i]).0@ == k by {
                assert(keys.contains(k));
                let j = choose|j: int| 0 <= j < keys.len() && keys[j] == k;
                assert(out@[j].0@ == k);
            }
        }
        out
    }

    /// Marks the prompts of unlocked connections as ended.
    fn heal_activity(&mut self, probes: &Vec<ConnectionProbe>, now: u64)
        requires
            old(self).wf(),
        ensures
            final(self).wf(),
            final(self)@ == healed(old(self)@, probe_views(probes@), now),
            final(self).active == old(self).active,
    {
        let n: usize = self.active.len();
        let mut i: usize = 0;
        let ghost p = self@;
        let ghost keys = self.active.keys();
        let ghost seen = probe_views(probes@);
        while i < n
            invariant
                self.maps_wf(),
                self.active == old(self).active,
                n == keys.len(),
                keys == self.active.keys(),
                seen == probe_views(probes@),
                p == old(self)@,
                p.side_maps_follow(),
                self@ == (PoolText { activity: self@.activity, ..p }),
                self@.activity.dom() =~= p.activity.dom(),
                i <= n,
                forall|j: int| 0 <= j < n ==> p.active.contains_key(#[trigger] keys[j]),
                forall|j: int, k: int|
                    0 <= j < k < n ==> #[trigger] keys[j] != #[trigger] keys[k],
                forall|j: int|
                    0 <= j < i ==> self@.activity[#[trigger] keys[j]] == healed_activity(
                        p,
                        seen,
                        now,
                        keys[j],
                    ),
                forall|j: int|
                    i <= j < n ==> self@.activity[#[trigger] keys[j]] == p.activity[keys[j]],
            decreases n - i,
        {
            let handle: u64 = self.active.value_at(i).handle;
            if find_probe(probes, handle).is_some() {
                let key = self.active.key_at(i).clone();
                assert(p.activity.dom().contains(keys[i as int]));
                let in_flight = match self.activity.get(key.as_str()) {
                    Some(a) => a.in_flight,
                    None => false,
                };
                if in_flight {
                    self.activity.insert(key, SessionActivity::disarm(now));
                    assert(self@.activity.dom() =~= p.activity.dom());
                }
            }
            i += 1;
        }
        proof {
            let q = healed(p, seen, now);
            assert forall|k: Seq<char>| #[trigger] self@.activity.contains_key(k) implies self@.activity[k]
                == q.activity[k] by {
                assert(p.active.contains_key(k));
                assert(keys.contains(k));
                let j = choose|j: int| 0 <= j < keys.len() && keys[j] == k;
                assert(self@.activity[keys[j]] == healed_activity(p, seen, now, keys[j]));
            }
            assert(self@.activity =~= q.activity);
            assert(self@ =~= q);
        }
    }

    fn list_stale(&self, probes: &Vec<ConnectionProbe>, cutoff: u64) -> (r: Vec<StaleSession>)
        requires
            self.wf(),
        ensures
            lists_stale(self@, probe_views(probes@), cutoff, stale_views(r@)),
    {
        let mut out: Vec<StaleSession> = Vec::new();
        let n: usize = self.active.len();
        let mut i: usize = 0;
        let ghost keys = self.active.keys();
        let ghost seen = probe_views(probes@);
        while i < n
            invariant
                self.wf(),
                n == keys.len(),
                keys == self.active.keys(),
                seen == probe_views(probes@),
                i <= n,
                forall|j: int| 0 <= j < n ==> self@.active.contains_key(#[trigger] keys[j]),
                forall|j: int, k: int|
                    0 <= j < k < n ==> #[trigger] keys[j] != #[trigger] keys[k],
                forall|m: int|
                    0 <= m < out@.len() ==> {
                        let s = (#[trigger] out@[m])@;
                        &&& is_stale(self@, seen, cutoff, s.key)
                        &&& s == stale_session(self@, seen, s.key)
                        &&& exists|j: int| 0 <= j < i && #[trigger] keys[j] == s.key
                    },
                forall|a: int, b: int|
                    0 <= a < b < out@.len() ==> (#[trigger] out@[a]).key@ != (#[trigger] out@[b]).key@,
                forall|j: int|
                    0 <= j < i && is_stale(self@, seen, cutoff, #[trigger] keys[j])
                        ==> stale_views(out@).contains(stale_session(self@, seen, keys[j])),
            decreases n - i,
        {
            let key = self.active.key_at(i);
            let handle: u64 = self.active.value_at(i).handle;
            match find_probe(probes, handle) {
                Some(probe) => {
                    if classify_idle(probe.last_active, probe.alive, cutoff) {
                        let session_id = match &probe.session_id {
                            Some(s) => Some(s.clone()),
                            None => None,
                        };
                        let ghost before = out@;
                        let entry = StaleSession { key: key.clone(), handle, session_id };
                        assert(entry@ == stale_session(self@, seen, keys[i as int]));
                        out.push(entry);
                        proof {
                            assert(stale_views(out@) =~= stale_views(before).push(entry@));
                            assert(stale_views(out@)[before.len() as int] == entry@);
                            assert forall|x: StaleText|
                                stale_views(before).contains(x) implies stale_views(out@).contains(
                                x,
                            ) by {
                                let m = choose|m: int|
                                    0 <= m < before.len() && stale_views(before)[m] == x;
                                assert(stale_views(out@)[m] == x);
                            }
                        }
                    }
                },
                None => {},
            }
            i += 1;
        }
        proof {
            let s = stale_views(out@);
            assert forall|k: Seq<char>| #[trigger] is_stale(self@, seen, cutoff, k) implies s.contains(
                stale_session(self@, seen, k),
            ) by {
                assert(keys.contains(k));
                let j = choose|j: int| 0 <= j < keys.len() && keys[j] == k;
                assert(is_stale(self@, seen, cutoff, keys[j]));
            }
            assert forall|i: int| 0 <= i < s.len() implies is_stale(
                self@,
                seen,
                cutoff,
                (#[trigger] s[i]).key,
            ) && s[i] == stale_session(self@, seen, s[i].key) by {
                assert(s[i] == out@[i]@);
            }
            assert forall|i: int, j: int| 0 <= i < j < s.len() implies (#[trigger] s[i]).key != (
            #[trigger] s[j]).key by {
                assert(out@[i].key@ != out@[j].key@);
            }
        }
        out
    }

    fn list_hung(&self, probes: &Vec<ConnectionProbe>, now: u64) -> (r: Vec<HungSession>)
        requires
            self.wf(),
        ensures
            lists_hung(self@, probe_views(probes@), now, hung_views(r@)),
    {
        let mut out: Vec<HungSession> = Vec::new();
        let n: usize = self.active.len();
        let threshold: u128 = self.hung_threshold_secs as u128 * 1000000000;
        let mut i: usize = 0;
        let ghost keys = self.active.keys();
        let ghost seen = probe_views(probes@);
        while i < n
            invariant
                self.wf(),
                n == keys.len(),
                keys == self.active.keys(),
                seen == probe_views(probes@),
                threshold == self@.hung_threshold_secs * 1000000000,
                i <= n,
                forall|j: int| 0 <= j < n ==> self@.active.contains_key(#[trigger] keys[j]),
                forall|j: int, k: int|
                    0 <= j < k < n ==> #[trigger] keys[j] != #[trigger] keys[k],
                forall|m: int|
                    0 <= m < out@.len() ==> {
                        let s = (#[trigger] out@[m])@;
                        &&& is_hung(self@, seen, now, s.key)
                        &&& s == hung_session(self@, now, s.key)
                        &&& exists|j: int| 0 <= j < i && #[trigger] keys[j] == s.key
                    },
                forall|a: int, b: int|
                    0 <= a < b < out@.len() ==> (#[trigger] out@[a]).key@ != (#[trigger] out@[b]).key@,
                forall|j: int|
                    0 <= j < i && is_hung(self@, seen, now, #[trigger] keys[j]) ==> hung_views(
                        out@,
                    ).contains(hung_session(self@, now, keys[j])),
            decreases n - i,
        {
            let key = self.active.key_at(i);
            let handle: u64 = self.active.value_at(i).handle;
            if find_probe(probes, handle).is_none() {
                match self.activity.get(key.as_str()) {
                    Some(activity) => {
                        let age: u64 = activity.age(now);
                        if classify_hung(activity.in_flight, age as u128, threshold) {
                            let cancel = copied_cancel(self.cancel_handles.get(key.as_str()));
                            let pgid: Option<i32> = match self.pgids.get(key.as_str()) {
                                Some(p) => Some(*p),
                                None => None,
                            };
                            let ghost before = out@;
                            let entry = HungSession { key: key.clone(), handle, cancel, pgid, age };
                            assert(entry@ == hung_session(self@, now, keys[i as int]));
                            out.push(entry);
                            proof {
                                assert(hung_views(out@) =~= hung_views(before).push(entry@));
                                assert(hung_views(out@)[before.len() as int] == entry@);
                                assert forall|x: HungText|
                                    hung_views(before).contains(x) implies hung_views(
                                    out@,
                                ).contains(x) by {
                                    let m = choose|m: int|
                                        0 <= m < before.len() && hung_views(before)[m] == x;
                                    assert(hung_views(out@)[m] == x);
                                }
                            }
                        }
                    },
                    None => {},
                }
            }
            i += 1;
        }
        proof {
            let s = hung_views(out@);
            assert forall|k: Seq<char>| #[trigger] is_hung(self@, seen, now, k) implies s.contains(
                hung_session(self@, now, k),
            ) by {
                assert(keys.contains(k));
                let j = choose|j: int| 0 <= j < keys.len() && keys[j] == k;
                assert(is_hung(self@, seen, now, keys[j]));
            }
            assert forall|i: int| 0 <= i < s.len() implies is_hung(
                self@,
                seen,
                now,
                (#[trigger] s[i]).key,
            ) && s[i] == hung_session(self@, now, s[i].key) by {
                assert(s[i] == out@[i]@);
            }
            assert forall|i: int, j: int| 0 <= i < j < s.len() implies (#[trigger] s[i]).key != (
            #[trigger] s[j]).key by {
                assert(out@[i].key@ != out@[j].key@);
            }
        }
        out
    }

    /// Finds the sessions to get rid of: the unlocked ones that were last active
    /// before the cutoff or are dead, and the locked ones that hang. Activities
    /// that show a prompt on an unlocked connection are set right.
    pub fn cleanup_idle(&mut self, probes: &Vec<ConnectionProbe>, cutoff: u64, now: u64) -> (r: SweepPlan)
        requires
            old(self).wf(),
        ensures
            final(self).wf(),
            final(self)@ == healed(old(self)@, probe_views(probes@), now),
            lists_stale(old(self)@, probe_views(probes@), cutoff, stale_views(r.stale@)),
            lists_hung(old(self)@, probe_views(probes@), now, hung_views(r.hung@)),
    {
        let stale = self.list_stale(probes, cutoff);
        let hung = self.list_hung(probes, now);
        self.heal_activity(probes, now);
        SweepPlan { stale, hung }
    }

    fn apply_stale_eviction(&mut self, s: &StaleSession, revoked: &mut Vec<String>)
        requires
            old(self).wf(),
        ensures
            final(self).wf(),
            final(self)@ == stale_swept(old(self)@, s@),
            views(final(revoked)@) == views(old(revoked)@) + revoked_with(
                old(self)@,
                s@.key,
                s@.handle,
            ),
    {
        proof {
            if still_has(self@, s@.key, s@.handle) {
                lemma_disconnected(self@, s@.key);
            }
            assert(views(revoked@) + Seq::<Seq<char>>::empty() =~= views(revoked@));
        }
        let key = s.key.as_str();
        if remove_if_same_handle(&mut self.active, key, s.handle).is_none() {
            return;
        }
        self.drop_side_entries(key);
        match self.revoke_facade_token_for_key(key) {
            Some(token) => {
                assert(views(revoked@.push(token)) =~= views(revoked@) + seq![token@]);
                revoked.push(token);
            },
            None => {},
        }
        if is_native_dispatch_key(key) {
            self.session_workdirs.remove(key);
            self.session_projects.remove(key);
            self.untrusted.remove(key);
            return;
        }
        match &s.session_id {
            Some(sid) => {
                self.persisted.insert(s.key.clone(), sid.clone());
                self.suspended.insert(s.key.clone(), sid.clone());
            },
            None => {
                self.persisted.remove(key);
                self.session_workdirs.remove(key);
                self.session_projects.remove(key);
                self.untrusted.remove(key);
            },
        }
    }

    /// Removes a hung session, if the key has the connection still.
    fn apply_hung_eviction(&mut self, h: &HungSession, revoked: &mut Vec<String>)
        requires
            old(self).wf(),
        ensures
            final(self).wf(),
            final(self)@ == hung_swept(old(self)@, h@),
            views(final(revoked)@) == views(old(revoked)@) + revoked_with(
                old(self)@,
                h@.key,
                h@.handle,
            ),
    {
        proof {
            lemma_reset_keeps_wf(self@, h@.key);
            assert(views(revoked@) + Seq::<Seq<char>>::empty() =~= views(revoked@));
        }
        let key = h.key.as_str();
        if remove_if_same_handle(&mut self.active, key, h.handle).is_none() {
            return;
        }
        self.purge_session_entries(key);
        match self.revoke_facade_token_for_key(key) {
            Some(token) => {
                assert(views(revoked@.push(token)) =~= views(revoked@) + seq![token@]);
                revoked.push(token);
            },
            None => {},
        }
        self.untrusted.remove(key);
    }

    /// Carries out a plan on the sessions that have the same connection still.
    /// Returns the facade tokens to revoke.
    pub fn apply_sweep(&mut self, plan: &SweepPlan) -> (r: Vec<String>)
        requires
            old(self).wf(),
        ensures
            final(self).wf(),
            final(self)@ == swept(old(self)@, stale_views(plan.stale@), hung_views(plan.hung@)),
            views(r@) == stale_tokens(old(self)@, stale_views(plan.stale@)) + hung_tokens(
                all_stale_swept(old(self)@, stale_views(plan.stale@)),
                hung_views(plan.hung@),
            ),
    {
        let ghost p = self@;
        let ghost stale = stale_views(plan.stale@);
        let ghost hung = hung_views(plan.hung@);
        let mut revoked: Vec<String> = Vec::new();
        let mut i: usize = 0;
        assert(stale.take(0) =~= Seq::<StaleText>::empty());
        assert(views(revoked@) =~= Seq::<Seq<char>>::empty());
        while i < plan.stale.len()
            invariant
                stale == stale_views(plan.stale@),
                i <= plan.stale.len(),
                self.wf(),
                self@ == all_stale_swept(p, stale.take(i as int)),
                views(revoked@) == stale_tokens(p, stale.take(i as int)),
            decreases plan.stale.len() - i,
        {
            assert(stale.take(i + 1).drop_last() =~= stale.take(i as int));
            assert(stale.take(i + 1).last() == plan.stale[i as int]@);
            self.apply_stale_eviction(&plan.stale[i], &mut revoked);
            i += 1;
        }
        assert(stale.take(stale.len() as int) =~= stale);
        let ghost q = self@;
        let ghost first = views(revoked@);
        let mut j: usize = 0;
        assert(hung.take(0) =~= Seq::<HungText>::empty());
        assert(first + Seq::<Seq<char>>::empty() =~= first);
        while j < plan.hung.len()
            invariant
                hung == hung_views(plan.hung@),
                j <= plan.hung.len(),
                self.wf(),
                self@ == all_hung_swept(q, hung.take(j as int)),
                views(revoked@) == first + hung_tokens(q, hung.take(j as int)),
            decreases plan.hung.len() - j,
        {
            assert(hung.take(j + 1).drop_last() =~= hung.take(j as int));
            assert(hung.take(j + 1).last() == plan.hung[j as int]@);
            let ghost done = hung_tokens(q, hung.take(j as int));
            let ghost next = revoked_with(self@, plan.hung[j as int]@.key, plan.hung[j as int]@.handle);
            self.apply_hung_eviction(&plan.hung[j], &mut revoked);
            assert((first + done) + next =~= first + (done + next));
            j += 1;
        }
        assert(hung.take(hung.len() as int) =~= hung);
        revoked
    }
}

} // verus!
