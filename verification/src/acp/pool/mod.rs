//! The pool of agent sessions.
//!
//! A session belongs to a thread key. The pool keeps at most `max_sessions` of
//! them, counting those that are being created; it makes room by suspending the
//! session that has been idle longest, never one that is at work. Keys of native
//! dispatches are isolated: nothing of them outlives their connection.
//!
//! A connection is known here by a number; what stands behind its lock is handed
//! in as a probe.

pub mod answers;
pub mod capacity;
pub mod create;
pub mod entry_phase;
pub mod keys;
pub mod laws;
pub mod lifecycle;
pub mod persistence;
pub mod state;
pub mod sweep;
pub mod sweeping;

pub use self::capacity::{
    get_or_insert_gate, phase_load, phase_try_cas, remove_if_same_handle, Eviction, EvictionCandidate,
};
pub use self::create::{
    add_session_token, after_load, facade_channel, mint_channel, native_facade_channel, plan_load,
    session_was_reset, CreateDecision, CreateOutcome, CreatePlan, NewConnection,
};
pub use self::keys::{
    better_candidate, canonicalize_pinned, classify_hung, classify_idle, classify_load_error,
    format_native_dispatch_key, is_native_dispatch_key, kill_target, resolve_effective_workdir, LoadFailure,
    NATIVE_DISPATCH_KEY_PREFIX,
};
pub use self::lifecycle::{cancel_request, check_approval_session};
pub use self::persistence::{
    agent_persistence_root, durable_text, filter_native_keys_projects_map, filter_native_keys_string_map,
    load_mapping, load_projects, persistence_paths, temporary_path, PersistencePaths, ProjectsFile,
    SessionPoolTestState,
};
pub use self::state::{
    ActiveEntry, CancelHandle, ConnectionProbe, PoolError, SessionActivity, SessionPool,
};
pub use self::sweep::{warn_force_evicting_hung, HungSession, StaleSession, SweepPlan};
