use openab_core::acp::pool::{
    add_session_token, after_load, agent_persistence_root, better_candidate, cancel_request,
    canonicalize_pinned, check_approval_session, classify_hung, classify_idle, classify_load_error,
    durable_text, entry_phase, facade_channel, format_native_dispatch_key, get_or_insert_gate,
    is_native_dispatch_key, kill_target, load_mapping, load_projects, mint_channel,
    native_facade_channel,
    persistence_paths, phase_load, phase_try_cas, plan_load, remove_if_same_handle,
    resolve_effective_workdir, session_was_reset, temporary_path, warn_force_evicting_hung,
    ActiveEntry, ConnectionProbe, CreateDecision, CreateOutcome, CreatePlan, LoadFailure,
    NewConnection, PoolError, ProjectsFile, SessionPool, SessionPoolTestState,
};
use openab_core::acp::project::ProjectContext;
use openab_core::paths::is_same_path;
use openab_core::redact::redact_session_ids;
use openab_core::text_map::TextMap;
use std::collections::HashMap;
use std::time::Duration;

const SECOND: u64 = 1_000_000_000;

fn pool(max_sessions: usize) -> SessionPool {
    SessionPool::from_persistence_root("/cfg/work".into(), max_sessions, 600, None, None, ProjectsFile::Missing)
}

fn project(id: &str, root: &str) -> ProjectContext {
    ProjectContext {
        project_id: id.into(),
        project_root: root.into(),
    }
}

fn probe(handle: u64, last_active: u64, session_id: &str) -> ConnectionProbe {
    ConnectionProbe {
        handle,
        last_active,
        alive: true,
        session_id: Some(session_id.into()),
    }
}

fn dead(handle: u64, session_id: Option<&str>) -> ConnectionProbe {
    ConnectionProbe {
        handle,
        last_active: 0,
        alive: false,
        session_id: session_id.map(String::from),
    }
}

fn connection(handle: u64, session_id: &str) -> NewConnection {
    NewConnection {
        handle,
        session_id: session_id.into(),
        pgid: Some(handle as i32),
        facade_token: None,
    }
}

fn plan_of(decision: CreateDecision) -> CreatePlan {
    match decision {
        CreateDecision::Create(plan) => plan,
        _ => panic!("expected a plan"),
    }
}

/// Creates a session for a thread without a project, in a pool that has room.
fn create(pool: &mut SessionPool, key: &str, handle: u64, session_id: &str) -> CreateOutcome {
    let plan = plan_of(pool.get_or_create(key, None, None, &Vec::new()).unwrap());
    pool.ensure_capacity_or_evict(key, &Vec::new()).unwrap();
    pool.finish_get_or_create(key, plan, connection(handle, session_id), &Vec::new(), 0)
}

fn create_pinned(
    pool: &mut SessionPool,
    key: &str,
    handle: u64,
    project: &ProjectContext,
) -> Result<CreateOutcome, PoolError> {
    let decision =
        pool.get_or_create(key, Some(project), Some(Ok(project.clone())), &Vec::new())?;
    let plan = plan_of(decision);
    pool.ensure_capacity_or_evict(key, &Vec::new())?;
    Ok(pool.finish_get_or_create(key, plan, connection(handle, "sess"), &Vec::new(), 0))
}

fn create_native(pool: &mut SessionPool, key: &str, handle: u64) {
    assert!(matches!(
        pool.get_or_create(key, None, None, &Vec::new()),
        Ok(CreateDecision::Fresh)
    ));
    pool.ensure_capacity_or_evict(key, &Vec::new()).unwrap();
    pool.create_fresh_session_only(key, connection(handle, "sess_native"), 0);
}

fn mapping(pool: &SessionPool) -> Vec<(String, String)> {
    let mut entries = load_mapping(Some(&pool.save_mapping())).entries().clone();
    entries.sort();
    entries
}

fn mapped(pairs: &[(&str, &str)]) -> Vec<(String, String)> {
    pairs.iter().map(|(k, v)| (k.to_string(), v.to_string())).collect()
}

#[test]
fn agent_persistence_roots_are_distinct_for_each_deployment_identity() {
    let home = "/tmp/openab-home";
    let roots: Vec<String> = ["ArthurClaude", "ArthurCodex", "ArthurGemini"]
        .into_iter()
        .map(|agent| agent_persistence_root(Some(home), Some(agent)).expect("valid agent identity"))
        .collect();
    assert_eq!(roots[0], format!("{home}/.openab/agents/ArthurClaude"));
    assert_eq!(roots[1], format!("{home}/.openab/agents/ArthurCodex"));
    assert_eq!(roots[2], format!("{home}/.openab/agents/ArthurGemini"));
    assert_ne!(roots[0], roots[1]);
    assert_ne!(roots[0], roots[2]);
    assert_ne!(roots[1], roots[2]);
}

#[test]
fn agent_persistence_root_rejects_missing_or_blank_agent_identity() {
    let home = Some("/tmp/openab-home");
    let missing = agent_persistence_root(home, None)
        .expect_err("missing ARTHUR_AGENT_NAME must fail closed");
    assert!(missing.message("").contains("ARTHUR_AGENT_NAME"));
    let blank = agent_persistence_root(home, Some(" \t "))
        .expect_err("blank ARTHUR_AGENT_NAME must fail closed");
    assert!(blank.message("").contains("ARTHUR_AGENT_NAME"));
}

#[test]
fn agent_names_are_single_components() {
    for name in ["..", ".", "/abs", "a/b", "a\\b", "./a", "a/../b", "a/..", "a/...", "a//b"] {
        assert_eq!(
            agent_persistence_root(Some("/h"), Some(name)),
            Err(PoolError::UnsafeAgentName),
            "{name}"
        );
    }
    for name in ["a", "a/", "a//", "a/.", "a/./", "...", ".a", "a.b"] {
        assert_eq!(
            agent_persistence_root(Some("/h"), Some(name)),
            Ok(format!("/h/.openab/agents/{name}")),
            "{name}"
        );
    }
    assert_eq!(agent_persistence_root(None, Some("a")), Err(PoolError::MissingHome));
    assert_eq!(agent_persistence_root(Some(" "), Some("a")), Err(PoolError::MissingHome));
    assert_eq!(
        agent_persistence_root(Some("/"), Some(" a ")),
        Ok("/.openab/agents/a".to_string())
    );
}

#[test]
fn same_thread_key_loads_only_the_owning_agents_persisted_session() {
    let key = "discord:1540258407175422004";
    for (agent, session_id) in [
        ("ArthurClaude", "first-session"),
        ("ArthurCodex", "second-session"),
        ("ArthurGemini", "third-session"),
    ] {
        let root = agent_persistence_root(Some("/home/arthur"), Some(agent)).unwrap();
        assert_eq!(
            persistence_paths(&root).mapping,
            format!("/home/arthur/.openab/agents/{agent}/thread_map.json")
        );
        let mut first = pool(1);
        create(&mut first, key, 1, session_id);
        let restored = SessionPool::from_persistence_root(
            "/cfg/work".into(),
            1,
            60,
            Some(&first.save_mapping()),
            None,
            ProjectsFile::Missing,
        );
        assert_eq!(mapping(&restored), mapped(&[(key, session_id)]));
    }
}

#[test]
fn mapping_metadata_and_project_persistence_round_trip_within_agent_namespace() {
    let key = "discord:1540258407175422004";
    let bound = project("ai-workstation", "/workspace/ai-workstation");
    let mut first = pool(1);
    create_pinned(&mut first, key, 1, &bound).unwrap();
    let restored = SessionPool::from_persistence_root(
        "/cfg/work".into(),
        1,
        60,
        Some(&first.save_mapping()),
        Some(&first.save_meta()),
        ProjectsFile::Bindings(first.save_projects()),
    );
    assert_eq!(mapping(&restored), mapped(&[(key, "sess")]));
    assert_eq!(
        load_mapping(Some(&restored.save_meta())).get(key).map(String::as_str),
        Some("/workspace/ai-workstation")
    );
    assert_eq!(restored.get_pinned_project(key), Some(bound));
}

#[test]
fn installing_a_successor_token_revokes_only_the_superseded_predecessor() {
    let mut pool = pool(2);
    let key = "discord:acp_x";
    let plan = plan_of(pool.get_or_create(key, None, None, &Vec::new()).unwrap());
    pool.ensure_capacity_or_evict(key, &Vec::new()).unwrap();
    let first = NewConnection {
        facade_token: Some("T_pred".into()),
        ..connection(1, "s1")
    };
    match pool.finish_get_or_create(key, plan, first, &Vec::new(), 0) {
        CreateOutcome::Installed { revoked_token, .. } => assert_eq!(revoked_token, None),
        CreateOutcome::Superseded => panic!("expected the connection to be taken in"),
    }
    let gone = vec![dead(1, Some("s1"))];
    let plan = plan_of(pool.get_or_create(key, None, None, &gone).unwrap());
    pool.ensure_capacity_or_evict(key, &gone).unwrap();
    let second = NewConnection {
        facade_token: Some("T_succ".into()),
        ..connection(2, "s2")
    };
    match pool.finish_get_or_create(key, plan, second, &gone, 0) {
        CreateOutcome::Installed { revoked_token, .. } => {
            assert_eq!(revoked_token.as_deref(), Some("T_pred"))
        }
        CreateOutcome::Superseded => panic!("expected the connection to be taken in"),
    }
    let (_, revoked) = pool.reset_session(key);
    assert_eq!(revoked.as_deref(), Some("T_succ"), "the successor's token stands");
}

fn with_token(pool: &mut SessionPool, key: &str, handle: u64, token: &str) {
    let plan = plan_of(pool.get_or_create(key, None, None, &Vec::new()).unwrap());
    pool.ensure_capacity_or_evict(key, &Vec::new()).unwrap();
    let c = NewConnection {
        facade_token: Some(token.into()),
        ..connection(handle, "s")
    };
    pool.finish_get_or_create(key, plan, c, &Vec::new(), 0);
}

#[test]
fn hung_eviction_revokes_the_exact_facade_token_and_forgets_it() {
    let mut pool = pool(2);
    with_token(&mut pool, "discord:acp_x", 1, "T_hung");
    with_token(&mut pool, "discord:acp_y", 2, "T_other");
    pool.claim_connection("discord:acp_x", false, 0).unwrap();
    let probes = vec![probe(2, 700 * SECOND, "s")];
    let plan = pool.cleanup_idle(&probes, 0, 601 * SECOND);
    assert_eq!(plan.hung.len(), 1);
    assert_eq!(pool.apply_sweep(&plan), vec!["T_hung".to_string()]);
    let (outcome, revoked) = pool.reset_session("discord:acp_x");
    assert_eq!((outcome, revoked), (Err(PoolError::NoSession), None));
    let (_, other) = pool.reset_session("discord:acp_y");
    assert_eq!(other.as_deref(), Some("T_other"));
}

#[test]
fn remove_if_same_handle_removes_matching_entry() {
    let mut map: TextMap<ActiveEntry> = TextMap::new();
    map.insert("thread".into(), ActiveEntry { handle: 1, phase: entry_phase::IDLE });
    let removed = remove_if_same_handle(&mut map, "thread", 1);
    assert!(removed.is_some());
    assert_eq!(map.len(), 0);
}

#[test]
fn remove_if_same_handle_keeps_replaced_entry() {
    let mut map: TextMap<ActiveEntry> = TextMap::new();
    map.insert("thread".into(), ActiveEntry { handle: 2, phase: entry_phase::IDLE });
    let removed = remove_if_same_handle(&mut map, "thread", 1);
    assert!(removed.is_none());
    let current = map.get("thread").expect("entry should remain");
    assert_eq!(current.handle, 2);
}

#[test]
fn get_or_insert_gate_reuses_gate_for_same_thread() {
    let mut map: TextMap<u64> = TextMap::new();
    let first = get_or_insert_gate(&mut map, "thread", 7);
    let second = get_or_insert_gate(&mut map, "thread", 8);
    assert_eq!(first, second);
    assert_eq!(map.len(), 1);
}

#[test]
fn classify_idle_marks_stale_by_time() {
    let now = 1_000 * SECOND;
    assert!(classify_idle(now - 120 * SECOND, true, now - 60 * SECOND));
}

#[test]
fn classify_idle_marks_stale_by_death() {
    let now = 1_000 * SECOND;
    assert!(classify_idle(now, false, now - 60 * SECOND));
}

#[test]
fn classify_idle_keeps_fresh_alive_sessions() {
    let now = 1_000 * SECOND;
    assert!(!classify_idle(now, true, now - 60 * SECOND));
}

#[test]
fn better_candidate_prefers_empty_current() {
    assert!(better_candidate(None, 1_000 * SECOND));
}

#[test]
fn better_candidate_prefers_older_last_active() {
    let now = 1_000 * SECOND;
    assert!(better_candidate(Some(now - 30 * SECOND), now - 120 * SECOND));
}

#[test]
fn better_candidate_rejects_newer_last_active() {
    let now = 1_000 * SECOND;
    assert!(!better_candidate(Some(now - 120 * SECOND), now - 30 * SECOND));
}

#[test]
fn classify_hung_detects_in_flight_session_past_threshold() {
    assert!(classify_hung(
        true,
        Duration::from_secs(200).as_nanos(),
        Duration::from_secs(120).as_nanos(),
    ));
}

#[test]
fn classify_hung_ignores_in_flight_session_within_threshold() {
    assert!(!classify_hung(
        true,
        Duration::from_secs(30).as_nanos(),
        Duration::from_secs(120).as_nanos(),
    ));
}

#[test]
fn classify_hung_never_marks_idle_sessions() {
    assert!(!classify_hung(
        false,
        Duration::from_secs(200).as_nanos(),
        Duration::from_secs(120).as_nanos(),
    ));
}

#[test]
fn better_candidate_keeps_existing_on_equal_last_active() {
    let ts = 940 * SECOND;
    assert!(!better_candidate(Some(ts), ts));
}

#[test]
fn force_evict_warning_redacts_both_ids() {
    let uuid = "00000000-0000-0000-0000-000000000000";
    let entry = warn_force_evicting_hung(
        &format!("discord:acp_{uuid}"),
        Some(&format!("sess_{uuid}")),
        999,
        600,
    );
    let out = format!("{:?}", entry.fields);
    assert!(out.contains("force-evicting hung session"), "the warning must fire: {out}");
    assert!(!out.contains(uuid), "no raw uuid may reach the log: {out}");
    assert!(
        !out.contains("acp_") && !out.contains("sess_"),
        "no raw id prefix either: {out}"
    );
    assert!(out.contains('#'), "the redaction tag must be present: {out}");
    assert!(out.contains("discord"), "the readable platform half must survive: {out}");
    assert_eq!(entry.fields[3], ("age_secs", "999".to_string()));
    assert_eq!(entry.fields[4], ("threshold_secs", "600".to_string()));
}

#[test]
fn purge_session_entries_drops_all_entries_for_evicted_key_only() {
    let mut pool = pool(3);
    create(&mut pool, "hung", 1, "session-hung");
    create(&mut pool, "other", 2, "session-other");
    let lock = pool.creation_gate("hung", 41);
    pool.claim_connection("hung", false, 0).unwrap();
    let plan = pool.cleanup_idle(&vec![probe(2, 700 * SECOND, "session-other")], 0, 601 * SECOND);
    assert_eq!(plan.hung[0].pgid, Some(1));
    assert_eq!(plan.hung[0].cancel.as_ref().unwrap().session_id, "session-hung");
    pool.apply_sweep(&plan);
    assert!(!pool.has_reusable_session("hung"));
    assert_eq!(pool.cancel_session("hung"), Err(PoolError::NoSession));
    assert_eq!(pool.creation_gate("hung", 42), lock);
    assert_eq!(mapping(&pool), mapped(&[("other", "session-other")]));
    assert_eq!(pool.active_sessions(), vec![("other".to_string(), 2)]);
    assert!(pool.cancel_session("other").is_ok());
}

#[test]
fn persisted_mapping_can_include_active_and_suspended_sessions() {
    let mut persisted: TextMap<String> = TextMap::new();
    persisted.insert("active-thread".into(), "session-active".into());
    persisted.insert("suspended-thread".into(), "session-suspended".into());
    let serialized = durable_text(&persisted);
    let roundtrip = load_mapping(Some(&serialized));
    assert_eq!(
        roundtrip.get("active-thread"),
        Some(&"session-active".to_string())
    );
    assert_eq!(
        roundtrip.get("suspended-thread"),
        Some(&"session-suspended".to_string())
    );
    assert_eq!(
        serialized,
        "{\n  \"active-thread\": \"session-active\",\n  \"suspended-thread\": \"session-suspended\"\n}"
    );
}

fn resolve_with_canonical(
    project: Option<&ProjectContext>,
    stored_workdir: Option<&str>,
    config_workdir: &str,
) -> (String, Option<ProjectContext>) {
    let found = match project {
        Some(p) if !p.is_anonymous() => Some(Ok(p.clone())),
        _ => None,
    };
    let canonical = canonicalize_pinned(project, found).expect("canonicalize pinned");
    resolve_effective_workdir(project, canonical.as_ref(), stored_workdir, config_workdir)
}

#[test]
fn resolve_falls_back_to_config_when_no_project_and_no_stored() {
    let (wd, store) = resolve_with_canonical(None, None, "/cfg/work");
    assert_eq!(wd, "/cfg/work");
    assert!(store.is_none(), "nothing to persist when there is no context");
}

#[test]
fn resolve_prefers_stored_when_no_project() {
    let (wd, store) = resolve_with_canonical(None, Some("/stored/ws"), "/cfg/work");
    assert_eq!(wd, "/stored/ws", "stored binding wins over config");
    assert!(store.is_none());
}

#[test]
fn resolve_prefers_project_root_when_pinned() {
    let pinned = project("openab", "/srv/openab");
    let (wd, store) = resolve_with_canonical(Some(&pinned), Some("/stored/ws"), "/cfg/work");
    assert_eq!(wd, "/srv/openab");
    let store = store.expect("project-pinned context must persist");
    assert_eq!(store.project_id, "openab");
    assert_eq!(store.project_root, "/srv/openab");
}

#[test]
fn resolve_anonymous_prefers_stored_over_anonymous_path() {
    let anonymous = ProjectContext::anonymous("/tmp/ws".into());
    let (wd, store) = resolve_with_canonical(Some(&anonymous), Some("/stored/ws"), "/cfg/work");
    assert_eq!(wd, "/stored/ws");
    assert!(store.is_none(), "anonymous contexts must NOT persist a project binding");
}

#[test]
fn resolve_anonymous_uses_anonymous_path_when_no_stored() {
    let anonymous = ProjectContext::anonymous("/tmp/ws".into());
    let (wd, store) = resolve_with_canonical(Some(&anonymous), None, "/cfg/work");
    assert_eq!(wd, "/tmp/ws");
    assert!(store.is_none());
}

#[test]
fn canonicalize_rejects_nonexistent_project_root() {
    let pinned = project("openab", "/nonexistent/path/2026_08_18");
    let found = Err(format!("{} cannot be canonicalized", pinned.project_root));
    let err = canonicalize_pinned(Some(&pinned), Some(found)).expect_err("nonexistent root must fail");
    assert!(err.contains("cannot be canonicalized"), "{err}");
    let refused = pool(1).get_or_create("t", Some(&pinned), Some(Err(err.clone())), &Vec::new());
    assert_eq!(refused.err().unwrap().message("t"), err);
}

#[test]
fn session_projects_persists_across_save_load_round_trip() {
    let mut pool = pool(1);
    create_pinned(&mut pool, "discord:thread-1", 1, &project("openab", "/srv/\"openab\"")).unwrap();
    let saved = pool.save_projects();
    let roundtrip = load_projects(ProjectsFile::Bindings(saved)).expect("deserialize");
    let stored = roundtrip
        .get("discord:thread-1")
        .expect("thread-1 binding survives roundtrip");
    assert_eq!(stored.project_id, "openab");
    assert_eq!(stored.project_root, "/srv/\"openab\"");
}

#[test]
fn load_projects_returns_empty_for_missing_file() {
    let projects = load_projects(ProjectsFile::Missing).expect("missing file is Ok(empty)");
    assert_eq!(projects.len(), 0);
}

#[test]
fn load_projects_reports_corrupt_file_as_error() {
    let parsed: Result<HashMap<String, HashMap<String, String>>, serde_json::Error> =
        serde_json::from_str("{ this is not valid json");
    let reason = parsed.unwrap_err().to_string();
    assert_eq!(
        load_projects(ProjectsFile::Malformed(reason.clone())).err().unwrap(),
        format!("json parse error: {reason}")
    );
    assert_eq!(
        load_projects(ProjectsFile::Unreadable("denied".into())).err().unwrap(),
        "read error: denied"
    );
}

#[test]
fn purge_session_entries_clears_project_binding() {
    let mut pool = pool(1);
    create_pinned(&mut pool, "evicted", 1, &project("openab", "/srv/openab")).unwrap();
    assert!(pool.get_pinned_project("evicted").is_some());
    let (outcome, _) = pool.reset_session("evicted");
    assert_eq!(outcome, Ok(()));
    assert!(
        pool.get_pinned_project("evicted").is_none(),
        "project binding must be cleared alongside other session state"
    );
}

#[test]
fn is_native_dispatch_key_matches_prefix_only() {
    assert!(is_native_dispatch_key("native-dispatch:ArthurClaude:oad-abcdef"));
    assert!(is_native_dispatch_key("native-dispatch:"));
    assert!(!is_native_dispatch_key("discord:1539923659345502208"));
    assert!(!is_native_dispatch_key(""));
    assert!(!is_native_dispatch_key("discord-native-dispatch:"));
}

#[test]
fn format_native_dispatch_key_round_trips_and_redacts_safely() {
    let key = format_native_dispatch_key("ArthurClaude", "oad-abc123");
    assert_eq!(key, "native-dispatch:ArthurClaude:oad-abc123");
    assert!(is_native_dispatch_key(&key));
    let redacted = redact_session_ids(&key);
    assert_eq!(redacted, key);
    assert!(redacted.contains("native-dispatch:"));
    assert!(redacted.contains("oad-abc123"));
}

#[test]
fn native_dispatch_key_distinct_from_human_session_key() {
    let primary = format_native_dispatch_key("ArthurClaude", "oad-1");
    let verifier = format_native_dispatch_key("ArthurCodex", "oad-1");
    assert_ne!(primary, verifier);
    let retry = format_native_dispatch_key("ArthurClaude", "oad-1");
    assert_eq!(primary, retry);
    let human = "discord:1539923659345502208".to_string();
    assert_ne!(primary, human);
    assert!(!is_native_dispatch_key(&human));
}

#[test]
fn get_or_create_rejects_project_context_mismatch_on_existing_binding() {
    let mut pool = pool(2);
    let a = project("A", "/srv/a");
    let b = project("B", "/srv/b");
    create_pinned(&mut pool, "discord:t", 1, &a).unwrap();
    let refused = create_pinned(&mut pool, "discord:t", 2, &b).err().unwrap();
    assert_eq!(
        refused,
        PoolError::ProjectMismatch {
            stored: a.clone(),
            incoming: b
        }
    );
    assert_eq!(
        refused.message("discord:t"),
        "project context mismatch: existing session for discord:t is bound to project_id=\"A\" \
         project_root=\"/srv/a\", but incoming context is project_id=\"B\" \
         project_root=\"/srv/b\"; refuse to reuse a stale cross-project session"
    );
    assert_eq!(pool.get_pinned_project("discord:t"), Some(a));
}

#[test]
fn active_project_a_rejects_project_b_before_alive_fast_path() {
    let mut pool = pool(2);
    create_pinned(&mut pool, "t", 1, &project("A", "/srv/a")).unwrap();
    let b = project("B", "/srv/a");
    for probes in [Vec::new(), vec![probe(1, 0, "sess")], vec![dead(1, None)]] {
        let refused = pool.get_or_create("t", Some(&b), Some(Ok(b.clone())), &probes);
        assert!(matches!(refused, Err(PoolError::ProjectMismatch { .. })));
    }
}

#[test]
fn same_canonical_project_reuses_active_session() {
    let mut pool = pool(2);
    let a = project("A", "/srv/a");
    create_pinned(&mut pool, "t", 1, &a).unwrap();
    let again = pool.get_or_create("t", Some(&a), Some(Ok(a.clone())), &vec![probe(1, 0, "sess")]);
    assert!(matches!(again, Ok(CreateDecision::Reuse)));
}

#[test]
fn get_or_create_keeps_two_threads_with_different_projects_isolated() {
    let mut pool = pool(2);
    create_pinned(&mut pool, "t1", 1, &project("A", "/srv/a")).unwrap();
    create_pinned(&mut pool, "t2", 2, &project("B", "/srv/b")).unwrap();
    assert_eq!(pool.get_pinned_project("t1"), Some(project("A", "/srv/a")));
    assert_eq!(pool.get_pinned_project("t2"), Some(project("B", "/srv/b")));
}

#[test]
fn get_or_create_uses_project_root_as_effective_workdir() {
    let pool = pool(1);
    let a = project("A", "/srv/a");
    let plan = plan_of(pool.get_or_create("t", Some(&a), Some(Ok(a.clone())), &Vec::new()).unwrap());
    assert_eq!(plan.workdir, "/srv/a");
    assert_eq!(plan.project_to_store, Some(a));
    let legacy = plan_of(pool.get_or_create("t", None, None, &Vec::new()).unwrap());
    assert_eq!(legacy.workdir, "/cfg/work");
    assert!(!legacy.keep_workdir);
}

fn corrupt_restart() -> SessionPool {
    SessionPool::from_persistence_root(
        "/cfg/work".into(),
        4,
        600,
        Some(r#"{"A":"sess_a","B":"sess_b"}"#),
        None,
        ProjectsFile::Malformed("key must be a string at line 1 column 3".into()),
    )
}

#[test]
fn corrupt_project_binding_does_not_resume_untrusted_session() {
    let pool = corrupt_restart();
    let a = project("A", "/srv/a");
    let refused = pool
        .get_or_create("A", Some(&a), Some(Ok(a.clone())), &Vec::new())
        .err().unwrap();
    assert_eq!(refused, PoolError::UntrustedBinding);
    assert_eq!(
        refused.message("A"),
        "project binding for A is untrusted (session_projects persistence was corrupt at \
         startup); refusing to resume. Reset the session and retry with a trusted project context."
    );
    let unpinned = plan_of(pool.get_or_create("A", None, None, &Vec::new()).unwrap());
    assert_eq!(unpinned.saved_session_id.as_deref(), Some("sess_a"));
}

#[test]
fn corrupt_project_bindings_remain_per_session_untrusted_after_fresh_save() {
    let mut pool = corrupt_restart();
    create_pinned(&mut pool, "C", 1, &project("C", "/srv/c")).unwrap();
    for key in ["A", "B"] {
        let p = project("X", "/srv/x");
        let refused = pool.get_or_create(key, Some(&p), Some(Ok(p.clone())), &Vec::new());
        assert_eq!(refused.err().unwrap(), PoolError::UntrustedBinding);
    }
    let (outcome, _) = pool.reset_session("A");
    assert_eq!(outcome, Err(PoolError::NoSession));
    assert!(create_pinned(&mut pool, "A", 2, &project("A", "/srv/a")).is_ok());
    let p = project("X", "/srv/x");
    let refused = pool.get_or_create("B", Some(&p), Some(Ok(p.clone())), &Vec::new());
    assert_eq!(refused.err().unwrap(), PoolError::UntrustedBinding);
    assert_eq!(pool.get_pinned_project("C"), Some(project("C", "/srv/c")));
}

#[test]
fn cleanup_reset_followed_by_new_project_creates_correctly_rooted_new_session() {
    let mut pool = pool(1);
    create_pinned(&mut pool, "t", 1, &project("A", "/srv/a")).unwrap();
    let (outcome, _) = pool.reset_session("t");
    assert_eq!(outcome, Ok(()));
    let b = project("B", "/srv/b");
    let plan = plan_of(pool.get_or_create("t", Some(&b), Some(Ok(b.clone())), &Vec::new()).unwrap());
    assert_eq!(plan.workdir, "/srv/b");
    assert_eq!(plan.saved_session_id, None);
    assert!(!plan.had_existing);
}

#[test]
fn native_dispatch_key_does_not_read_suspended_or_projects_map() {
    let mut pool = pool(1);
    let key = format_native_dispatch_key("ArthurClaude", "oad-1");
    create_native(&mut pool, &key, 1);
    assert!(matches!(
        pool.get_or_create(&key, None, None, &vec![probe(1, 0, "sess_native")]),
        Ok(CreateDecision::Fresh)
    ));
    assert_eq!(mapping(&pool), Vec::new());
}

#[test]
fn preseeded_native_removed_before_mapping_save() {
    let mut bindings = TextMap::new();
    bindings.insert("native-dispatch:A:oad-old".into(), project("p", "/p"));
    let restored = SessionPool::from_persistence_root(
        "/cfg/work".into(),
        1,
        600,
        Some(r#"{"native-dispatch:A:oad-old":"sess_old","discord:1":"sess_human"}"#),
        Some(r#"{"native-dispatch:A:oad-old":"/old","discord:1":"/human"}"#),
        ProjectsFile::Bindings(bindings),
    );
    assert_eq!(mapping(&restored), mapped(&[("discord:1", "sess_human")]));
    assert!(!restored.has_reusable_session("native-dispatch:A:oad-old"));
    assert_eq!(restored.get_pinned_project("native-dispatch:A:oad-old"), None);
    assert_eq!(load_mapping(Some(&restored.save_meta())).len(), 1);
}

#[test]
fn shutdown_does_not_persist_native_dispatch_keys() {
    let mut pool = pool(2);
    let key = format_native_dispatch_key("ArthurClaude", "oad-1");
    create_native(&mut pool, &key, 1);
    create(&mut pool, "discord:1", 2, "sess_human");
    let count = pool.shutdown(vec![
        (key.clone(), "sess_native".into()),
        ("discord:1".into(), "sess_human".into()),
    ]);
    assert_eq!(count, 2);
    assert_eq!(mapping(&pool), mapped(&[("discord:1", "sess_human")]));
    assert!(!pool.has_reusable_session(&key));
    assert!(pool.active_sessions().is_empty());
}

#[test]
fn cleanup_idle_does_not_persist_native_dispatch_keys() {
    let mut pool = pool(2);
    let key = format_native_dispatch_key("ArthurClaude", "oad-1");
    create_native(&mut pool, &key, 1);
    create(&mut pool, "discord:1", 2, "sess_human");
    let probes = vec![probe(1, 10, "sess_native"), probe(2, 10, "sess_human")];
    let plan = pool.cleanup_idle(&probes, 11, 20);
    assert_eq!(plan.stale.len(), 2);
    pool.apply_sweep(&plan);
    assert_eq!(mapping(&pool), mapped(&[("discord:1", "sess_human")]));
    assert!(!pool.has_reusable_session(&key));
    assert!(pool.has_reusable_session("discord:1"));
}

#[test]
fn a_ten_distinct_session_keys_do_not_exhaust_pool() {
    let mut pool = pool(3);
    let mut probes: Vec<ConnectionProbe> = Vec::new();
    for i in 0..10u64 {
        let key = format!("discord:{i}");
        let plan = plan_of(pool.get_or_create(&key, None, None, &probes).unwrap());
        pool.ensure_capacity_or_evict(&key, &probes).unwrap();
        pool.finish_get_or_create(&key, plan, connection(i, "s"), &probes, i);
        probes.push(probe(i, i, "s"));
        assert!(pool.active_sessions().len() <= 3);
    }
    let mut left: Vec<u64> = pool.active_sessions().iter().map(|s| s.1).collect();
    left.sort();
    assert_eq!(left, vec![7, 8, 9]);
}

#[test]
fn b_all_busy_returns_pool_exhausted_and_no_eviction() {
    let mut pool = pool(2);
    create(&mut pool, "a", 1, "sa");
    create(&mut pool, "b", 2, "sb");
    pool.claim_connection("a", false, 0).unwrap();
    let probes = vec![probe(1, 0, "sa")];
    let refused = pool.ensure_capacity_or_evict("c", &probes).err().unwrap();
    assert_eq!(refused, PoolError::Exhausted { max_sessions: 2 });
    assert_eq!(refused.message("c"), "pool exhausted (2 sessions)");
    assert_eq!(pool.active_sessions().len(), 2);
}

#[test]
fn c_partial_busy_evicts_oldest_idle_and_succeeds() {
    let mut pool = pool(3);
    create(&mut pool, "busy", 1, "s1");
    create(&mut pool, "old", 2, "s2");
    create(&mut pool, "new", 3, "s3");
    pool.claim_connection("busy", false, 0).unwrap();
    let probes = vec![probe(1, 0, "s1"), probe(2, 10, "s2"), probe(3, 20, "s3")];
    let evicted = pool.ensure_capacity_or_evict("fourth", &probes).unwrap().unwrap();
    assert_eq!(evicted.key, "old");
    assert_eq!(evicted.handle, 2);
    assert_eq!(evicted.revoked_token, None);
    let plan = plan_of(pool.get_or_create("old", None, None, &probes).unwrap());
    assert_eq!(plan.saved_session_id.as_deref(), Some("s2"));
}

#[test]
fn d_same_key_reuse_after_prompt_completion() {
    let mut pool = pool(1);
    create(&mut pool, "a", 1, "s");
    let handle = pool.claim_connection("a", false, 5).unwrap();
    assert_eq!(
        pool.claim_connection("a", false, 6).err().unwrap().message("a"),
        "cannot acquire session for thread a: session is busy executing another prompt"
    );
    pool.release_connection("a", handle, 7);
    assert_eq!(pool.claim_connection("a", false, 8), Ok(1));
}

#[test]
fn g_busy_entries_are_never_evictable_even_when_oldest() {
    let mut pool = pool(2);
    create(&mut pool, "oldest", 1, "s1");
    create(&mut pool, "newer", 2, "s2");
    pool.claim_connection("oldest", false, 0).unwrap();
    let probes = vec![probe(1, 0, "s1"), probe(2, 99, "s2")];
    let evicted = pool.ensure_capacity_or_evict("x", &probes).unwrap().unwrap();
    assert_eq!(evicted.key, "newer");
}

#[test]
fn i_native_dispatch_fast_lane_respects_capacity() {
    let mut pool = pool(1);
    create_native(&mut pool, "native-dispatch:A:1", 1);
    assert_eq!(
        pool.ensure_capacity_or_evict("native-dispatch:A:2", &Vec::new()).err(),
        Some(PoolError::Exhausted { max_sessions: 1 })
    );
    let evicted = pool
        .ensure_capacity_or_evict("native-dispatch:A:2", &vec![probe(1, 0, "sess_native")])
        .unwrap()
        .unwrap();
    assert_eq!(evicted.key, "native-dispatch:A:1");
    assert!(!pool.has_reusable_session("native-dispatch:A:1"));
}

#[test]
fn k_concurrent_distinct_fresh_creation_bounded_by_capacity() {
    let mut pool = pool(2);
    assert!(pool.ensure_capacity_or_evict("a", &Vec::new()).is_ok());
    assert!(pool.ensure_capacity_or_evict("b", &Vec::new()).is_ok());
    assert!(pool.ensure_capacity_or_evict("c", &Vec::new()).is_err());
    pool.release_reservation();
    assert!(pool.ensure_capacity_or_evict("c", &Vec::new()).is_ok());
}

#[test]
fn a_thread_never_evicts_its_own_dead_session() {
    let mut pool = pool(1);
    create(&mut pool, "a", 1, "s");
    assert_eq!(
        pool.ensure_capacity_or_evict("a", &vec![dead(1, Some("s"))]).err(),
        Some(PoolError::Exhausted { max_sessions: 1 })
    );
}

#[test]
fn a_connection_that_lost_the_race_is_dropped() {
    let mut pool = pool(2);
    let first = plan_of(pool.get_or_create("a", None, None, &Vec::new()).unwrap());
    let second = plan_of(pool.get_or_create("a", None, None, &Vec::new()).unwrap());
    pool.ensure_capacity_or_evict("a", &Vec::new()).unwrap();
    pool.ensure_capacity_or_evict("a", &Vec::new()).unwrap();
    let won = pool.finish_get_or_create("a", first, connection(1, "s1"), &Vec::new(), 0);
    assert!(matches!(won, CreateOutcome::Installed { is_fresh: true, .. }));
    let lost = pool.finish_get_or_create("a", second, connection(2, "s2"), &Vec::new(), 0);
    assert!(matches!(lost, CreateOutcome::Superseded));
    assert_eq!(pool.connection_of("a"), Ok(1));
    assert!(pool.ensure_capacity_or_evict("b", &Vec::new()).is_ok());
}

#[test]
fn a_dead_connection_is_rebuilt_and_resumed() {
    let mut pool = pool(2);
    create(&mut pool, "a", 1, "s1");
    let gone = vec![dead(1, Some("s1"))];
    let plan = plan_of(pool.get_or_create("a", None, None, &gone).unwrap());
    assert!(plan.had_existing);
    assert_eq!(plan_load(&plan, true).as_deref(), Some("s1"));
    assert_eq!(plan_load(&plan, false), None);
    assert!(session_was_reset(&plan, false));
    assert!(!session_was_reset(&plan, true));
    pool.ensure_capacity_or_evict("a", &gone).unwrap();
    let outcome = pool.finish_get_or_create("a", plan, connection(2, ""), &gone, 0);
    assert!(matches!(outcome, CreateOutcome::Installed { is_fresh: false, .. }));
    assert_eq!(mapping(&pool), Vec::new());
    assert_eq!(pool.cancel_session("a"), Err(PoolError::NoSession));
}

#[test]
fn loading_is_retried_only_where_the_session_may_be_there() {
    assert_eq!(classify_load_error("timeout waiting for session/load"), LoadFailure::Timeout);
    assert_eq!(classify_load_error("channel closed"), LoadFailure::ConnectionLost);
    assert_eq!(classify_load_error("unknown session"), LoadFailure::Permanent);
    assert_eq!(after_load(None), Ok(false));
    assert_eq!(after_load(Some(Ok(()))), Ok(true));
    assert_eq!(after_load(Some(Err("unknown session".into()))), Ok(false));
    let lost = after_load(Some(Err("rpc: channel closed".into()))).err().unwrap();
    assert_eq!(
        lost.message("t"),
        "session load connection lost: could not restore previous session"
    );
    let slow = after_load(Some(Err("timeout waiting for x: channel closed".into()))).err().unwrap();
    assert_eq!(slow, PoolError::SessionLoad { reason: "timeout" });
}

#[test]
fn approval_resume_rejects_mismatched_acp_session() {
    assert_eq!(check_approval_session(Some("s"), "s"), Ok(()));
    let other = check_approval_session(Some("s"), "t").err().unwrap();
    assert!(other.message("").contains("approval session mismatch"));
    assert_eq!(check_approval_session(None, "t").err().unwrap().message(""), "no session");
}

#[test]
fn a_cancel_request_is_one_json_line() {
    assert_eq!(
        cancel_request("a\"b"),
        "{\"jsonrpc\":\"2.0\",\"method\":\"session/cancel\",\"params\":{\"sessionId\":\"a\\\"b\"}}\n"
    );
    let mut pool = pool(1);
    create(&mut pool, "a", 9, "s");
    assert_eq!(pool.cancel_session("a"), Ok((9, cancel_request("s"))));
}

#[test]
fn phases_are_claimed_once() {
    let mut entry = ActiveEntry { handle: 1, phase: entry_phase::IDLE };
    assert!(!phase_try_cas(&mut entry, true, entry_phase::IDLE, entry_phase::BUSY));
    assert_eq!(phase_load(&entry, true), entry_phase::BUSY);
    assert!(phase_try_cas(&mut entry, false, entry_phase::IDLE, entry_phase::EVICTING));
    assert!(!phase_try_cas(&mut entry, false, entry_phase::IDLE, entry_phase::BUSY));
    assert_eq!(phase_load(&entry, false), entry_phase::EVICTING);
}

#[test]
fn a_sweep_heals_and_spares_successors() {
    let mut pool = pool(2);
    create(&mut pool, "a", 1, "s1");
    pool.claim_connection("a", false, 0).unwrap();
    let probes = vec![probe(1, 0, "s1")];
    let plan = pool.cleanup_idle(&probes, 10, 700 * SECOND);
    assert_eq!(plan.stale.len(), 1);
    assert!(plan.hung.is_empty());
    let hung_later = pool.cleanup_idle(&Vec::new(), 0, 2_000 * SECOND);
    assert!(hung_later.hung.is_empty(), "the unlocked connection was seen without a prompt");
    pool.reset_session("a").0.unwrap();
    create(&mut pool, "a", 2, "s2");
    assert!(pool.apply_sweep(&plan).is_empty());
    assert_eq!(pool.connection_of("a"), Ok(2));
}

#[test]
fn an_idle_session_without_an_id_is_forgotten() {
    let mut pool = pool(1);
    create_pinned(&mut pool, "a", 1, &project("A", "/srv/a")).unwrap();
    let plan = pool.cleanup_idle(&vec![dead(1, None)], 0, 1);
    pool.apply_sweep(&plan);
    assert!(!pool.has_reusable_session("a"));
    assert_eq!(pool.get_pinned_project("a"), None);
}

#[test]
fn active_sessions_are_reported() {
    let mut pool = pool(1);
    assert!(!pool.has_active_session("a", &Vec::new()));
    create(&mut pool, "a", 1, "");
    assert!(pool.has_active_session("a", &Vec::new()));
    assert!(!pool.has_active_session("a", &vec![dead(1, None)]));
    assert_eq!(
        pool.connection_of("b").err().unwrap().message("b"),
        "no connection for thread b"
    );
}

#[test]
fn facade_channels_and_tokens() {
    assert_eq!(facade_channel("acp:chan").as_deref(), Some("chan"));
    assert_eq!(facade_channel("discord:chan"), None);
    assert_eq!(native_facade_channel("native-dispatch:A:1"), "A:1");
    assert_eq!(native_facade_channel("other"), "other");
    let mut env: TextMap<String> = TextMap::new();
    add_session_token(&mut env, None);
    assert_eq!(env.len(), 0);
    add_session_token(&mut env, Some("tok"));
    assert_eq!(env.get("OPENAB_SESSION_TOKEN").map(String::as_str), Some("tok"));
}

#[test]
fn only_real_process_groups_are_killed() {
    assert_eq!(kill_target(Some(7)), Some(7));
    assert_eq!(kill_target(Some(0)), None);
    assert_eq!(kill_target(Some(-1)), None);
    assert_eq!(kill_target(None), None);
}

#[test]
fn files_are_written_beside_their_place() {
    let paths = persistence_paths("/r");
    assert_eq!(paths.meta, "/r/session_meta.json");
    assert_eq!(paths.projects, "/r/session_projects.json");
    assert_eq!(temporary_path(&paths.mapping), "/r/thread_map.json.tmp");
    assert_eq!(load_mapping(Some("[1]")).len(), 0);
    assert_eq!(load_mapping(None).len(), 0);
}

#[test]
fn redaction_replaces_ids_and_nothing_else() {
    let uuid = "01234567-89ab-cdef-ABCD-EF0123456789";
    assert_eq!(redact_session_ids(&format!("acp_{uuid}")), "#");
    assert_eq!(redact_session_ids(&format!("x acp_{uuid} sess_{uuid}y")), "x # #y");
    assert_eq!(redact_session_ids(&format!("acp_acp_{uuid}")), "acp_#");
    assert_eq!(redact_session_ids("acp_01234567"), "acp_01234567");
    assert_eq!(redact_session_ids(&uuid[..]), uuid);
    assert_eq!(redact_session_ids(""), "");
}

#[test]
fn loaded_maps_make_a_pool_without_native_keys() {
    let mut mapping = TextMap::new();
    mapping.insert("discord:1".into(), "sess_1".to_string());
    mapping.insert("native-dispatch:A:oad-1".into(), "sess_2".to_string());
    let mut projects = TextMap::new();
    projects.insert("discord:1".into(), project("p", "/p"));
    let pool = SessionPool::from_loaded(
        "/cfg/work".into(),
        2,
        600,
        mapping,
        TextMap::new(),
        Ok(projects),
    );
    assert!(pool.has_reusable_session("discord:1"));
    assert!(!pool.has_reusable_session("native-dispatch:A:oad-1"));
    assert_eq!(pool.get_pinned_project("discord:1"), Some(project("p", "/p")));
}

#[test]
fn unreadable_projects_leave_loaded_keys_untrusted() {
    let mut mapping = TextMap::new();
    mapping.insert("discord:1".into(), "sess_1".to_string());
    let mut pool = SessionPool::from_loaded(
        "/cfg/work".into(),
        2,
        600,
        mapping,
        TextMap::new(),
        Err("expected value".into()),
    );
    assert!(matches!(
        create_pinned(&mut pool, "discord:1", 1, &project("p", "/p")),
        Err(PoolError::UntrustedBinding)
    ));
    assert!(create_pinned(&mut pool, "discord:2", 2, &project("p", "/p")).is_ok());
    assert!(matches!(
        create_pinned(&mut pool, "discord:1", 1, &project("p", "/p")),
        Err(PoolError::UntrustedBinding)
    ));
}

#[test]
fn seeded_state_is_kept() {
    let mut persisted = TextMap::new();
    persisted.insert("discord:1".into(), "sess_1".to_string());
    let mut session_projects = TextMap::new();
    session_projects.insert("discord:2".into(), project("p", "/p"));
    let pool = SessionPool::with_test_state(
        "/cfg/work".into(),
        SessionPoolTestState {
            persisted,
            suspended: TextMap::new(),
            session_workdirs: TextMap::new(),
            session_projects,
        },
    );
    assert!(pool.has_reusable_session("discord:1"));
    assert!(!pool.has_reusable_session("discord:2"));
    assert_eq!(pool.get_pinned_project("discord:2"), Some(project("p", "/p")));
}

#[test]
fn refusals_hide_session_ids() {
    let key = "acp:acp_0123abcd-4567-89ab-cdef-0123456789ab";
    let text = pool(1).connection_of(key).err().unwrap().message(key);
    assert!(text.starts_with("no connection for thread acp:"));
    assert!(!text.contains("0123abcd"));
}

fn seeded(persisted: &[(&str, &str)], projects: &[(&str, ProjectContext)]) -> SessionPool {
    let mut sessions = TextMap::new();
    let mut suspended = TextMap::new();
    for (key, sid) in persisted {
        sessions.insert(key.to_string(), sid.to_string());
        suspended.insert(key.to_string(), sid.to_string());
    }
    let mut session_projects = TextMap::new();
    for (key, bound) in projects {
        session_projects.insert(key.to_string(), bound.clone());
    }
    SessionPool::with_test_state(
        "/cfg/work".into(),
        SessionPoolTestState {
            persisted: sessions,
            suspended,
            session_workdirs: TextMap::new(),
            session_projects,
        },
    )
}

#[test]
fn ctl_layer_computes_native_dispatch_key_deterministically() {
    let key_a = format_native_dispatch_key("ArthurClaude", "oad-deterministic-a");
    let key_b = format_native_dispatch_key("ArthurClaude", "oad-deterministic-b");
    let key_a_repeat = format_native_dispatch_key("ArthurClaude", "oad-deterministic-a");
    assert_ne!(key_a, key_b, "different dispatch ids must yield different keys");
    assert_eq!(key_a, key_a_repeat, "the same dispatch id must always yield the same key");
    assert!(is_native_dispatch_key(&key_a));
    assert!(is_native_dispatch_key(&key_b));
    assert_ne!(
        key_a,
        format!("discord:{}", "1539923659345502208"),
        "native-dispatch key must never collide with the human Discord channel key"
    );
}

#[test]
fn ordinary_discord_session_still_persists_through_shutdown() {
    let discord_key = "discord:1539923659345502208";
    let mut pool = pool(2);
    create(&mut pool, discord_key, 1, "sess_human");
    pool.shutdown(vec![(discord_key.into(), "sess_human".into())]);
    assert!(
        !is_native_dispatch_key(discord_key),
        "sanity: the discord key must not match the native prefix"
    );
    assert_eq!(
        pool.active_sessions().len(),
        0,
        "shutdown must clear state.active regardless of native/discord mix"
    );
    assert_eq!(mapping(&pool), mapped(&[(discord_key, "sess_human")]));
}

#[test]
fn preseeded_persisted_native_key_still_spawns_fresh() {
    let key = "native-dispatch:ArthurCodex:oad-preseed";
    let mut pool = seeded(&[(key, "sess_PRESEEDED_SHOULD_NOT_BE_USED")], &[]);
    create_native(&mut pool, key, 1);
    pool.shutdown(Vec::new());
    assert!(
        pool.has_reusable_session(key),
        "pre-seeded persisted entry is preserved verbatim at spawn time"
    );
    assert_eq!(mapping(&pool), Vec::new());
}

#[test]
fn preseeded_native_removed_on_shutdown() {
    let native_key = "native-dispatch:ArthurCodex:oad-disk-2";
    let mut pool = seeded(
        &[(native_key, "sess_legacy_2")],
        &[(native_key, project("leaked-project", "/should/not/persist"))],
    );
    pool.shutdown(Vec::new());
    let thread_map = pool.save_mapping();
    assert!(
        !thread_map.contains(native_key),
        "thread_map.json MUST NOT contain native-dispatch keys; got: {thread_map}"
    );
    assert_eq!(pool.save_projects().len(), 0);
}

#[test]
fn mixed_human_native_mapping_persists_only_human() {
    let native_key = "native-dispatch:ArthurGemini:oad-mixed";
    let human_key = "discord:1539923659345502208";
    let mut pool = seeded(&[(native_key, "sess_native"), (human_key, "sess_human")], &[]);
    pool.shutdown(Vec::new());
    let thread_map = pool.save_mapping();
    assert!(
        thread_map.contains(human_key),
        "the human Discord conversational key MUST remain on disk"
    );
    assert!(
        !thread_map.contains(native_key),
        "the native-dispatch key MUST be scrubbed from disk"
    );
}

#[test]
fn native_dispatch_key_skips_persisted_lookup_under_existing_entry() {
    let old = "native-dispatch:ArthurClaude:oad-old";
    let new = "native-dispatch:ArthurClaude:oad-new";
    let mut pool = seeded(&[(old, "sess_LEGACY_SHOULD_NOT_BE_USED")], &[]);
    assert!(matches!(
        pool.get_or_create(old, None, None, &Vec::new()),
        Ok(CreateDecision::Fresh)
    ));
    create_native(&mut pool, new, 1);
    pool.shutdown(vec![(new.into(), "sess_native".into())]);
    assert!(pool.has_reusable_session(old));
    assert!(
        !pool.has_reusable_session(new),
        "fast-lane branch must never write to state.persisted"
    );
}

#[test]
fn native_dispatch_key_isolates_two_consecutive_dispatches() {
    let mut pool = pool(2);
    for (handle, key) in [
        (1, "native-dispatch:ArthurClaude:oad-A"),
        (2, "native-dispatch:ArthurClaude:oad-B"),
    ] {
        create_native(&mut pool, key, handle);
        assert_eq!(pool.connection_of(key), Ok(handle));
        assert_eq!(pool.get_pinned_project(key), None);
    }
    assert_eq!(mapping(&pool), Vec::new());
}

#[test]
fn session_new_receives_dynamic_project_root_as_cwd() {
    let pool = pool(1);
    let bound = project("openab", "/srv/openab");
    let decision = pool
        .get_or_create("T", Some(&bound), Some(Ok(bound.clone())), &Vec::new())
        .unwrap();
    assert_eq!(
        plan_of(decision).workdir,
        "/srv/openab",
        "session/new.params.cwd must be the dynamic project_root"
    );
}

#[test]
fn legacy_session_new_receives_configured_working_dir() {
    let mut pool = pool(1);
    let plan = plan_of(pool.get_or_create("T", None, None, &Vec::new()).unwrap());
    assert_eq!(
        plan.workdir,
        "/cfg/work",
        "legacy session/new.params.cwd must be config.working_dir"
    );
    pool.ensure_capacity_or_evict("T", &Vec::new()).unwrap();
    let outcome = pool.finish_get_or_create("T", plan, connection(1, "s"), &Vec::new(), 0);
    assert!(
        matches!(outcome, CreateOutcome::Installed { is_fresh: true, .. }),
        "T must be a fresh session"
    );
}

#[test]
fn two_active_threads_with_different_projects_remain_isolated() {
    let mut pool = pool(2);
    let (a, b) = (project("A", "/srv/a"), project("B", "/srv/b"));
    create_pinned(&mut pool, "T1", 1, &a).unwrap();
    create_pinned(&mut pool, "T2", 2, &b).unwrap();
    assert_eq!(pool.get_pinned_project("T1"), Some(a), "T1 has a project binding");
    assert_eq!(pool.get_pinned_project("T2"), Some(b), "T2 has a project binding");
    let workdirs = load_mapping(Some(&pool.save_meta()));
    assert_eq!(workdirs.get("T1").map(String::as_str), Some("/srv/a"), "T1 has a workdir");
    assert_eq!(workdirs.get("T2").map(String::as_str), Some("/srv/b"), "T2 has a workdir");
    assert_ne!(
        pool.connection_of("T1").unwrap(),
        pool.connection_of("T2").unwrap(),
        "T1 and T2 must have distinct connections (no cross-thread reuse)"
    );
}

#[test]
fn e_prompt_error_clears_busy_via_raii() {
    let mut pool = pool(1);
    create(&mut pool, "errkey", 1, "s");
    let handle = pool.claim_connection("errkey", false, 1).unwrap();
    pool.release_connection("errkey", handle, 2);
    assert_eq!(
        pool.find_oldest_idle_eviction_candidate("other", &vec![probe(1, 2, "s")])
            .map(|c| c.key),
        Some("errkey".to_string()),
        "the busy mark must be cleared after Err"
    );
    assert!(
        pool.claim_connection("errkey", false, 3).is_ok(),
        "entry must be reusable after Err"
    );
}

#[test]
fn h_oldest_idle_eviction_is_deterministic_and_skips_busy() {
    let mut pool = pool(3);
    create(&mut pool, "first", 1, "s1");
    create(&mut pool, "second", 2, "s2");
    create(&mut pool, "third", 3, "s3");
    pool.claim_connection("second", false, 1).unwrap();
    let probes = vec![probe(1, 10, "s1"), probe(3, 30, "s3")];
    let plan = plan_of(pool.get_or_create("fourth", None, None, &probes).unwrap());
    pool.ensure_capacity_or_evict("fourth", &probes).unwrap();
    pool.finish_get_or_create("fourth", plan, connection(4, "s4"), &probes, 40);
    assert!(pool.connection_of("first").is_err(), "first must be evicted (oldest idle)");
    assert!(pool.connection_of("second").is_ok(), "second must survive (busy)");
    assert!(pool.connection_of("third").is_ok(), "third must survive (newer idle)");
    assert!(pool.connection_of("fourth").is_ok());
}

#[test]
fn j_failed_capacity_acquisition_leaks_no_child() {
    let mut pool = pool(1);
    create(&mut pool, "only", 1, "s");
    pool.claim_connection("only", false, 1).unwrap();
    assert!(
        pool.ensure_capacity_or_evict("would-orphan", &Vec::new()).is_err(),
        "second spawn must fail at capacity"
    );
    assert_eq!(pool.active_sessions().len(), 1);
    assert!(
        pool.connection_of("would-orphan").is_err(),
        "the failed key must not be inserted"
    );
}

#[test]
fn l_concurrent_native_fresh_creation_bounded_by_capacity() {
    let mut pool = pool(1);
    create(&mut pool, "human-seed", 1, "seed");
    let probes = vec![probe(1, 0, "seed")];
    let (k1, k2) = (
        format_native_dispatch_key("ArthurClaude", "oad-L-1"),
        format_native_dispatch_key("ArthurClaude", "oad-L-2"),
    );
    assert!(pool.ensure_capacity_or_evict(&k1, &probes).is_ok());
    assert_eq!(
        pool.ensure_capacity_or_evict(&k2, &probes).err(),
        Some(PoolError::Exhausted { max_sessions: 1 }),
        "second native creator must NOT have acquired a reservation"
    );
    pool.create_fresh_session_only(&k1, connection(2, "sess_native"), 1);
    assert_eq!(pool.active_sessions(), vec![(k1, 2)]);
}

#[test]
fn m_reuse_vs_eviction_race_is_exclusive() {
    let mut evicting = pool(1);
    create(&mut evicting, "A", 1, "s");
    evicting.ensure_capacity_or_evict("B", &vec![probe(1, 0, "s")]).unwrap();
    let reuse_err = evicting.claim_connection("A", false, 1).err().unwrap().message("A");
    assert!(
        reuse_err.contains("no connection"),
        "reuse error must mention missing/evicted entry: {reuse_err}"
    );

    let mut prompting = pool(1);
    create(&mut prompting, "A2", 1, "s");
    prompting.claim_connection("A2", false, 1).unwrap();
    let evict_err = prompting
        .ensure_capacity_or_evict("B2", &vec![probe(1, 0, "s")])
        .err().unwrap()
        .message("B2");
    assert!(
        evict_err.contains("pool exhausted"),
        "evictor must report pool exhausted: {evict_err}"
    );
}

#[test]
fn o_reservation_released_on_spawn_failure() {
    let mut pool = pool(2);
    pool.ensure_capacity_or_evict("fail-key", &Vec::new()).unwrap();
    pool.release_reservation();
    create(&mut pool, "good-1", 1, "s1");
    create(&mut pool, "good-2", 2, "s2");
    assert_eq!(pool.active_sessions().len(), 2);
}

#[test]
fn p_reservation_released_on_cancellation_via_drop() {
    let mut pool = pool(1);
    create(&mut pool, "A", 1, "s");
    pool.ensure_capacity_or_evict("B", &vec![probe(1, 0, "s")]).unwrap();
    assert!(pool.ensure_capacity_or_evict("C", &Vec::new()).is_err());
    pool.release_reservation();
    assert!(
        matches!(pool.ensure_capacity_or_evict("C", &Vec::new()), Ok(None)),
        "C must succeed after reservation released"
    );
}

#[test]
fn q_eviction_to_reservation_is_atomic_under_deterministic_barrier() {
    let mut pool = pool(1);
    create(&mut pool, "A", 1, "s");
    let plan = plan_of(pool.get_or_create("B", None, None, &Vec::new()).unwrap());
    pool.ensure_capacity_or_evict("B", &vec![probe(1, 0, "s")]).unwrap();
    let c_err = pool
        .ensure_capacity_or_evict("C", &Vec::new())
        .err().unwrap()
        .message("C");
    assert!(
        c_err.contains("pool exhausted"),
        "C must be rejected by capacity (got: {c_err})"
    );
    assert!(matches!(
        pool.finish_get_or_create("B", plan, connection(2, "sb"), &Vec::new(), 1),
        CreateOutcome::Installed { .. }
    ));
    assert_eq!(pool.active_sessions(), vec![("B".to_string(), 2)]);
}

#[test]
fn r_native_eviction_to_reservation_is_atomic_under_deterministic_barrier() {
    let mut pool = pool(1);
    create(&mut pool, "human-seed", 1, "seed");
    let t1 = format_native_dispatch_key("ArthurClaude", "oad-R-1");
    let t2 = format_native_dispatch_key("ArthurClaude", "oad-R-2");
    pool.ensure_capacity_or_evict(&t1, &vec![probe(1, 0, "seed")]).unwrap();
    assert!(pool.ensure_capacity_or_evict(&t2, &Vec::new()).is_err());
    pool.create_fresh_session_only(&t1, connection(2, "sess_native"), 1);
    assert!(
        pool.ensure_capacity_or_evict(&t2, &Vec::new()).is_err(),
        "the other must be rejected"
    );
    let evicted = pool
        .ensure_capacity_or_evict(&t2, &vec![probe(2, 1, "sess_native")])
        .unwrap();
    assert_eq!(evicted.map(|e| e.key), Some(t1));
}

#[test]
fn no_token_is_minted_when_the_facade_config_write_fails() {
    assert_eq!(
        mint_channel(Some("acp_x".into()), false),
        None,
        "a failed config write must yield no token"
    );
}

#[test]
fn a_successful_facade_config_write_mints_one_token() {
    assert_eq!(mint_channel(Some("acp_x".into()), true), Some("acp_x".to_string()));
    assert_eq!(mint_channel(None, true), None);
}

#[test]
fn roots_are_compared_as_paths() {
    for same in ["/a", "/a/", "/a/./", "//a", "/a//", "/./a"] {
        assert!(is_same_path("/a", same), "{same}");
        let mut pool = pool(1);
        create_pinned(&mut pool, "t", 1, &project("p", same)).unwrap();
        let found = project("p", "/a");
        assert!(matches!(
            pool.get_or_create("t", Some(&found), Some(Ok(found.clone())), &Vec::new()),
            Ok(CreateDecision::Reuse)
        ));
    }
    for (a, b) in [("/a", "a"), ("./a", "a"), ("/a", "/a/.."), ("/a", "/a/b"), ("", "/"), ("", ".")] {
        assert!(!is_same_path(a, b), "{a} {b}");
        assert_eq!(
            std::path::Path::new(a) == std::path::Path::new(b),
            is_same_path(a, b)
        );
    }
}

#[test]
fn reuse_is_foretold() {
    let mut pool = seeded(&[("old", "sess_old")], &[]);
    create(&mut pool, "live", 1, "sess_live");
    for (key, reusable) in [("old", true), ("live", true), ("unknown", false)] {
        assert_eq!(pool.has_reusable_session(key), reusable);
        let fresh = match pool.get_or_create(key, None, None, &Vec::new()).unwrap() {
            CreateDecision::Create(plan) => !plan.had_existing && plan.saved_session_id.is_none(),
            CreateDecision::Reuse => false,
            CreateDecision::Fresh => true,
        };
        assert_eq!(fresh, !reusable);
    }
}

#[test]
fn persisted_sessions_stay_at_hand() {
    let mut pool = SessionPool::from_persistence_root(
        "/cfg/work".into(),
        1,
        600,
        Some(r#"{"a":"sess_a"}"#),
        None,
        ProjectsFile::Missing,
    );
    create(&mut pool, "b", 1, "sess_b");
    pool.ensure_capacity_or_evict("c", &vec![probe(1, 0, "sess_b")]).unwrap();
    for (key, saved) in [("a", "sess_a"), ("b", "sess_b")] {
        assert!(pool.has_reusable_session(key));
        let plan = plan_of(pool.get_or_create(key, None, None, &Vec::new()).unwrap());
        assert_eq!(plan.saved_session_id.as_deref(), Some(saved));
    }
    assert_eq!(mapping(&pool), mapped(&[("a", "sess_a"), ("b", "sess_b")]));
}
