//! What of the pool survives a restart, and where it is kept.

use vstd::prelude::*;
use vstd::string::*;

use crate::acp::project::{ProjectContext, ProjectText};
use crate::json::{json_string_map, json_string_map_text, parse_string_map, render_string_map};
use crate::paths::{is_single_component, join_path, path_in, single_component};
use crate::text::{char_at, chars_of, find_char, joined, opt_str, trim, trim_text};
use crate::text_map::TextMap;

use super::keys::{is_native_dispatch_key, native};
use super::state::{PoolError, PoolFault, PoolText, SessionPool};

verus! {

/// The entries of a map that do not belong to a native dispatch.
pub open spec fn without_native<V>(m: Map<Seq<char>, V>) -> Map<Seq<char>, V> {
    Map::new(|k: Seq<char>| m.contains_key(k) && !native(k), |k: Seq<char>| m[k])
}

/// Where the sessions of an agent are kept.
pub open spec fn persistence_root(home: Seq<char>, agent: Seq<char>) -> Seq<char> {
    path_in(path_in(path_in(home, ".openab"@), "agents"@), agent)
}

/// A name that is safe as a directory: one component, without a backslash.
pub open spec fn safe_agent_name(s: Seq<char>) -> bool {
    single_component(s) && char_at(s, '\\') == s.len()
}

/// Why the place of an agent's sessions cannot be told.
pub open spec fn root_fault(home: Option<Seq<char>>, agent: Option<Seq<char>>) -> Option<PoolFault> {
    if home is None || trim(home->0).len() == 0 {
        Some(PoolFault::MissingHome)
    } else if agent is None || trim(agent->0).len() == 0 {
        Some(PoolFault::MissingAgentName)
    } else if !safe_agent_name(trim(agent->0)) {
        Some(PoolFault::UnsafeAgentName)
    } else {
        None
    }
}

/// Where the sessions of an agent are kept: in a directory of its own under the
/// home directory.
pub fn agent_persistence_root(home: Option<&str>, agent_name: Option<&str>) -> (r: Result<
    String,
    PoolError,
>)
    ensures
        match root_fault(opt_str(home), opt_str(agent_name)) {
            Some(f) => r is Err && r->Err_0@ == f,
            None => r is Ok && r->Ok_0@ == persistence_root(
                opt_str(home)->0,
                trim(opt_str(agent_name)->0),
            ),
        },
{
    let home = match home {
        Some(h) => h,
        None => {
            return Err(PoolError::MissingHome);
        },
    };
    if trim_text(home).as_str().is_empty() {
        return Err(PoolError::MissingHome);
    }
    let agent = match agent_name {
        Some(a) => trim_text(a),
        None => {
            return Err(PoolError::MissingAgentName);
        },
    };
    if agent.as_str().is_empty() {
        return Err(PoolError::MissingAgentName);
    }
    let chars = chars_of(agent.as_str());
    assert(agent@.skip(0) =~= agent@);
    let backslash: usize = find_char(&chars, 0, '\\');
    if !is_single_component(agent.as_str()) || backslash < chars.len() {
        return Err(PoolError::UnsafeAgentName);
    }
    let base = join_path(join_path(home, ".openab").as_str(), "agents");
    Ok(join_path(base.as_str(), agent.as_str()))
}

/// The files in which an agent's sessions are kept.
#[derive(Debug, Clone, PartialEq, Eq)]
pub struct PersistencePaths {
    pub mapping: String,
    pub meta: String,
    pub projects: String,
}

/// The files in which the sessions under a root are kept.
pub fn persistence_paths(root: &str) -> (r: PersistencePaths)
    ensures
        r.mapping@ == path_in(root@, "thread_map.json"@),
        r.meta@ == path_in(root@, "session_meta.json"@),
        r.projects@ == path_in(root@, "session_projects.json"@),
{
    PersistencePaths {
        mapping: join_path(root, "thread_map.json"),
        meta: join_path(root, "session_meta.json"),
        projects: join_path(root, "session_projects.json"),
    }
}

/// The file that is written before it takes the place of another.
pub fn temporary_path(path: &str) -> (r: String)
    ensures
        r@ == path@ + ".tmp"@,
{
    joined(path, ".tmp")
}

/// The map in a file's text: the one that it denotes, or an empty one where the
/// file is missing or holds no map.
pub open spec fn loaded(text: Option<Seq<char>>) -> Map<Seq<char>, Seq<char>> {
    match text {
        Some(t) => match json_string_map(t) {
            Some(m) => m,
            None => Map::empty(),
        },
        None => Map::empty(),
    }
}

/// The map in a file's text.
pub fn load_mapping(text: Option<&str>) -> (r: TextMap<String>)
    ensures
        r.wf(),
        r@ == loaded(opt_str(text)),
{
    match text {
        Some(t) => match parse_string_map(t) {
            Some(entries) => TextMap::from_entries(entries),
            None => TextMap::new(),
        },
        None => TextMap::new(),
    }
}

/// The entries of a map of texts that do not belong to a native dispatch.
pub fn filter_native_keys_string_map(src: &TextMap<String>) -> (r: TextMap<String>)
    requires
        src.wf(),
    ensures
        r.wf(),
        r@ == without_native(src@),
{
    let mut out: TextMap<String> = TextMap::new();
    let n: usize = src.len();
    let mut i: usize = 0;
    let ghost keys = src.keys();
    while i < n
        invariant
            src.wf(),
            out.wf(),
            n == keys.len(),
            keys == src.keys(),
            i <= n,
            forall|j: int| 0 <= j < n ==> src@.contains_key(#[trigger] keys[j]),
            forall|k: Seq<char>| #[trigger]
                out@.contains_key(k) ==> src@.contains_key(k) && !native(k) && out@[k] == src@[k],
            forall|j: int|
                0 <= j < i && !native(#[trigger] keys[j]) ==> out@.contains_key(keys[j]),
        decreases n - i,
    {
        if !is_native_dispatch_key(src.key_at(i).as_str()) {
            out.insert(src.key_at(i).clone(), src.value_at(i).clone());
        }
        i += 1;
    }
    proof {
        let want = without_native(src@);
        assert forall|k: Seq<char>| out@.dom().contains(k) == #[trigger] want.dom().contains(k) by {
            if want.dom().contains(k) {
                assert(keys.contains(k));
                let j = choose|j: int| 0 <= j < keys.len() && keys[j] == k;
                assert(out@.contains_key(keys[j]));
            }
            if out@.dom().contains(k) {
                assert(out@.contains_key(k));
            }
        }
        assert forall|k: Seq<char>| #[trigger] out@.dom().contains(k) implies out@[k] == want[k] by {
            assert(out@.contains_key(k));
        }
        assert(out@ =~= want);
    }
    out
}

/// The entries of a map of projects that do not belong to a native dispatch.
pub fn filter_native_keys_projects_map(src: &TextMap<ProjectContext>) -> (r: TextMap<
    ProjectContext,
>)
    requires
        src.wf(),
    ensures
        r.wf(),
        r@ == without_native(src@),
{
    let mut out: TextMap<ProjectContext> = TextMap::new();
    let n: usize = src.len();
    let mut i: usize = 0;
    let ghost keys = src.keys();
    while i < n
        invariant
            src.wf(),
            out.wf(),
            n == keys.len(),
            keys == src.keys(),
            i <= n,
            forall|j: int| 0 <= j < n ==> src@.contains_key(#[trigger] keys[j]),
            forall|k: Seq<char>| #[trigger]
                out@.contains_key(k) ==> src@.contains_key(k) && !native(k) && out@[k] == src@[k],
            forall|j: int|
                0 <= j < i && !native(#[trigger] keys[j]) ==> out@.contains_key(keys[j]),
        decreases n - i,
    {
        if !is_native_dispatch_key(src.key_at(i).as_str()) {
            out.insert(src.key_at(i).clone(), src.value_at(i).copied());
        }
        i += 1;
    }
    proof {
        let want = without_native(src@);
        assert forall|k: Seq<char>| out@.dom().contains(k) == #[trigger] want.dom().contains(k) by {
            if want.dom().contains(k) {
                assert(keys.contains(k));
                let j = choose|j: int| 0 <= j < keys.len() && keys[j] == k;
                assert(out@.contains_key(keys[j]));
            }
            if out@.dom().contains(k) {
                assert(out@.contains_key(k));
            }
        }
        assert forall|k: Seq<char>| #[trigger] out@.dom().contains(k) implies out@[k] == want[k] by {
            assert(out@.contains_key(k));
        }
        assert(out@ =~= want);
    }
    out
}

/// The text of a map that is kept in a file.
pub open spec fn saved(m: Map<Seq<char>, Seq<char>>) -> Seq<char> {
    json_string_map_text(without_native(m))
}

/// The text of a map that is kept in a file. What is loaded from it is the map
/// without the keys of native dispatches.
pub fn durable_text(src: &TextMap<String>) -> (r: String)
    requires
        src.wf(),
    ensures
        r@ == saved(src@),
        loaded(Some(r@)) == without_native(src@),
{
    let kept = filter_native_keys_string_map(src);
    render_string_map(kept.entries())
}

/// The keys of a map.
fn keys_of(src: &TextMap<String>) -> (r: TextMap<()>)
    requires
        src.wf(),
    ensures
        r.wf(),
        r@.dom() == src@.dom(),
{
    let mut out: TextMap<()> = TextMap::new();
    let n: usize = src.len();
    let mut i: usize = 0;
    let ghost keys = src.keys();
    while i < n
        invariant
            src.wf(),
            out.wf(),
            n == keys.len(),
            keys == src.keys(),
            i <= n,
            forall|j: int| 0 <= j < n ==> src@.contains_key(#[trigger] keys[j]),
            forall|k: Seq<char>| #[trigger] out@.contains_key(k) ==> src@.contains_key(k),
            forall|j: int| 0 <= j < i ==> out@.contains_key(#[trigger] keys[j]),
        decreases n - i,
    {
        out.insert(src.key_at(i).clone(), ());
        i += 1;
    }
    proof {
        assert forall|k: Seq<char>| out@.dom().contains(k) == #[trigger] src@.dom().contains(k) by {
            if src@.dom().contains(k) {
                assert(keys.contains(k));
                let j = choose|j: int| 0 <= j < keys.len() && keys[j] == k;
                assert(out@.contains_key(keys[j]));
            }
            if out@.dom().contains(k) {
                assert(out@.contains_key(k));
            }
        }
        assert(out@.dom() =~= src@.dom());
    }
    out
}

/// What was found of the file that keeps projects.
#[derive(Debug)]
pub enum ProjectsFile {
    /// There is none.
    Missing,
    /// It could not be read, and why.
    Unreadable(String),
    /// It does not hold projects, and why.
    Malformed(String),
    /// The project of each thread.
    Bindings(TextMap<ProjectContext>),
}

/// What was found of the file that keeps projects, over texts.
pub enum ProjectsText {
    Missing,
    Unreadable(Seq<char>),
    Malformed(Seq<char>),
    Bindings(Map<Seq<char>, ProjectText>),
}

impl View for ProjectsFile {
    type V = ProjectsText;

    open spec fn view(&self) -> ProjectsText {
        match self {
            ProjectsFile::Missing => ProjectsText::Missing,
            ProjectsFile::Unreadable(e) => ProjectsText::Unreadable(e@),
            ProjectsFile::Malformed(e) => ProjectsText::Malformed(e@),
            ProjectsFile::Bindings(m) => ProjectsText::Bindings(m@),
        }
    }
}

impl ProjectsFile {
    pub open spec fn wf(self) -> bool {
        match self {
            ProjectsFile::Bindings(m) => m.wf(),
            _ => true,
        }
    }
}

/// The projects in a file: none where there is no file, and an error where it could
/// not be read or does not hold projects.
pub open spec fn loaded_projects(file: ProjectsText) -> Result<
    Map<Seq<char>, ProjectText>,
    Seq<char>,
> {
    match file {
        ProjectsText::Missing => Ok(Map::empty()),
        ProjectsText::Unreadable(e) => Err("read error: "@ + e),
        ProjectsText::Malformed(e) => Err("json parse error: "@ + e),
        ProjectsText::Bindings(m) => Ok(m),
    }
}

pub open spec fn projects_view(p: Result<TextMap<ProjectContext>, String>) -> Result<
    Map<Seq<char>, ProjectText>,
    Seq<char>,
> {
    match p {
        Ok(m) => Ok(m@),
        Err(e) => Err(e@),
    }
}

/// The projects in a file.
pub fn load_projects(file: ProjectsFile) -> (r: Result<TextMap<ProjectContext>, String>)
    requires
        file.wf(),
    ensures
        projects_view(r) == loaded_projects(file@),
        r is Ok ==> r->Ok_0.wf(),
{
    match file {
        ProjectsFile::Missing => Ok(TextMap::new()),
        ProjectsFile::Unreadable(e) => Err(joined("read error: ", e.as_str())),
        ProjectsFile::Malformed(e) => Err(joined("json parse error: ", e.as_str())),
        ProjectsFile::Bindings(m) => Ok(m),
    }
}

/// The projects of a restored pool, and the threads whose binding was lost. Where
/// the file of projects is corrupt, no thread that can be resumed is trusted.
pub open spec fn restored_projects(
    suspended: Map<Seq<char>, Seq<char>>,
    projects: Result<Map<Seq<char>, ProjectText>, Seq<char>>,
) -> (Map<Seq<char>, ProjectText>, Map<Seq<char>, ()>) {
    match projects {
        Ok(m) => (without_native(m), Map::empty()),
        Err(_) => (
            Map::empty(),
            Map::new(|k: Seq<char>| suspended.contains_key(k), |k: Seq<char>| ()),
        ),
    }
}

/// The pool that is restored from what was loaded.
pub open spec fn restored_from(
    working_dir: Seq<char>,
    max_sessions: usize,
    hung_threshold_secs: u64,
    mapping: Map<Seq<char>, Seq<char>>,
    meta: Map<Seq<char>, Seq<char>>,
    projects: Result<Map<Seq<char>, ProjectText>, Seq<char>>,
) -> PoolText {
    let suspended = without_native(mapping);
    let (session_projects, untrusted) = restored_projects(suspended, projects);
    PoolText {
        active: Map::empty(),
        cancel_handles: Map::empty(),
        facade_tokens: Map::empty(),
        activity: Map::empty(),
        pgids: Map::empty(),
        suspended,
        persisted: suspended,
        creating: Map::empty(),
        session_workdirs: without_native(meta),
        session_projects,
        untrusted,
        working_dir,
        max_sessions,
        outstanding: 0,
        hung_threshold_secs,
    }
}

/// The pool that is restored from what was kept.
pub open spec fn restored(
    working_dir: Seq<char>,
    max_sessions: usize,
    hung_threshold_secs: u64,
    mapping: Option<Seq<char>>,
    meta: Option<Seq<char>>,
    projects: ProjectsText,
) -> PoolText {
    restored_from(
        working_dir,
        max_sessions,
        hung_threshold_secs,
        loaded(mapping),
        loaded(meta),
        loaded_projects(projects),
    )
}

/// What a pool under test remembers.
#[derive(Debug)]
pub struct SessionPoolTestState {
    pub persisted: TextMap<String>,
    pub suspended: TextMap<String>,
    pub session_workdirs: TextMap<String>,
    pub session_projects: TextMap<ProjectContext>,
}

impl SessionPoolTestState {
    pub open spec fn wf(self) -> bool {
        self.persisted.wf() && self.suspended.wf() && self.session_workdirs.wf()
            && self.session_projects.wf()
    }
}

impl Default for SessionPoolTestState {
    fn default() -> (r: SessionPoolTestState)
        ensures
            r.wf(),
            r.persisted@ == Map::<Seq<char>, Seq<char>>::empty(),
            r.suspended@ == Map::<Seq<char>, Seq<char>>::empty(),
            r.session_workdirs@ == Map::<Seq<char>, Seq<char>>::empty(),
            r.session_projects@ == Map::<Seq<char>, ProjectText>::empty(),
    {
        SessionPoolTestState {
            persisted: TextMap::new(),
            suspended: TextMap::new(),
            session_workdirs: TextMap::new(),
            session_projects: TextMap::new(),
        }
    }
}

impl SessionPool {
    /// A pool for tests, which remembers exactly what it is given.
    pub fn with_test_state(working_dir: String, test_state: SessionPoolTestState) -> (r: SessionPool)
        requires
            test_state.wf(),
        ensures
            r.wf(),
            r@ == (PoolText {
                active: Map::empty(),
                cancel_handles: Map::empty(),
                facade_tokens: Map::empty(),
                activity: Map::empty(),
                pgids: Map::empty(),
                suspended: test_state.suspended@,
                persisted: test_state.persisted@,
                creating: Map::empty(),
                session_workdirs: test_state.session_workdirs@,
                session_projects: test_state.session_projects@,
                untrusted: Map::empty(),
                working_dir: working_dir@,
                max_sessions: 4,
                outstanding: 0,
                hung_threshold_secs: 600,
            }),
    {
        let r = SessionPool {
            active: TextMap::new(),
            cancel_handles: TextMap::new(),
            facade_tokens: TextMap::new(),
            activity: TextMap::new(),
            pgids: TextMap::new(),
            suspended: test_state.suspended,
            persisted: test_state.persisted,
            creating: TextMap::new(),
            session_workdirs: test_state.session_workdirs,
            session_projects: test_state.session_projects,
            untrusted: TextMap::new(),
            working_dir,
            max_sessions: 4,
            outstanding: 0,
            hung_threshold_secs: 600,
        };
        proof {
            assert(r@.active.dom() =~= Set::empty());
            assert(r@.activity.dom() =~= Set::empty());
        }
        r
    }

    /// The pool that is restored from the files that were found. Keys of
    /// native dispatches are scrubbed.
    pub fn from_persistence_root(
        working_dir: String,
        max_sessions: usize,
        hung_threshold_secs: u64,
        mapping: Option<&str>,
        meta: Option<&str>,
        projects: ProjectsFile,
    ) -> (r: SessionPool)
        requires
            projects.wf(),
        ensures
            r.wf(),
            r@ == restored(
                working_dir@,
                max_sessions,
                hung_threshold_secs,
                opt_str(mapping),
                opt_str(meta),
                projects@,
            ),
    {
        SessionPool::from_loaded(
            working_dir,
            max_sessions,
            hung_threshold_secs,
            load_mapping(mapping),
            load_mapping(meta),
            load_projects(projects),
        )
    }

    /// The pool that is restored from what was loaded. Keys of native dispatches are
    /// scrubbed.
    pub fn from_loaded(
        working_dir: String,
        max_sessions: usize,
        hung_threshold_secs: u64,
        mapping: TextMap<String>,
        meta: TextMap<String>,
        projects: Result<TextMap<ProjectContext>, String>,
    ) -> (r: SessionPool)
        requires
            mapping.wf(),
            meta.wf(),
            projects is Ok ==> projects->Ok_0.wf(),
        ensures
            r.wf(),
            r@ == restored_from(
                working_dir@,
                max_sessions,
                hung_threshold_secs,
                mapping@,
                meta@,
                projects_view(projects),
            ),
    {
        let suspended = filter_native_keys_string_map(&mapping);
        let persisted = filter_native_keys_string_map(&mapping);
        let session_workdirs = filter_native_keys_string_map(&meta);
        let (session_projects, untrusted) = match &projects {
            Ok(m) => (filter_native_keys_projects_map(m), TextMap::new()),
            Err(_) => (TextMap::new(), keys_of(&suspended)),
        };
        let r = SessionPool {
            active: TextMap::new(),
            cancel_handles: TextMap::new(),
            facade_tokens: TextMap::new(),
            activity: TextMap::new(),
            pgids: TextMap::new(),
            suspended,
            persisted,
            creating: TextMap::new(),
            session_workdirs,
            session_projects,
            untrusted,
            working_dir,
            max_sessions,
            outstanding: 0,
            hung_threshold_secs,
        };
        proof {
            let want = restored_from(
                working_dir@,
                max_sessions,
                hung_threshold_secs,
                mapping@,
                meta@,
                projects_view(projects),
            );
            assert(r@.untrusted =~= want.untrusted);
            assert(r@ =~= want);
            assert(r@.active.dom() =~= Set::empty());
            assert(r@.activity.dom() =~= Set::empty());
        }
        r
    }

    /// The text of the file that maps threads to sessions.
    pub fn save_mapping(&self) -> (r: String)
        requires
            self.wf(),
        ensures
            r@ == saved(self@.persisted),
            loaded(Some(r@)) == without_native(self@.persisted),
    {
        durable_text(&self.persisted)
    }

    /// The text of the file that maps threads to directories.
    pub fn save_meta(&self) -> (r: String)
        requires
            self.wf(),
        ensures
            r@ == saved(self@.session_workdirs),
            loaded(Some(r@)) == without_native(self@.session_workdirs),
    {
        durable_text(&self.session_workdirs)
    }

    /// The project of each thread, as the file keeps it.
    pub fn save_projects(&self) -> (r: TextMap<ProjectContext>)
        requires
            self.wf(),
        ensures
            r.wf(),
            r@ == without_native(self@.session_projects),
    {
        filter_native_keys_projects_map(&self.session_projects)
    }
}

} // verus!
