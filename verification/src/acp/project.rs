//! The project that a session is bound to.

use vstd::prelude::*;
use vstd::string::*;

use crate::paths::{is_same_path, same_path};
use crate::text::same_text;

verus! {

/// A project's identity and where its files lie. A project without an id is
/// anonymous: a directory that pins nothing.
#[derive(Debug, Clone, PartialEq, Eq)]
pub struct ProjectContext {
    pub project_id: String,
    pub project_root: String,
}

/// A project context, over texts.
pub struct ProjectText {
    pub project_id: Seq<char>,
    pub project_root: Seq<char>,
}

impl View for ProjectContext {
    type V = ProjectText;

    open spec fn view(&self) -> ProjectText {
        ProjectText { project_id: self.project_id@, project_root: self.project_root@ }
    }
}

pub open spec fn opt_project(p: Option<&ProjectContext>) -> Option<ProjectText> {
    match p {
        Some(p) => Some(p@),
        None => None,
    }
}

impl ProjectText {
    pub open spec fn anonymous(self) -> bool {
        self.project_id.len() == 0
    }

    /// The same project: the same id, and roots that are the same path.
    pub open spec fn same(self, other: ProjectText) -> bool {
        self.project_id == other.project_id && same_path(self.project_root, other.project_root)
    }
}

/// A project that binds its session.
pub open spec fn pinned(p: Option<ProjectText>) -> bool {
    p is Some && !p->0.anonymous()
}

impl ProjectContext {
    /// A directory that pins nothing.
    pub fn anonymous(project_root: String) -> (r: ProjectContext)
        ensures
            r@.anonymous(),
            r@.project_root == project_root@,
    {
        ProjectContext { project_id: String::new(), project_root }
    }

    pub fn is_anonymous(&self) -> (r: bool)
        ensures
            r == self@.anonymous(),
    {
        self.project_id.as_str().is_empty()
    }

    /// Whether two contexts are the same project.
    pub fn is_same(&self, other: &ProjectContext) -> (r: bool)
        ensures
            r == self@.same(other@),
    {
        same_text(self.project_id.as_str(), other.project_id.as_str()) && is_same_path(
            self.project_root.as_str(),
            other.project_root.as_str(),
        )
    }

    pub fn copied(&self) -> (r: ProjectContext)
        ensures
            r@ == self@,
    {
        ProjectContext {
            project_id: self.project_id.clone(),
            project_root: self.project_root.clone(),
        }
    }
}

/// Whether a project binds its session, so that its root has to be canonical.
pub fn is_pinned(project: Option<&ProjectContext>) -> (r: bool)
    ensures
        r == pinned(opt_project(project)),
{
    match project {
        Some(p) => !p.is_anonymous(),
        None => false,
    }
}

} // verus!
