//! What the broker knows of a dispatch that it admitted.

use vstd::prelude::*;

verus! {

/// The trusted identity of one native workflow dispatch.
#[derive(Debug, Clone, PartialEq, Eq)]
pub struct NativeWorkflowMetadata {
    pub dispatch_id: String,
    pub conversation_key: String,
    pub workflow_run_id: String,
    pub task_id: String,
    pub role: String,
    pub agent: String,
    pub lease_id: String,
    pub lease_generation: u64,
    pub expected_revision: u64,
    pub language: Option<String>,
    pub project_id: Option<String>,
    pub project_root: Option<String>,
}

} // verus!
