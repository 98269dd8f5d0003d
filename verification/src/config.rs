//! Configuration of the autonomous ingress.

use vstd::prelude::*;
use vstd::string::*;

use crate::text::{same_text, views};

verus! {

/// Which agents hand human turns to the runtime, and how the runtime is reached.
#[derive(Debug, Clone, PartialEq, Eq)]
pub struct AutonomousIngressConfig {
    pub aap_agents: Vec<String>,
    pub aap_runtime_url: String,
    /// The environment variable that holds the credential.
    pub aap_credential_env: String,
    pub project_id: String,
    pub request_timeout_seconds: u64,
    /// Turns of every human are handed over, not only those of tech leads.
    pub aap_universal_humans: bool,
}

impl AutonomousIngressConfig {
    pub open spec fn declares(self, agent: Seq<char>) -> bool {
        views(self.aap_agents@).contains(agent)
    }

    /// Whether the agent is one of those that hand turns over.
    pub fn declares_agent(&self, agent: &str) -> (r: bool)
        ensures
            r == self.declares(agent@),
    {
        let mut i: usize = 0;
        while i < self.aap_agents.len()
            invariant
                i <= self.aap_agents.len(),
                forall|j: int| 0 <= j < i ==> #[trigger] views(self.aap_agents@)[j] != agent@,
            decreases self.aap_agents.len() - i,
        {
            assert(views(self.aap_agents@)[i as int] == self.aap_agents[i as int]@);
            if same_text(self.aap_agents[i].as_str(), agent) {
                return true;
            }
            i += 1;
        }
        false
    }
}

} // verus!
