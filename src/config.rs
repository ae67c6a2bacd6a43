//! The global configuration record and its defaults.

use vstd::prelude::*;
use crate::model::AutomationLevel;
use crate::priority::{PriorityWeights, PRIORITY_SCALE};

verus! {

/// Settings that hold for every root; `attention_threshold` is in units of
/// `1/PRIORITY_SCALE` priority point.
#[derive(Debug)]
pub struct GlobalConfig {
    pub weights: PriorityWeights,
    pub attention_threshold: i64,
    pub agent_priority: Vec<String>,
    pub default_editor: String,
    pub qdrant_url: String,
    pub automation_level: AutomationLevel,
    pub dry_run_default: bool,
    pub scan_depth: u8,
    pub watch_interval_secs: u64,
    pub max_projects: Option<u32>,
}

impl Default for GlobalConfig {
    fn default() -> (r: GlobalConfig)
        ensures
            r.weights == PriorityWeights::default_spec(),
            r.attention_threshold == 50 * PRIORITY_SCALE,
            r.agent_priority@.len() == 3,
            r.agent_priority@[0]@ == "cursor"@,
            r.agent_priority@[1]@ == "nvim"@,
            r.agent_priority@[2]@ == "bash"@,
            r.default_editor@ == "nvim"@,
            r.qdrant_url@ == "http://localhost:6333"@,
            r.automation_level == AutomationLevel::L1,
            r.dry_run_default,
            r.scan_depth == 5,
            r.watch_interval_secs == 5,
            r.max_projects is None,
    {
        let mut agent_priority: Vec<String> = Vec::new();
        agent_priority.push(String::from_str("cursor"));
        agent_priority.push(String::from_str("nvim"));
        agent_priority.push(String::from_str("bash"));
        GlobalConfig {
            weights: PriorityWeights::default(),
            attention_threshold: 50 * PRIORITY_SCALE,
            agent_priority,
            default_editor: String::from_str("nvim"),
            qdrant_url: String::from_str("http://localhost:6333"),
            automation_level: AutomationLevel::L1,
            dry_run_default: true,
            scan_depth: 5,
            watch_interval_secs: 5,
            max_projects: None,
        }
    }
}

impl GlobalConfig {
    /// Seconds between two scans in watch mode.
    pub fn watch_interval(&self) -> (r: u64)
        ensures
            r == self.watch_interval_secs,
    {
        self.watch_interval_secs
    }
}

} // verus!
