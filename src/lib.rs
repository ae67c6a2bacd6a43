//! Inventory of specification-driven projects: artifact discovery, task
//! ledger parsing, lifecycle stage detection, priority scoring and the
//! freshness rule of the status cache.

mod model;

pub mod artifacts;
pub mod config;
pub mod finder;
pub mod git;
pub mod parser;
pub mod portfolio;
pub mod priority;
pub mod report;
pub mod stage;
pub mod state;
pub mod text;

pub use model::{
    ArtifactStatus, AutomationLevel, FileInfo, GitStatus, HumanRequirement, NextAction,
    ProjectType, Stage, TaskSummary,
};
