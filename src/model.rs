use vstd::prelude::*;

verus! {

/// The eight lifecycle stages of a project, in order.
#[derive(Debug, Clone, Copy, PartialEq, Eq, Hash, Structural)]
pub enum Stage {
    Bootstrap,
    Specify,
    Plan,
    Tasks,
    Implement,
    Test,
    Review,
    Done,
}

/// How much risk an automated step carries, from read-only to high risk.
#[derive(Debug, Clone, Copy, PartialEq, Eq, Hash, Structural)]
pub enum AutomationLevel {
    L0,
    L1,
    L2,
    L3,
}

/// Why a project needs a person.
#[derive(Debug, Clone, Copy, PartialEq, Eq, Hash, Structural)]
pub enum HumanRequirement {
    Review,
    Input,
    Fix,
    Test,
    Deploy,
    Decision,
}

/// The toolchain a project uses, judged by its manifest files.
#[derive(Debug, Clone, Copy, PartialEq, Eq, Hash, Structural)]
pub enum ProjectType {
    Rust,
    Node,
    Python,
    Go,
    Generic,
    Unknown,
}

/// The step that moves a project out of its current stage.
#[derive(Debug)]
pub struct NextAction {
    pub command: String,
    pub description: String,
    pub automated: bool,
    pub risk_level: AutomationLevel,
}

/// One artifact file; `modified` is in seconds since the Unix epoch and
/// `valid` says that the file could be read and holds more than whitespace.
#[derive(Debug)]
pub struct FileInfo {
    pub path: String,
    pub size: u64,
    pub modified: i64,
    pub valid: bool,
}

impl Clone for FileInfo {
    fn clone(&self) -> (r: Self)
        ensures
            r == *self,
    {
        FileInfo { path: self.path.clone(), size: self.size, modified: self.modified, valid: self.valid }
    }
}

/// The four artifacts resolved for one project.
#[derive(Debug)]
pub struct ArtifactStatus {
    pub constitution: Option<FileInfo>,
    pub spec: Option<FileInfo>,
    pub plan: Option<FileInfo>,
    pub tasks: Option<FileInfo>,
}

impl ArtifactStatus {
    /// The set with no artifact at all.
    pub fn empty() -> (r: ArtifactStatus)
        ensures
            r == ArtifactStatus::empty_spec(),
    {
        ArtifactStatus { constitution: None, spec: None, plan: None, tasks: None }
    }

    pub open spec fn empty_spec() -> ArtifactStatus {
        ArtifactStatus { constitution: None, spec: None, plan: None, tasks: None }
    }

    /// Whether any of the four slots is filled.
    pub open spec fn any_present(self) -> bool {
        self.constitution is Some || self.spec is Some || self.plan is Some || self.tasks is Some
    }
}

/// Task counts read from a task list; `last_activity` is the modification
/// time of the file it was read from, in seconds since the Unix epoch.
#[derive(Debug, Clone, Copy, PartialEq, Eq, Structural)]
pub struct TaskSummary {
    pub total: u32,
    pub completed: u32,
    pub parallel_marked: u32,
    pub blocked: u32,
    pub last_activity: Option<i64>,
}

impl Default for TaskSummary {
    fn default() -> (r: TaskSummary)
        ensures
            r == (TaskSummary { total: 0, completed: 0, parallel_marked: 0, blocked: 0, last_activity: None }),
    {
        TaskSummary { total: 0, completed: 0, parallel_marked: 0, blocked: 0, last_activity: None }
    }
}

/// What version control reports about a project; `last_commit` is in
/// seconds since the Unix epoch.
#[derive(Debug)]
pub struct GitStatus {
    pub is_repo: bool,
    pub branch: Option<String>,
    pub clean: bool,
    pub last_commit: Option<i64>,
    pub ahead: u32,
    pub behind: u32,
}

} // verus!
