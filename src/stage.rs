//! Lifecycle stage detection and the fixed table of next actions.

use vstd::prelude::*;
use crate::model::{ArtifactStatus, AutomationLevel, NextAction, ProjectType, Stage};

verus! {

/// The stage that the presence of the four artifacts and of implementation
/// artifacts implies: the first missing artifact decides, in order.
pub open spec fn stage_of(
    constitution: bool,
    spec: bool,
    plan: bool,
    tasks: bool,
    implementation: bool,
) -> Stage {
    if !constitution {
        Stage::Bootstrap
    } else if !spec {
        Stage::Specify
    } else if !plan {
        Stage::Plan
    } else if !tasks {
        Stage::Tasks
    } else if !implementation {
        Stage::Implement
    } else {
        Stage::Test
    }
}

/// No implementation artifacts are recognised for any project type yet, so
/// a project whose four artifacts are present is in implementation.
pub open spec fn implementation_present(project_type: ProjectType) -> bool {
    false
}

/// The stage of a project with the given artifacts.
pub open spec fn detected_stage(artifacts: ArtifactStatus, project_type: ProjectType) -> Stage {
    stage_of(
        artifacts.constitution is Some,
        artifacts.spec is Some,
        artifacts.plan is Some,
        artifacts.tasks is Some,
        implementation_present(project_type),
    )
}

/// Stage from the presence of each artifact and of implementation artifacts.
pub fn stage_from_presence(
    constitution: bool,
    spec: bool,
    plan: bool,
    tasks: bool,
    implementation: bool,
) -> (r: Stage)
    ensures
        r == stage_of(constitution, spec, plan, tasks, implementation),
{
    if !constitution {
        Stage::Bootstrap
    } else if !spec {
        Stage::Specify
    } else if !plan {
        Stage::Plan
    } else if !tasks {
        Stage::Tasks
    } else if !implementation {
        Stage::Implement
    } else {
        Stage::Test
    }
}

/// Detect the current stage of a project from its artifacts.
pub fn detect_stage(artifacts: &ArtifactStatus, project_type: &ProjectType) -> (r: Stage)
    ensures
        r == detected_stage(*artifacts, *project_type),
{
    stage_from_presence(
        artifacts.constitution.is_some(),
        artifacts.spec.is_some(),
        artifacts.plan.is_some(),
        artifacts.tasks.is_some(),
        has_implementation_artifacts(artifacts, project_type),
    )
}

fn has_implementation_artifacts(artifacts: &ArtifactStatus, project_type: &ProjectType) -> (r: bool)
    ensures
        r == implementation_present(*project_type),
{
    match project_type {
        ProjectType::Rust => false,
        ProjectType::Node => false,
        ProjectType::Python => false,
        ProjectType::Go => false,
        _ => false,
    }
}

/// Command, description, whether it may run unattended, and its risk level,
/// for each stage.
pub open spec fn next_action_of(stage: Stage) -> (Seq<char>, Seq<char>, bool, AutomationLevel) {
    match stage {
        Stage::Bootstrap => (
            "/speckit.constitution"@,
            "Create project constitution to establish core values and principles"@,
            false,
            AutomationLevel::L2,
        ),
        Stage::Specify => (
            "/speckit.specify"@,
            "Create specification with user stories and requirements"@,
            false,
            AutomationLevel::L2,
        ),
        Stage::Plan => (
            "/speckit.plan"@,
            "Create implementation plan with technical design"@,
            false,
            AutomationLevel::L2,
        ),
        Stage::Tasks => (
            "/speckit.tasks"@,
            "Generate task breakdown for implementation"@,
            true,
            AutomationLevel::L1,
        ),
        Stage::Implement => (
            "/speckit.implement"@,
            "Begin implementation of tasks"@,
            false,
            AutomationLevel::L3,
        ),
        Stage::Test => (
            "Run tests and verify implementation"@,
            "Execute test suite and validate functionality"@,
            true,
            AutomationLevel::L1,
        ),
        Stage::Review => (
            "Review code and documentation"@,
            "Perform code review and quality checks"@,
            false,
            AutomationLevel::L1,
        ),
        Stage::Done => (
            "Project complete"@,
            "All stages completed successfully"@,
            false,
            AutomationLevel::L0,
        ),
    }
}

/// Whether an action agrees with the table entry of a stage.
pub open spec fn is_next_action(a: NextAction, stage: Stage) -> bool {
    let (command, description, automated, risk) = next_action_of(stage);
    a.command@ == command && a.description@ == description && a.automated == automated
        && a.risk_level == risk
}

fn action(command: &str, description: &str, automated: bool, risk_level: AutomationLevel) -> (r: NextAction)
    ensures
        r.command@ == command@,
        r.description@ == description@,
        r.automated == automated,
        r.risk_level == risk_level,
{
    NextAction {
        command: String::from_str(command),
        description: String::from_str(description),
        automated,
        risk_level,
    }
}

/// The next action recommended for a stage.
pub fn get_next_action(stage: &Stage) -> (r: NextAction)
    ensures
        is_next_action(r, *stage),
{
    match stage {
        Stage::Bootstrap => action(
            "/speckit.constitution",
            "Create project constitution to establish core values and principles",
            false,
            AutomationLevel::L2,
        ),
        Stage::Specify => action(
            "/speckit.specify",
            "Create specification with user stories and requirements",
            false,
            AutomationLevel::L2,
        ),
        Stage::Plan => action(
            "/speckit.plan",
            "Create implementation plan with technical design",
            false,
            AutomationLevel::L2,
        ),
        Stage::Tasks => action(
            "/speckit.tasks",
            "Generate task breakdown for implementation",
            true,
            AutomationLevel::L1,
        ),
        Stage::Implement => action(
            "/speckit.implement",
            "Begin implementation of tasks",
            false,
            AutomationLevel::L3,
        ),
        Stage::Test => action(
            "Run tests and verify implementation",
            "Execute test suite and validate functionality",
            true,
            AutomationLevel::L1,
        ),
        Stage::Review => action(
            "Review code and documentation",
            "Perform code review and quality checks",
            false,
            AutomationLevel::L1,
        ),
        Stage::Done => action(
            "Project complete",
            "All stages completed successfully",
            false,
            AutomationLevel::L0,
        ),
    }
}

/// Stages in which a person has to act before the project can move on.
pub open spec fn attention_needed(stage: Stage) -> bool {
    stage == Stage::Bootstrap || stage == Stage::Specify || stage == Stage::Plan
        || stage == Stage::Review
}

/// Check if a project needs immediate human attention.
pub fn needs_human_attention(stage: &Stage) -> (r: bool)
    ensures
        r == attention_needed(*stage),
{
    match stage {
        Stage::Bootstrap | Stage::Specify | Stage::Plan | Stage::Review => true,
        _ => false,
    }
}

/// A sentence describing each stage.
pub open spec fn stage_text(stage: Stage) -> Seq<char> {
    match stage {
        Stage::Bootstrap => "Needs constitution - establish project identity"@,
        Stage::Specify => "Needs specification - define requirements"@,
        Stage::Plan => "Needs plan - design technical approach"@,
        Stage::Tasks => "Needs tasks - break down work items"@,
        Stage::Implement => "In implementation - coding in progress"@,
        Stage::Test => "In testing - validating functionality"@,
        Stage::Review => "In review - awaiting approval"@,
        Stage::Done => "Complete - all stages finished"@,
    }
}

/// Get a human-readable description of the stage.
pub fn stage_description(stage: &Stage) -> (r: &'static str)
    ensures
        r@ == stage_text(*stage),
{
    match stage {
        Stage::Bootstrap => "Needs constitution - establish project identity",
        Stage::Specify => "Needs specification - define requirements",
        Stage::Plan => "Needs plan - design technical approach",
        Stage::Tasks => "Needs tasks - break down work items",
        Stage::Implement => "In implementation - coding in progress",
        Stage::Test => "In testing - validating functionality",
        Stage::Review => "In review - awaiting approval",
        Stage::Done => "Complete - all stages finished",
    }
}

/// The stage whose lower-case name is `name`.
pub open spec fn stage_by_name(name: Seq<char>) -> Option<Stage> {
    if name == "bootstrap"@ {
        Some(Stage::Bootstrap)
    } else if name == "specify"@ {
        Some(Stage::Specify)
    } else if name == "plan"@ {
        Some(Stage::Plan)
    } else if name == "tasks"@ {
        Some(Stage::Tasks)
    } else if name == "implement"@ {
        Some(Stage::Implement)
    } else if name == "test"@ {
        Some(Stage::Test)
    } else if name == "review"@ {
        Some(Stage::Review)
    } else if name == "done"@ {
        Some(Stage::Done)
    } else {
        None
    }
}

fn same_text(s: &String, lit: &str) -> (r: bool)
    ensures
        r == (s@ == lit@),
{
    let t = String::from_str(lit);
    *s == t
}

/// Find a stage by its lower-case name.
pub fn stage_named(name: &str) -> (r: Option<Stage>)
    ensures
        r == stage_by_name(name@),
{
    let s = String::from_str(name);
    if same_text(&s, "bootstrap") {
        Some(Stage::Bootstrap)
    } else if same_text(&s, "specify") {
        Some(Stage::Specify)
    } else if same_text(&s, "plan") {
        Some(Stage::Plan)
    } else if same_text(&s, "tasks") {
        Some(Stage::Tasks)
    } else if same_text(&s, "implement") {
        Some(Stage::Implement)
    } else if same_text(&s, "test") {
        Some(Stage::Test)
    } else if same_text(&s, "review") {
        Some(Stage::Review)
    } else if same_text(&s, "done") {
        Some(Stage::Done)
    } else {
        None
    }
}

/// Stage detection depends on nothing but the five presence signals: two
/// artifact sets that agree on them get the same stage.
pub proof fn lemma_stage_determined_by_presence(
    a: ArtifactStatus,
    b: ArtifactStatus,
    ta: ProjectType,
    tb: ProjectType,
)
    requires
        (a.constitution is Some) == (b.constitution is Some),
        (a.spec is Some) == (b.spec is Some),
        (a.plan is Some) == (b.plan is Some),
        (a.tasks is Some) == (b.tasks is Some),
        implementation_present(ta) == implementation_present(tb),
    ensures
        detected_stage(a, ta) == detected_stage(b, tb),
{
}

} // verus!
