//! Project records, the assessment that builds one from what was gathered
//! about a project, and the portfolio snapshot with its summary.

use vstd::prelude::*;
use vstd::arithmetic::div_mod::{
    lemma_fundamental_div_mod, lemma_fundamental_div_mod_converse, lemma_mod_pos_bound,
};
use crate::model::{
    ArtifactStatus, GitStatus, HumanRequirement, NextAction, ProjectType, Stage, TaskSummary,
};
use crate::parser::clamp_u32;
use crate::priority::{
    calculate_risk, detect_human_requirements, human_requirements, priority_value, risk_of,
    stale_days, PriorityCalculator, PriorityWeights, PRIORITY_SCALE,
};
use crate::stage::{detect_stage, detected_stage, get_next_action, is_next_action};
use crate::state::ProjectMeta;

verus! {

/// Everything known about one project after a scan; `priority` is in units
/// of `1/PRIORITY_SCALE` point and `updated` in seconds since the Unix epoch.
#[derive(Debug)]
pub struct Project {
    pub id: String,
    pub path: String,
    pub stage: Stage,
    pub next: NextAction,
    pub requires_human: Vec<HumanRequirement>,
    pub priority: i64,
    pub tasks: TaskSummary,
    pub updated: i64,
    pub git: GitStatus,
    pub project_type: ProjectType,
    pub artifacts: ArtifactStatus,
}

/// Impact recorded for a project; 2 when nothing is recorded.
pub open spec fn meta_impact(meta: Option<&ProjectMeta>) -> u8 {
    match meta {
        Some(m) => match m.impact {
            Some(i) => i,
            None => 2,
        },
        None => 2,
    }
}

/// Confidence in a project: 2 once a person approved it, 1 otherwise.
pub open spec fn meta_confidence(meta: Option<&ProjectMeta>) -> u8 {
    match meta {
        Some(m) => if m.approved_by_human {
            2
        } else {
            1
        },
        None => 1,
    }
}

/// A project was last updated when its specification was, or now if it has
/// none.
pub open spec fn last_updated_of(artifacts: ArtifactStatus, now: i64) -> i64 {
    match artifacts.spec {
        Some(f) => f.modified,
        None => now,
    }
}

/// Assemble the record of one project from its artifacts, task ledger,
/// version-control status, project type, error signal and metadata, scoring
/// it with `weights` at time `now`.
pub fn assess_project(
    id: String,
    path: String,
    artifacts: ArtifactStatus,
    tasks: TaskSummary,
    git: GitStatus,
    project_type: ProjectType,
    has_errors: bool,
    meta: Option<&ProjectMeta>,
    weights: PriorityWeights,
    now: i64,
) -> (r: Project)
    ensures
        r.id == id,
        r.path == path,
        r.stage == detected_stage(artifacts, project_type),
        is_next_action(r.next, r.stage),
        r.requires_human@ == human_requirements(r.stage, git.clean, tasks),
        r.priority == priority_value(
            weights,
            r.requires_human@.len() > 0,
            risk_of(has_errors, tasks.parallel_marked, tasks.blocked, git.clean),
            stale_days(last_updated_of(artifacts, now), now),
            meta_impact(meta),
            meta_confidence(meta),
        ),
        r.tasks == tasks,
        r.updated == last_updated_of(artifacts, now),
        r.git == git,
        r.project_type == project_type,
        r.artifacts == artifacts,
{
    let stage = detect_stage(&artifacts, &project_type);
    let risk = calculate_risk(&stage, &git, &tasks, has_errors);
    let requires_human = detect_human_requirements(&stage, &git, &tasks);
    let impact: u8 = match meta {
        Some(m) => match m.impact {
            Some(i) => i,
            None => 2,
        },
        None => 2,
    };
    let confidence: u8 = match meta {
        Some(m) => if m.approved_by_human {
            2
        } else {
            1
        },
        None => 1,
    };
    let updated = match &artifacts.spec {
        Some(f) => f.modified,
        None => now,
    };
    let calculator = PriorityCalculator::new(weights);
    let priority = calculator.calculate(requires_human.as_slice(), risk, updated, impact, confidence, now);
    let next = get_next_action(&stage);
    Project {
        id,
        path,
        stage,
        next,
        requires_human,
        priority,
        tasks,
        updated,
        git,
        project_type,
        artifacts,
    }
}

// ----- the portfolio -----

/// Counts of one scan pass.
#[derive(Debug)]
pub struct ScanStats {
    pub directories_scanned: u32,
    pub projects_found: u32,
    pub scan_time_ms: u64,
    pub errors: Vec<String>,
}

/// Aggregates derived from the projects of a snapshot; `avg_priority` is
/// in units of `1/PRIORITY_SCALE` point, rounded down.
#[derive(Debug)]
pub struct StatusSummary {
    pub needs_attention: u32,
    pub total_projects: u32,
    pub by_stage: Vec<(Stage, u32)>,
    pub total_tasks: u32,
    pub completed_tasks: u32,
    pub avg_priority: i64,
}

/// One scan's result: when it was made, its counts, the projects in the
/// order they were found, and their summary.
#[derive(Debug)]
pub struct PortfolioStatus {
    pub generated_at: i64,
    pub scan_stats: ScanStats,
    pub projects: Vec<Project>,
    pub summary: StatusSummary,
}

/// The eight stages in lifecycle order.
pub open spec fn all_stages() -> Seq<Stage> {
    seq![
        Stage::Bootstrap,
        Stage::Specify,
        Stage::Plan,
        Stage::Tasks,
        Stage::Implement,
        Stage::Test,
        Stage::Review,
        Stage::Done,
    ]
}

pub open spec fn stage_count(ps: Seq<Project>, stage: Stage) -> nat
    decreases ps.len(),
{
    if ps.len() == 0 {
        0
    } else {
        stage_count(ps.drop_last(), stage) + if ps.last().stage == stage {
            1nat
        } else {
            0nat
        }
    }
}

pub open spec fn task_total(ps: Seq<Project>) -> nat
    decreases ps.len(),
{
    if ps.len() == 0 {
        0
    } else {
        task_total(ps.drop_last()) + ps.last().tasks.total as nat
    }
}

pub open spec fn task_completed(ps: Seq<Project>) -> nat
    decreases ps.len(),
{
    if ps.len() == 0 {
        0
    } else {
        task_completed(ps.drop_last()) + ps.last().tasks.completed as nat
    }
}

pub open spec fn priority_sum(ps: Seq<Project>) -> int
    decreases ps.len(),
{
    if ps.len() == 0 {
        0
    } else {
        priority_sum(ps.drop_last()) + ps.last().priority
    }
}

/// Projects whose priority is above `threshold`, in units of
/// `1/PRIORITY_SCALE` point.
pub open spec fn attention_count(ps: Seq<Project>, threshold: i64) -> nat
    decreases ps.len(),
{
    if ps.len() == 0 {
        0
    } else {
        attention_count(ps.drop_last(), threshold) + if ps.last().priority > threshold {
            1nat
        } else {
            0nat
        }
    }
}

/// Whether a project's priority is above `threshold`, in units of
/// `1/PRIORITY_SCALE` point.
pub fn needs_attention(project: &Project, threshold: i64) -> (r: bool)
    ensures
        r == (project.priority > threshold),
{
    project.priority > threshold
}

/// Whether a project still has tasks to complete.
pub fn is_incomplete(project: &Project) -> (r: bool)
    ensures
        r == (project.tasks.completed < project.tasks.total),
{
    project.tasks.completed < project.tasks.total
}

/// Mean priority rounded down; 0 for no projects.
pub open spec fn average_priority(ps: Seq<Project>) -> int {
    if ps.len() == 0 {
        0
    } else {
        priority_sum(ps) / (ps.len() as int)
    }
}

/// The summary of `ps` with attention threshold `threshold`, in units of
/// `1/PRIORITY_SCALE` point; counts beyond `u32::MAX` are held there.
pub open spec fn is_summary_of(s: StatusSummary, ps: Seq<Project>, threshold: i64) -> bool {
    &&& s.needs_attention == clamp_u32(attention_count(ps, threshold))
    &&& s.total_projects == clamp_u32(ps.len())
    &&& s.by_stage@.len() == 8
    &&& forall|i: int|
        0 <= i < 8 ==> #[trigger] s.by_stage@[i] == (all_stages()[i], clamp_u32(
            stage_count(ps, all_stages()[i]),
        ))
    &&& s.total_tasks == clamp_u32(task_total(ps))
    &&& s.completed_tasks == clamp_u32(task_completed(ps))
    &&& s.avg_priority == average_priority(ps)
}

fn clamp(n: u64) -> (r: u32)
    ensures
        r == clamp_u32(n as nat),
{
    if n > u32::MAX as u64 {
        u32::MAX
    } else {
        n as u32
    }
}

fn clamp_wide(n: u128) -> (r: u32)
    ensures
        r == clamp_u32(n as nat),
{
    if n > u32::MAX as u128 {
        u32::MAX
    } else {
        n as u32
    }
}

fn count_stage(ps: &Vec<Project>, stage: Stage) -> (r: u32)
    ensures
        r == clamp_u32(stage_count(ps@, stage)),
{
    let mut n: u64 = 0;
    let mut k: usize = 0;
    while k < ps.len()
        invariant
            k <= ps.len(),
            n <= k,
            n == stage_count(ps@.take(k as int), stage),
        decreases ps.len() - k,
    {
        assert(ps@.take(k + 1).drop_last() =~= ps@.take(k as int));
        if ps[k].stage == stage {
            n += 1;
        }
        k += 1;
    }
    assert(ps@.take(k as int) =~= ps@);
    clamp(n)
}

/// Floor of `sum / n` for a mean that fits an `i64`.
fn floor_div(sum: i128, n: usize) -> (r: i64)
    requires
        n > 0,
        -0x8000_0000_0000_0000 * n <= sum <= 0x7fff_ffff_ffff_ffff * n,
    ensures
        r == (sum as int) / (n as int),
{
    let ghost s = sum as int;
    let ghost d = n as int;
    if sum >= 0 {
        let q: u128 = (sum as u128) / (n as u128);
        proof {
            lemma_fundamental_div_mod(s, d);
            lemma_mod_pos_bound(s, d);
            let qi = q as int;
            assert(qi == s / d);
            assert(qi <= 0x7fff_ffff_ffff_ffff) by (nonlinear_arith)
                requires
                    s == d * qi + s % d,
                    0 <= s % d < d,
                    s <= 0x7fff_ffff_ffff_ffff * d,
            ;
        }
        q as i64
    } else {
        let m: u128 = (-sum) as u128;
        proof {
            assert(m <= 0x8000_0000_0000_0000 * d);
            assert(d <= 0xffff_ffff_ffff_ffff) by {
                assert(n <= usize::MAX);
            }
            assert(m + d <= 0x8000_0000_0000_0000 * 0xffff_ffff_ffff_ffff + 0xffff_ffff_ffff_ffff)
                by (nonlinear_arith)
                requires
                    m <= 0x8000_0000_0000_0000 * d,
                    d <= 0xffff_ffff_ffff_ffff,
            ;
        }
        let c: u128 = (m + (n as u128 - 1)) / (n as u128);
        proof {
            let x = (m + (n - 1)) as int;
            let ci = c as int;
            lemma_fundamental_div_mod(x, d);
            lemma_mod_pos_bound(x, d);
            assert(ci == x / d);
            let rem = d - 1 - x % d;
            assert(s == (-ci) * d + rem) by (nonlinear_arith)
                requires
                    x == d * ci + x % d,
                    x == -s + d - 1,
                    rem == d - 1 - x % d,
            ;
            lemma_fundamental_div_mod_converse(s, d, -ci, rem);
            assert(-ci >= -0x8000_0000_0000_0000) by (nonlinear_arith)
                requires
                    s == (-ci) * d + rem,
                    0 <= rem < d,
                    -0x8000_0000_0000_0000 * d <= s,
            ;
        }
        (-(c as i128)) as i64
    }
}

/// Summarise projects: attention count with a threshold in units of
/// `1/PRIORITY_SCALE` point,
/// project and task counts, projects per stage and the mean priority.
pub fn summarize(projects: &Vec<Project>, attention_threshold: i64) -> (r: StatusSummary)
    ensures
        is_summary_of(r, projects@, attention_threshold),
{
    let ps = projects;
    let mut attention: u64 = 0;
    let mut total: u128 = 0;
    let mut completed: u128 = 0;
    let mut sum: i128 = 0;
    let mut k: usize = 0;
    while k < ps.len()
        invariant
            k <= ps.len(),
            attention <= k,
            attention == attention_count(ps@.take(k as int), attention_threshold),
            total <= k * 0xffff_ffff,
            total == task_total(ps@.take(k as int)),
            completed <= k * 0xffff_ffff,
            completed == task_completed(ps@.take(k as int)),
            sum == priority_sum(ps@.take(k as int)),
            -0x8000_0000_0000_0000 * k <= sum <= 0x7fff_ffff_ffff_ffff * k,
        decreases ps.len() - k,
    {
        let p = &ps[k];
        assert(ps@.take(k + 1).drop_last() =~= ps@.take(k as int));
        assert(ps@.take(k + 1).last() == ps@[k as int]);
        proof {
            assert(k < 0x1_0000_0000_0000_0000) by {
                assert(ps@.len() <= usize::MAX);
            }
            assert(k * 0xffff_ffff + 0xffff_ffff < 0x1_0000_0000_0000_0000 * 0x1_0000_0000)
                by (nonlinear_arith)
                requires
                    k < 0x1_0000_0000_0000_0000,
            ;
        }
        if p.priority > attention_threshold {
            attention += 1;
        }
        total = total + p.tasks.total as u128;
        completed = completed + p.tasks.completed as u128;
        sum = sum + p.priority as i128;
        k += 1;
        proof {
            assert(total <= k * 0xffff_ffff) by (nonlinear_arith)
                requires
                    total <= (k - 1) * 0xffff_ffff + 0xffff_ffff,
            ;
            assert(completed <= k * 0xffff_ffff) by (nonlinear_arith)
                requires
                    completed <= (k - 1) * 0xffff_ffff + 0xffff_ffff,
            ;
        }
    }
    assert(ps@.take(k as int) =~= ps@);
    let avg: i64 = if k == 0 {
        0
    } else {
        floor_div(sum, k)
    };
    let mut by_stage: Vec<(Stage, u32)> = Vec::new();
    by_stage.push((Stage::Bootstrap, count_stage(ps, Stage::Bootstrap)));
    by_stage.push((Stage::Specify, count_stage(ps, Stage::Specify)));
    by_stage.push((Stage::Plan, count_stage(ps, Stage::Plan)));
    by_stage.push((Stage::Tasks, count_stage(ps, Stage::Tasks)));
    by_stage.push((Stage::Implement, count_stage(ps, Stage::Implement)));
    by_stage.push((Stage::Test, count_stage(ps, Stage::Test)));
    by_stage.push((Stage::Review, count_stage(ps, Stage::Review)));
    by_stage.push((Stage::Done, count_stage(ps, Stage::Done)));
    let total_projects = clamp(ps.len() as u64);
    StatusSummary {
        needs_attention: clamp(attention),
        total_projects,
        by_stage,
        total_tasks: clamp_wide(total),
        completed_tasks: clamp_wide(completed),
        avg_priority: avg,
    }
}

/// Assemble a snapshot: the summary is computed from `projects`, and the
/// count of projects found is their number.
pub fn build_portfolio(
    generated_at: i64,
    directories_scanned: u32,
    scan_time_ms: u64,
    errors: Vec<String>,
    projects: Vec<Project>,
    attention_threshold: i64,
) -> (r: PortfolioStatus)
    ensures
        r.generated_at == generated_at,
        r.scan_stats.directories_scanned == directories_scanned,
        r.scan_stats.projects_found == clamp_u32(projects@.len()),
        r.scan_stats.scan_time_ms == scan_time_ms,
        r.scan_stats.errors == errors,
        r.projects == projects,
        is_summary_of(r.summary, projects@, attention_threshold),
{
    let summary = summarize(&projects, attention_threshold);
    let projects_found = clamp(projects.len() as u64);
    PortfolioStatus {
        generated_at,
        scan_stats: ScanStats { directories_scanned, projects_found, scan_time_ms, errors },
        projects,
        summary,
    }
}

} // verus!
