use skm::finder::{detect_project_type, find_projects_in, should_ignore, ProjectMarkers, ProjectScanner, WalkEntry};
use skm::portfolio::{assess_project, build_portfolio, is_incomplete, needs_attention, summarize, Project};
use skm::priority::{PriorityWeights, PRIORITY_SCALE};
use skm::report::{format_requirements, priority_order, truncate};
use skm::state::{ProjectMeta, StatusCache};
use skm::git::not_a_repository;
use skm::{ArtifactStatus, FileInfo, GitStatus, HumanRequirement, ProjectType, Stage, TaskSummary};

const DAY: i64 = 86400;

fn file(path: &str, modified: i64) -> Option<FileInfo> {
    Some(FileInfo { path: path.to_string(), size: 1, modified, valid: true })
}

fn project(id: &str, artifacts: ArtifactStatus, tasks: TaskSummary, clean: bool, now: i64) -> Project {
    let git = GitStatus { clean, ..not_a_repository() };
    assess_project(id.to_string(), format!("/work/{}", id), artifacts, tasks, git, ProjectType::Rust, false, None, PriorityWeights::default(), now)
}

fn no_tasks() -> TaskSummary {
    TaskSummary { total: 0, completed: 0, parallel_marked: 0, blocked: 0, last_activity: None }
}

#[test]
fn assessment_of_a_planned_project() {
    let now = 100 * DAY;
    let artifacts = ArtifactStatus { constitution: file("c.md", 0), spec: file("s.md", now - 2 * DAY), plan: None, tasks: None };
    let p = project("alpha", artifacts, no_tasks(), true, now);
    assert_eq!(p.stage, Stage::Plan);
    assert_eq!(p.requires_human, vec![HumanRequirement::Input]);
    assert_eq!(p.updated, now - 2 * DAY);
    assert_eq!(p.next.command, "/speckit.plan");
    assert_eq!(p.priority, 40 * 2100 + 15 * 300 * 2 + 15 * 21 * 66 - 10 * 1050);
}

#[test]
fn assessment_uses_recorded_impact_and_approval() {
    let now = 100 * DAY;
    let all = ArtifactStatus { constitution: file("c", 0), spec: file("s", now), plan: file("p", 0), tasks: file("t", 0) };
    let tasks = TaskSummary { total: 6, completed: 2, parallel_marked: 4, blocked: 1, last_activity: Some(5) };
    let mut meta = ProjectMeta::default();
    meta.impact = Some(3);
    meta.approved_by_human = true;
    let git = GitStatus { clean: false, ..not_a_repository() };
    let p = assess_project("b".to_string(), "/b".to_string(), all, tasks, git, ProjectType::Go, true, Some(&meta), PriorityWeights::default(), now);
    assert_eq!(p.stage, Stage::Implement);
    assert_eq!(p.requires_human, vec![HumanRequirement::Fix, HumanRequirement::Decision]);
    assert_eq!(p.priority, 40 * 2100 + 25 * 700 * 3 + 15 * 21 * 100 - 10 * 1050 * 2);
    assert_eq!(p.tasks.last_activity, Some(5));
}

#[test]
fn summary_counts_stages_tasks_and_attention() {
    let now = 100 * DAY;
    let t = |total, completed| TaskSummary { total, completed, parallel_marked: 0, blocked: 0, last_activity: None };
    let ps = vec![
        project("a", ArtifactStatus::empty(), t(3, 1), true, now),
        project("b", ArtifactStatus { constitution: file("c", 0), spec: None, plan: None, tasks: None }, t(4, 4), true, now),
        project("c", ArtifactStatus::empty(), no_tasks(), true, now),
    ];
    let sum: i64 = ps.iter().map(|p| p.priority).sum();
    let s = summarize(&ps, 50 * PRIORITY_SCALE);
    assert_eq!(s.total_projects, 3);
    assert_eq!(s.total_tasks, 7);
    assert_eq!(s.completed_tasks, 5);
    assert_eq!(s.by_stage.len(), 8);
    assert_eq!(s.by_stage[0], (Stage::Bootstrap, 2));
    assert_eq!(s.by_stage[1], (Stage::Specify, 1));
    assert_eq!(s.by_stage[7], (Stage::Done, 0));
    assert_eq!(s.avg_priority, sum.div_euclid(3));
    let over = ps.iter().filter(|p| p.priority > 50 * PRIORITY_SCALE).count() as u32;
    assert_eq!(s.needs_attention, over);
    assert_eq!(summarize(&ps, 0).needs_attention, 3);
}

#[test]
fn empty_portfolio_summary() {
    let s = summarize(&vec![], 50 * PRIORITY_SCALE);
    assert_eq!((s.total_projects, s.total_tasks, s.needs_attention, s.avg_priority), (0, 0, 0, 0));
}

#[test]
fn average_priority_rounds_down() {
    let now = 100 * DAY;
    let mut a = project("a", ArtifactStatus::empty(), no_tasks(), true, now);
    let mut b = project("b", ArtifactStatus::empty(), no_tasks(), true, now);
    a.priority = -5;
    b.priority = 2;
    assert_eq!(summarize(&vec![a, b], 0).avg_priority, -2);
}

#[test]
fn snapshot_and_cache_freshness() {
    let now = 100 * DAY;
    let ps = vec![project("a", ArtifactStatus::empty(), no_tasks(), true, now)];
    let snap = build_portfolio(now, 4, 12, vec!["oops".to_string()], ps, 50 * PRIORITY_SCALE);
    assert_eq!(snap.scan_stats.projects_found, 1);
    assert_eq!(snap.scan_stats.directories_scanned, 4);
    assert_eq!(snap.summary.total_projects, 1);
    let cache = StatusCache { last_updated: now, data: snap };
    let cache = cache.fresh_at(now + 299).expect("fresh");
    assert!(cache.fresh_at(now + 300).is_none());
}

#[test]
fn projects_found_once_and_not_inside_specify() {
    let e = |path: &str, name: &str, is_dir: bool, parent: Option<&str>| WalkEntry {
        path: path.to_string(),
        name: name.to_string(),
        is_dir,
        parent: parent.map(|p| p.to_string()),
    };
    let entries = vec![
        e("/w", "w", true, None),
        e("/w/a/.specify", ".specify", true, Some("/w/a")),
        e("/w/a/specs", "specs", true, Some("/w/a")),
        e("/w/a/.specify/specs", "specs", true, Some("/w/a/.specify")),
        e("/w/b/specs", "specs", false, Some("/w/b")),
        e("/w/c/x/.specify/d/.specify", ".specify", true, Some("/w/c/x/.specify/d")),
        e("/w/d/specs", "specs", true, Some("/w/d")),
    ];
    assert_eq!(find_projects_in(&entries), vec!["/w/a".to_string(), "/w/d".to_string()]);
}

#[test]
fn project_type_from_markers() {
    let none = ProjectMarkers { cargo_toml: false, package_json: false, pyproject_toml: false, setup_py: false, go_mod: false, src_dir: false, lib_dir: false };
    assert_eq!(detect_project_type(&none), ProjectType::Unknown);
    assert_eq!(detect_project_type(&ProjectMarkers { cargo_toml: true, package_json: true, ..none }), ProjectType::Rust);
    assert_eq!(detect_project_type(&ProjectMarkers { package_json: true, ..none }), ProjectType::Node);
    assert_eq!(detect_project_type(&ProjectMarkers { setup_py: true, ..none }), ProjectType::Python);
    assert_eq!(detect_project_type(&ProjectMarkers { go_mod: true, src_dir: true, ..none }), ProjectType::Go);
    assert_eq!(detect_project_type(&ProjectMarkers { lib_dir: true, ..none }), ProjectType::Generic);
}

#[test]
fn ignored_directories() {
    for n in ["node_modules", "target", ".git", "dist", "build", "__pycache__"] {
        assert!(should_ignore(n));
    }
    assert!(!should_ignore("src"));
    assert!(!should_ignore("Target"));
}

#[test]
fn scanner_settings() {
    let s = ProjectScanner::new("/w".to_string(), 3);
    assert_eq!(s.max_depth(), 3);
    assert_eq!(s.glob_pattern(), "*/{.specify,specs}");
    let s = s.with_max_depth(9).with_pattern("*/specs".to_string());
    assert_eq!((s.root().as_str(), s.max_depth(), s.glob_pattern().as_str()), ("/w", 9, "*/specs"));
}

#[test]
fn requirement_lists_and_truncation() {
    assert_eq!(format_requirements(&[HumanRequirement::Input, HumanRequirement::Fix]), "Input, Fix");
    assert_eq!(format_requirements(&[]), "");
    assert_eq!(format_requirements(&[HumanRequirement::Decision]), "Decision");
    assert_eq!(truncate("short", 40), "short");
    assert_eq!(truncate("Create implementation plan with technical design", 20), "Create implementa...");
    assert_eq!(truncate("abcdef", 6), "abcdef");
}

#[test]
fn priority_order_is_descending_and_stable() {
    let now = 100 * DAY;
    let mut ps: Vec<Project> = (0..5).map(|i| project(&format!("p{}", i), ArtifactStatus::empty(), no_tasks(), true, now)).collect();
    let priorities = [10, 30, 10, -4, 30];
    for (p, v) in ps.iter_mut().zip(priorities) {
        p.priority = v;
    }
    assert_eq!(priority_order(&ps), vec![1, 4, 0, 2, 3]);
    assert_eq!(priority_order(&vec![]), Vec::<usize>::new());
}

#[test]
fn attention_and_incomplete_filters() {
    let now = 100 * DAY;
    let mut p = project("a", ArtifactStatus::empty(), TaskSummary { total: 2, completed: 1, parallel_marked: 0, blocked: 0, last_activity: None }, true, now);
    p.priority = 50 * PRIORITY_SCALE;
    assert!(!needs_attention(&p, 50 * PRIORITY_SCALE));
    p.priority += 1;
    assert!(needs_attention(&p, 50 * PRIORITY_SCALE));
    assert!(needs_attention(&p, 50 * PRIORITY_SCALE - 1050));
    assert!(is_incomplete(&p));
    p.tasks.completed = 2;
    assert!(!is_incomplete(&p));
}
