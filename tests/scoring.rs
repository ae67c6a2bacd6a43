use skm::git::{has_recent_error_markers, not_a_repository};
use skm::priority::{
    calculate_risk, detect_human_requirements, has_error_markers, staleness_days,
    PriorityCalculator, PriorityWeights, PRIORITY_SCALE,
};
use skm::stage::{get_next_action, needs_human_attention, stage_description, stage_from_presence, stage_named};
use skm::{AutomationLevel, GitStatus, HumanRequirement, Stage, TaskSummary};

const DAY: i64 = 86400;

fn tasks(total: u32, completed: u32, parallel: u32, blocked: u32) -> TaskSummary {
    TaskSummary { total, completed, parallel_marked: parallel, blocked, last_activity: None }
}

fn git(clean: bool) -> GitStatus {
    GitStatus { is_repo: true, branch: Some("main".to_string()), clean, last_commit: None, ahead: 0, behind: 0 }
}

#[test]
fn worked_priority_example_with_default_weights() {
    let calc = PriorityCalculator::new(PriorityWeights::default());
    let now = 1_700_000_000;
    let p = calc.calculate(&[HumanRequirement::Input], 2, now - 8 * DAY, 2, 1, now);
    assert_eq!(p, 160_790);
    let points = p as f64 / PRIORITY_SCALE as f64;
    assert!((points - 76.57).abs() < 0.01);
}

#[test]
fn priority_terms_add_up_exactly() {
    let calc = PriorityCalculator::new(PriorityWeights::default());
    let now = 1_000 * DAY;
    assert_eq!(calc.calculate(&[], 0, now, 1, 2, now), 15 * 21 * 33 - 10 * 1050 * 2);
    assert_eq!(calc.calculate(&[], 3, now - 3 * DAY - 5, 3, 0, now), 25 * 700 * 3 + 15 * 300 * 3 + 15 * 21 * 100);
    assert_eq!(calc.calculate(&[], 0, now, 9, 0, now), 15 * 21 * 50);
}

#[test]
fn priority_never_falls_with_risk_or_staleness_and_never_rises_with_confidence() {
    let calc = PriorityCalculator::new(PriorityWeights::default());
    let now = 2_000 * DAY;
    let reqs = [HumanRequirement::Fix];
    let mut last = calc.calculate(&reqs, 0, now, 2, 1, now);
    for risk in 1..=3u8 {
        let p = calc.calculate(&reqs, risk, now, 2, 1, now);
        assert!(p >= last);
        last = p;
    }
    let mut last = calc.calculate(&reqs, 1, now, 2, 1, now);
    for days in 1..=10i64 {
        let p = calc.calculate(&reqs, 1, now - days * DAY, 2, 1, now);
        assert!(p >= last);
        last = p;
    }
    let mut last = calc.calculate(&reqs, 1, now, 2, 0, now);
    for confidence in 1..=2u8 {
        let p = calc.calculate(&reqs, 1, now, 2, confidence, now);
        assert!(p <= last);
        last = p;
    }
}

#[test]
fn staleness_counts_whole_days_up_to_seven() {
    assert_eq!(staleness_days(0, DAY - 1), 0);
    assert_eq!(staleness_days(0, DAY), 1);
    assert_eq!(staleness_days(0, 100 * DAY), 7);
    assert_eq!(staleness_days(5 * DAY, 0), 0);
    assert_eq!(staleness_days(i64::MIN, i64::MAX), 7);
}

#[test]
fn risk_counts_conditions_and_caps_at_three() {
    assert_eq!(calculate_risk(&Stage::Test, &git(true), &tasks(5, 1, 3, 0), false), 0);
    assert_eq!(calculate_risk(&Stage::Test, &git(true), &tasks(5, 1, 4, 0), false), 1);
    assert_eq!(calculate_risk(&Stage::Test, &git(false), &tasks(5, 1, 4, 1), false), 3);
    assert_eq!(calculate_risk(&Stage::Test, &git(false), &tasks(5, 1, 4, 1), true), 3);
}

#[test]
fn human_requirements_follow_stage_then_fix_then_decision() {
    assert_eq!(detect_human_requirements(&Stage::Specify, &git(true), &tasks(0, 0, 0, 0)), vec![HumanRequirement::Input]);
    assert_eq!(
        detect_human_requirements(&Stage::Review, &git(false), &tasks(2, 1, 0, 1)),
        vec![HumanRequirement::Review, HumanRequirement::Fix, HumanRequirement::Decision]
    );
    assert_eq!(detect_human_requirements(&Stage::Test, &git(true), &tasks(3, 1, 0, 0)), vec![HumanRequirement::Test]);
    assert_eq!(detect_human_requirements(&Stage::Test, &git(true), &tasks(3, 3, 0, 0)), vec![]);
    assert_eq!(detect_human_requirements(&Stage::Implement, &git(true), &tasks(3, 0, 0, 0)), vec![]);
}

#[test]
fn error_markers_are_not_reported_yet() {
    assert!(!has_error_markers("/tmp/project"));
}

#[test]
fn stage_order_is_fixed() {
    assert_eq!(stage_from_presence(false, true, true, true, true), Stage::Bootstrap);
    assert_eq!(stage_from_presence(true, false, true, true, true), Stage::Specify);
    assert_eq!(stage_from_presence(true, true, false, true, true), Stage::Plan);
    assert_eq!(stage_from_presence(true, true, true, false, true), Stage::Tasks);
    assert_eq!(stage_from_presence(true, true, true, true, false), Stage::Implement);
    assert_eq!(stage_from_presence(true, true, true, true, true), Stage::Test);
    assert_eq!(stage_from_presence(true, true, true, true, true), stage_from_presence(true, true, true, true, true));
}

#[test]
fn next_action_table() {
    let expect = [
        (Stage::Bootstrap, "/speckit.constitution", false, AutomationLevel::L2),
        (Stage::Specify, "/speckit.specify", false, AutomationLevel::L2),
        (Stage::Plan, "/speckit.plan", false, AutomationLevel::L2),
        (Stage::Tasks, "/speckit.tasks", true, AutomationLevel::L1),
        (Stage::Implement, "/speckit.implement", false, AutomationLevel::L3),
        (Stage::Test, "Run tests and verify implementation", true, AutomationLevel::L1),
        (Stage::Review, "Review code and documentation", false, AutomationLevel::L1),
        (Stage::Done, "Project complete", false, AutomationLevel::L0),
    ];
    for (stage, command, automated, risk) in expect {
        let a = get_next_action(&stage);
        assert_eq!(a.command, command);
        assert_eq!(a.automated, automated);
        assert_eq!(a.risk_level, risk);
        assert!(!a.description.is_empty());
    }
}

#[test]
fn attention_and_descriptions_per_stage() {
    let needs = [Stage::Bootstrap, Stage::Specify, Stage::Plan, Stage::Review];
    let not = [Stage::Tasks, Stage::Implement, Stage::Test, Stage::Done];
    for s in needs {
        assert!(needs_human_attention(&s));
    }
    for s in not {
        assert!(!needs_human_attention(&s));
    }
    assert_eq!(stage_description(&Stage::Review), "In review - awaiting approval");
}

#[test]
fn recent_commit_markers_only_in_first_five() {
    let m = |s: &str| Some(s.to_string());
    assert!(has_recent_error_markers(&vec![m("feat: a"), None, m("FIXME later")]));
    assert!(!has_recent_error_markers(&vec![m("a"), m("b"), m("c"), m("d"), m("e"), m("BUG six")]));
    assert!(!has_recent_error_markers(&vec![]));
    let s = not_a_repository();
    assert!(!s.is_repo && s.clean && s.branch.is_none());
}

#[test]
fn stages_are_found_by_lower_case_name() {
    assert_eq!(stage_named("implement"), Some(Stage::Implement));
    assert_eq!(stage_named("done"), Some(Stage::Done));
    assert_eq!(stage_named("Done"), None);
    assert_eq!(stage_named(""), None);
}
