use skm::artifacts::{
    check_direct_artifacts, has_any_artifact, is_feature_dir_name, parse_artifacts,
    select_artifacts, validate_content, DirectProbe, FeatureDir,
};
use skm::stage::detect_stage;
use skm::{ArtifactStatus, FileInfo, ProjectType, Stage};

fn file(path: &str, modified: i64) -> Option<FileInfo> {
    Some(FileInfo { path: path.to_string(), size: 10, modified, valid: true })
}

fn path_of(f: &Option<FileInfo>) -> Option<&str> {
    f.as_ref().map(|f| f.path.as_str())
}

fn feature(name: &str, spec: bool, plan: bool, tasks: bool) -> FeatureDir {
    let p = |n: &str| format!("{}/{}", name, n);
    FeatureDir {
        name: name.to_string(),
        is_dir: true,
        artifacts: ArtifactStatus {
            constitution: None,
            spec: if spec { file(&p("specification.md"), 1) } else { None },
            plan: if plan { file(&p("plan.md"), 1) } else { None },
            tasks: if tasks { file(&p("tasks.md"), 1) } else { None },
        },
    }
}

#[test]
fn constitution_and_spec_only_is_plan_stage() {
    let a = ArtifactStatus {
        constitution: file("constitution.md", 1),
        spec: file("specification.md", 1),
        plan: None,
        tasks: None,
    };
    assert_eq!(detect_stage(&a, &ProjectType::Rust), Stage::Plan);
}

#[test]
fn direct_constitution_preferred_over_memory() {
    let both = DirectProbe {
        constitution: file("constitution.md", 1),
        memory_constitution: file("memory/constitution.md", 1),
        spec: None,
        plan: None,
        tasks: None,
    };
    assert_eq!(path_of(&check_direct_artifacts(both).constitution), Some("constitution.md"));
    let memory_only = DirectProbe {
        constitution: None,
        memory_constitution: file("memory/constitution.md", 1),
        spec: None,
        plan: None,
        tasks: file("tasks.md", 1),
    };
    let r = check_direct_artifacts(memory_only);
    assert_eq!(path_of(&r.constitution), Some("memory/constitution.md"));
    assert_eq!(path_of(&r.tasks), Some("tasks.md"));
}

#[test]
fn direct_layout_wins_over_feature_directories() {
    let direct = ArtifactStatus { constitution: None, spec: None, plan: file("plan.md", 1), tasks: None };
    let dirs = vec![feature("001-a", true, true, true)];
    let r = parse_artifacts(direct, &dirs, file("root/constitution.md", 1));
    assert_eq!(path_of(&r.plan), Some("plan.md"));
    assert!(r.spec.is_none() && r.tasks.is_none() && r.constitution.is_none());
}

#[test]
fn latest_numbered_feature_supplies_each_artifact() {
    let dirs = vec![
        feature("002-search", true, false, true),
        feature("010-export", false, true, false),
        feature("001-setup", true, true, true),
        feature("notes", true, true, true),
        feature("12", true, true, true),
        FeatureDir { name: "999-file".to_string(), is_dir: false, artifacts: feature("x", true, true, true).artifacts },
    ];
    let r = parse_artifacts(ArtifactStatus::empty(), &dirs, file("memory/constitution.md", 3));
    assert_eq!(path_of(&r.spec), Some("002-search/specification.md"));
    assert_eq!(path_of(&r.plan), Some("010-export/plan.md"));
    assert_eq!(path_of(&r.tasks), Some("002-search/tasks.md"));
    assert_eq!(path_of(&r.constitution), Some("memory/constitution.md"));
}

#[test]
fn no_artifacts_anywhere_gives_empty_set() {
    let dirs = vec![feature("readme", true, true, true)];
    let r = parse_artifacts(ArtifactStatus::empty(), &dirs, None);
    assert!(!has_any_artifact(&r));
}

#[test]
fn feature_dir_names_start_with_three_digits() {
    assert!(is_feature_dir_name("001-login"));
    assert!(is_feature_dir_name("123"));
    assert!(!is_feature_dir_name("12"));
    assert!(!is_feature_dir_name("1"));
    assert!(!is_feature_dir_name("01a-x"));
    assert!(!is_feature_dir_name("specs"));
    assert!(!is_feature_dir_name(""));
}

#[test]
fn visible_root_used_unless_empty() {
    let visible = ArtifactStatus { constitution: None, spec: file("specs/specification.md", 1), plan: None, tasks: None };
    let hidden = ArtifactStatus { constitution: file(".specify/constitution.md", 1), spec: None, plan: None, tasks: None };
    let r = select_artifacts(visible, hidden);
    assert_eq!(path_of(&r.spec), Some("specs/specification.md"));
    assert!(r.constitution.is_none());
    let hidden = ArtifactStatus { constitution: file(".specify/constitution.md", 1), spec: None, plan: None, tasks: None };
    let r = select_artifacts(ArtifactStatus::empty(), hidden);
    assert_eq!(path_of(&r.constitution), Some(".specify/constitution.md"));
}

#[test]
fn whitespace_only_file_is_not_valid() {
    assert!(!validate_content(" \n\t \u{3000}"));
    assert!(!validate_content(""));
    assert!(validate_content("\n# Spec\n"));
}
