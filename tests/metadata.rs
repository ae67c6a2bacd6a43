use skm::config::GlobalConfig;
use skm::priority::PriorityWeights;
use skm::state::{
    is_fresh, parse_bool, parse_u8, MetaError, ProjectMeta, ProjectMetaStore, CACHE_FRESH_SECONDS,
};
use skm::AutomationLevel;

fn command<'a>(m: &'a ProjectMeta, name: &str) -> Option<&'a str> {
    m.custom_commands.iter().find(|(k, _)| k == name).map(|(_, v)| v.as_str())
}

#[test]
fn set_impact_and_approval() {
    let mut store = ProjectMetaStore::default();
    assert_eq!(store.version, "1.0.0");
    assert!(store.set_value("alpha", "impact", "3".to_string()).is_ok());
    assert!(store.set_value("alpha", "approved_by_human", "true".to_string()).is_ok());
    let m = store.get_project("alpha").unwrap();
    assert_eq!(m.impact, Some(3));
    assert!(m.approved_by_human);
}

#[test]
fn invalid_impact_is_refused_and_leaves_value() {
    let mut store = ProjectMetaStore::default();
    store.set_value("alpha", "impact", "2".to_string()).unwrap();
    assert_eq!(
        store.set_value("alpha", "impact", "300".to_string()),
        Err(MetaError::InvalidNumber { value: "300".to_string() })
    );
    assert_eq!(store.get_project("alpha").unwrap().impact, Some(2));
}

#[test]
fn invalid_boolean_is_refused() {
    let mut store = ProjectMetaStore::default();
    assert_eq!(
        store.set_value("alpha", "approved_by_human", "yes".to_string()),
        Err(MetaError::InvalidBool { value: "yes".to_string() })
    );
    assert!(!store.get_project("alpha").unwrap().approved_by_human);
}

#[test]
fn unknown_key_is_refused_but_entry_is_created() {
    let mut store = ProjectMetaStore::default();
    assert_eq!(
        store.set_value("beta", "colour", "red".to_string()),
        Err(MetaError::UnknownKey { key: "colour".to_string() })
    );
    let m = store.get_project("beta").unwrap();
    assert_eq!(m.impact, None);
    assert!(m.custom_commands.is_empty());
}

#[test]
fn agent_and_custom_commands_are_stored() {
    let mut store = ProjectMetaStore::default();
    store.set_value("gamma", "agent_command", "agent --resume".to_string()).unwrap();
    store.set_value("gamma", "command.build", "cargo build".to_string()).unwrap();
    store.set_value("gamma", "command.test", "cargo test".to_string()).unwrap();
    store.set_value("gamma", "command.build", "make".to_string()).unwrap();
    let m = store.get_project("gamma").unwrap();
    assert_eq!(m.agent_command.as_deref(), Some("agent --resume"));
    assert_eq!(command(m, "build"), Some("make"));
    assert_eq!(command(m, "test"), Some("cargo test"));
    assert_eq!(m.custom_commands.len(), 2);
}

#[test]
fn projects_are_kept_apart() {
    let mut store = ProjectMetaStore::default();
    store.set_value("a", "impact", "1".to_string()).unwrap();
    store.set_value("b", "impact", "3".to_string()).unwrap();
    assert_eq!(store.get_project("a").unwrap().impact, Some(1));
    assert_eq!(store.get_project("b").unwrap().impact, Some(3));
    assert!(store.get_project("c").is_none());
}

#[test]
fn get_project_mut_adds_blank_metadata() {
    let mut store = ProjectMetaStore::default();
    {
        let m = store.get_project_mut("delta");
        assert_eq!(m.impact, None);
        m.automation_level = Some(AutomationLevel::L2);
    }
    assert_eq!(store.get_project("delta").unwrap().automation_level, Some(AutomationLevel::L2));
    assert_eq!(store.projects.len(), 1);
    store.get_project_mut("delta");
    assert_eq!(store.projects.len(), 1);
}

#[test]
fn numbers_and_booleans_parse_like_std() {
    for s in ["0", "255", "+7", "007", "256", "", "+", "-1", " 1", "1a"] {
        assert_eq!(parse_u8(s), s.parse::<u8>().ok(), "{:?}", s);
    }
    for s in ["true", "false", "True", "", "1"] {
        assert_eq!(parse_bool(s), s.parse::<bool>().ok(), "{:?}", s);
    }
}

#[test]
fn cache_is_fresh_for_five_minutes() {
    let t = 1_700_000_000;
    assert_eq!(CACHE_FRESH_SECONDS, 300);
    assert!(is_fresh(t, t));
    assert!(is_fresh(t, t + 299));
    assert!(!is_fresh(t, t + 300));
    assert!(!is_fresh(t, t + 86400));
    assert!(is_fresh(i64::MAX, i64::MIN));
    assert!(!is_fresh(i64::MIN, i64::MAX));
}

#[test]
fn default_configuration() {
    let c = GlobalConfig::default();
    assert_eq!(c.weights, PriorityWeights { needs_human: 40, risk: 25, staleness: 15, impact: 15, confidence: 10 });
    assert_eq!(c.attention_threshold, 50 * skm::priority::PRIORITY_SCALE);
    assert_eq!(c.watch_interval(), 5);
    assert_eq!(c.agent_priority, vec!["cursor", "nvim", "bash"]);
    assert_eq!(c.scan_depth, 5);
    assert_eq!(c.watch_interval_secs, 5);
    assert!(c.dry_run_default);
    assert_eq!(c.automation_level, AutomationLevel::L1);
}
