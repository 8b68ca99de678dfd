use brazen::permissions::{apply_grants, Capability, PermissionDecision, PermissionPolicy};
use brazen::profile_store::{permission_grants_from_rows, visit_count_from_db, visit_total_from_db};
use brazen::bootstrap::{apply_profile_overrides, BootstrapOptions};
use brazen::config::AutomationConfig;

#[test]
fn labels_round_trip() {
    for c in [Capability::TerminalExec, Capability::FsRead, Capability::ScreenshotWindow, Capability::DomWrite] {
        assert_eq!(Capability::from_label(c.label()), Some(c));
    }
    for d in [PermissionDecision::Allow, PermissionDecision::Ask, PermissionDecision::Deny] {
        assert_eq!(PermissionDecision::from_label(d.label()), Some(d));
    }
    assert_eq!(Capability::TerminalExec.label(), "terminal-exec");
    assert_eq!(Capability::from_label("teleport"), None);
    assert_eq!(PermissionDecision::from_label("maybe"), None);
}

#[test]
fn default_policy_and_domain_overrides() {
    let mut policy = PermissionPolicy::default();
    assert_eq!(policy.decision_for(&Capability::TerminalExec), PermissionDecision::Deny);
    assert_eq!(policy.decision_for(&Capability::DomRead), PermissionDecision::Ask);
    assert_eq!(policy.decision_for(&Capability::ScreenshotWindow), PermissionDecision::Ask);
    policy.set_domain_decision("example.com", Capability::TerminalExec, PermissionDecision::Allow);
    assert_eq!(policy.decision_for_domain("example.com", &Capability::TerminalExec), PermissionDecision::Allow);
    assert_eq!(policy.decision_for_domain("other.com", &Capability::TerminalExec), PermissionDecision::Deny);
    assert_eq!(policy.decision_for_domain("example.com", &Capability::FsWrite), PermissionDecision::Deny);
}

#[test]
fn db_grant_rows_become_domain_tables() {
    let rows = vec![
        ("example.com".to_string(), "terminal-exec".to_string(), "allow".to_string()),
        ("example.com".to_string(), "bogus".to_string(), "allow".to_string()),
        ("example.com".to_string(), "fs-read".to_string(), "never".to_string()),
        ("other.org".to_string(), "fs-write".to_string(), "ask".to_string()),
        ("example.com".to_string(), "terminal-exec".to_string(), "deny".to_string()),
    ];
    let grants = permission_grants_from_rows(&rows);
    let mut policy = PermissionPolicy::default();
    apply_grants(&mut policy.domain_overrides, &grants);
    assert_eq!(policy.decision_for_domain("example.com", &Capability::TerminalExec), PermissionDecision::Deny);
    assert_eq!(policy.decision_for_domain("other.org", &Capability::FsWrite), PermissionDecision::Ask);
    assert_eq!(policy.decision_for_domain("example.com", &Capability::FsRead), PermissionDecision::Ask);
}

#[test]
fn stored_visit_numbers_are_clamped() {
    assert_eq!(visit_count_from_db(-3), 0);
    assert_eq!(visit_count_from_db(7), 7);
    assert_eq!(visit_count_from_db(4_294_967_297), 1);
    assert_eq!(visit_total_from_db(-1), 0);
    assert_eq!(visit_total_from_db(12), 12);
}

#[test]
fn profile_db_overrides_automation_config() {
    let mut automation = AutomationConfig::default();
    automation.enabled = true;
    let mut desired = AutomationConfig::default();
    desired.bind = "ws://127.0.0.1:0/ws".to_string();
    desired.require_auth = false;
    desired.expose_cache_api = true;
    let mut policy = PermissionPolicy::default();
    let rows = vec![("example.com".to_string(), "fs-read".to_string(), "allow".to_string())];
    let grants = permission_grants_from_rows(&rows);
    apply_profile_overrides(&mut policy, &mut automation, Some(&grants), Some(desired));
    assert_eq!(automation.bind, "ws://127.0.0.1:7942".to_string());
    assert_eq!(automation.require_auth, false);
    assert!(automation.expose_cache_api);
    assert!(automation.enabled);
    assert_eq!(policy.decision_for_domain("example.com", &Capability::FsRead), PermissionDecision::Allow);
    let options = BootstrapOptions::from_path("/etc/brazen.toml".to_string());
    assert_eq!(options.config_path.as_deref(), Some("/etc/brazen.toml"));
}
