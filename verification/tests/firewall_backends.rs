use udp_knock::config::Config;
use udp_knock::firewall::linux::LinuxFirewall;
use udp_knock::firewall::traits::create_firewall_manager;
use udp_knock::firewall::{get_firewall_manager, FirewallBackend, FirewallError, FirewallManager};

#[test]
fn linux_rules_lifecycle() {
    let mut fw = LinuxFirewall::new();
    assert!(fw.list_rules().unwrap().is_empty());
    fw.create_rule("ssh", "wan", "lan", "tcp", 22, None).unwrap();
    fw.create_rule("web", "wan", "lan", "tcp", 80, Some("in")).unwrap();
    let rules = fw.list_rules().unwrap();
    assert_eq!(rules.len(), 2);
    assert_eq!(rules[0].name, "ssh");
    assert_eq!(rules[0].port, 22);
    assert!(rules[0].enabled);

    fw.disable_rule("ssh", None).unwrap();
    let status = fw.get_status().unwrap();
    assert!(status.active);
    assert_eq!(status.platform, "Linux (Placeholder)");
    assert_eq!(status.total_rules, 2);
    assert_eq!(status.active_rules, 1);

    fw.enable_rule("ssh", None).unwrap();
    assert_eq!(fw.get_status().unwrap().active_rules, 2);

    fw.delete_rule("ssh").unwrap();
    let rules = fw.list_rules().unwrap();
    assert_eq!(rules.len(), 1);
    assert_eq!(rules[0].name, "web");
}

#[test]
fn linux_create_replaces_rule_of_same_name() {
    let mut fw = LinuxFirewall::new();
    fw.create_rule("ssh", "wan", "lan", "tcp", 22, None).unwrap();
    fw.create_rule("web", "wan", "lan", "tcp", 80, None).unwrap();
    fw.create_rule("ssh", "any", "lan", "udp", 2222, None).unwrap();
    let rules = fw.list_rules().unwrap();
    assert_eq!(rules.len(), 2);
    assert_eq!(rules[0].name, "web");
    assert_eq!(rules[1].name, "ssh");
    assert_eq!(rules[1].port, 2222);
    assert_eq!(rules[1].proto, "udp");
}

#[test]
fn linux_missing_rules_are_reported() {
    let mut fw = LinuxFirewall::new();
    assert_eq!(fw.enable_rule("nope", None), Err(FirewallError::RuleNotFound("nope".to_string())));
    assert_eq!(fw.disable_rule("nope", None), Err(FirewallError::RuleNotFound("nope".to_string())));
    assert_eq!(fw.delete_rule("nope"), Err(FirewallError::RuleNotFound("nope".to_string())));
}

#[test]
fn linux_update_is_not_supported() {
    let mut fw = LinuxFirewall::new();
    match fw.update_rule("x", None, "1.2.3.*", "1.2.3.4", None, None, None, None, None, None, None) {
        Err(FirewallError::NotImplemented(m)) => assert_eq!(m, "update_rule not supported on this platform"),
        _ => panic!("expected NotImplemented"),
    }
    match fw.verify_rule("x", None, &vec![], false) {
        Err(FirewallError::NotImplemented(m)) => assert_eq!(m, "verify_rule not supported on this platform"),
        _ => panic!("expected NotImplemented"),
    }
}

#[test]
fn error_messages() {
    assert_eq!(FirewallError::RuleNotFound("a".to_string()).message(), "Rule not found: a");
    assert_eq!(FirewallError::CommandFailed("b".to_string()).message(), "Firewall command failed: b");
    assert_eq!(FirewallError::NotImplemented("c".to_string()).message(), "Feature not implemented: c");
    assert_eq!(FirewallError::InvalidParameter("d".to_string()).message(), "Invalid parameter: d");
}

#[test]
fn backend_by_platform_name() {
    assert!(matches!(get_firewall_manager("linux"), FirewallBackend::Linux(_)));
    assert!(matches!(get_firewall_manager("LINUX"), FirewallBackend::Linux(_)));
    assert!(matches!(get_firewall_manager("Windows"), FirewallBackend::Windows(_)));
    assert!(matches!(get_firewall_manager("openwrt"), FirewallBackend::OpenWrt(_)));
    assert!(matches!(get_firewall_manager("macos"), FirewallBackend::OpenWrt(_)));
    assert!(matches!(get_firewall_manager(""), FirewallBackend::OpenWrt(_)));
}

#[test]
fn configured_manager_is_refused_without_back_ends() {
    let config = Config::default();
    let expected = format!(
        "不支持的防火墙类型: {} (平台: {})",
        config.server.firewall.firewall_type, config.platform
    );
    match create_firewall_manager(&config) {
        Err(m) => assert_eq!(m, expected),
        Ok(_) => panic!("no back end is available"),
    }
}

#[test]
fn back_ends_start_empty() {
    let linux = LinuxFirewall::default();
    assert!(linux.list_rules().unwrap().is_empty());
    let windows = udp_knock::firewall::windows::WindowsFirewall::default();
    match windows.list_rules(&[Err(FirewallError::CommandFailed("x".to_string()))]) {
        udp_knock::firewall::windows::NetshStep::Done(Ok(v)) => assert!(v.is_empty()),
        _ => panic!("expected the fallback list"),
    }
}
