use udp_knock::firewall::windows::WindowsFirewall;

#[test]
fn test_ip_to_u32() {
    let firewall = WindowsFirewall::new();
    let parts = [192, 168, 1, 1];
    assert_eq!(firewall.ip_to_u32(&parts), 0xC0A80101);
}

#[test]
fn test_cidr_match() {
    let firewall = WindowsFirewall::new();
    assert!(firewall.cidr_match("192.168.0.0/24", "192.168.0.1"));
    assert!(firewall.cidr_match("192.168.0.0/24", "192.168.0.254"));
    assert!(!firewall.cidr_match("192.168.0.0/24", "192.168.1.1"));
    assert!(firewall.cidr_match("10.0.0.0/8", "10.255.255.255"));
    assert!(!firewall.cidr_match("10.0.0.0/8", "11.0.0.1"));
}

#[test]
fn test_range_match() {
    let firewall = WindowsFirewall::new();
    assert!(firewall.range_match("192.168.0.1-192.168.0.10", "192.168.0.5"));
    assert!(!firewall.range_match("192.168.0.1-192.168.0.10", "192.168.0.20"));
    assert!(firewall.range_match("10.0.0.1-10.0.0.100", "10.0.0.50"));
}

#[test]
fn test_wildcard_match() {
    let firewall = WindowsFirewall::new();
    assert!(firewall.wildcard_match("192.168.*.*", "192.168.1.1"));
    assert!(firewall.wildcard_match("192.168.*.*", "192.168.255.255"));
    assert!(!firewall.wildcard_match("192.168.*.*", "192.169.1.1"));
    assert!(firewall.wildcard_match("*.168.1.*", "192.168.1.100"));
}

#[test]
fn test_ip_match() {
    let firewall = WindowsFirewall::new();

    assert!(firewall.ip_match("192.168.1.1", "192.168.1.1"));
    assert!(!firewall.ip_match("192.168.1.1", "192.168.1.2"));

    assert!(firewall.ip_match("192.168.0.0/24", "192.168.0.100"));
    assert!(!firewall.ip_match("192.168.0.0/24", "192.168.1.100"));

    assert!(firewall.ip_match("192.168.0.1-192.168.0.10", "192.168.0.5"));
    assert!(!firewall.ip_match("192.168.0.1-192.168.0.10", "192.168.0.20"));

    assert!(firewall.ip_match("192.168.*.*", "192.168.1.1"));
    assert!(!firewall.ip_match("192.168.*.*", "192.169.1.1"));

    assert!(firewall.ip_match("192.168.0.1,192.168.0.2", "192.168.0.1"));
    assert!(firewall.ip_match("192.168.0.1,192.168.0.2", "192.168.0.2"));
    assert!(!firewall.ip_match("192.168.0.1,192.168.0.2", "192.168.0.3"));
}

#[test]
fn test_is_ip_in_list() {
    let firewall = WindowsFirewall::new();
    let ip_list = vec![
        "192.168.0.0/24".to_string(),
        "10.0.0.1".to_string(),
        "172.16.*.*".to_string(),
    ];

    assert!(firewall.is_ip_in_list("192.168.0.100", &ip_list));
    assert!(firewall.is_ip_in_list("10.0.0.1", &ip_list));
    assert!(firewall.is_ip_in_list("172.16.1.1", &ip_list));
    assert!(!firewall.is_ip_in_list("192.168.1.1", &ip_list));
    assert!(!firewall.is_ip_in_list("10.0.0.2", &ip_list));
}

#[test]
fn ip_str_to_u32_skips_unparsable_pieces() {
    let firewall = WindowsFirewall::new();
    assert_eq!(firewall.ip_str_to_u32("10.0.0.1"), Some(0x0A000001));
    assert_eq!(firewall.ip_str_to_u32("+10.0.x.0.1"), Some(0x0A000001));
    assert_eq!(firewall.ip_str_to_u32("10.0.1"), None);
    assert_eq!(firewall.ip_str_to_u32("10.0.0.256"), None);
}

#[test]
fn cidr_edges() {
    let firewall = WindowsFirewall::new();
    assert!(firewall.cidr_match("1.2.3.4/0", "200.1.1.1"));
    assert!(firewall.cidr_match("1.2.3.4/32", "1.2.3.4"));
    assert!(!firewall.cidr_match("1.2.3.4/32", "1.2.3.5"));
    assert!(!firewall.cidr_match("1.2.3.4/33", "1.2.3.4"));
    assert!(!firewall.cidr_match("1.2.3.4/8/8", "1.2.3.4"));
}

#[test]
fn normalize_and_pattern() {
    let firewall = WindowsFirewall::new();
    assert_eq!(firewall.normalize_single_ip(" 192.168.1.133/32 "), "192.168.1.133");
    assert_eq!(firewall.normalize_single_ip("192.168.1.0/24"), "192.168.1.0/24");
    assert!(firewall.ip_matches_pattern("192.168.1.133/32", "192.168.1.0/24"));
    assert!(firewall.ip_matches_pattern("192.168.1.133/32", "192.168.1.133"));
    assert!(firewall.ip_matches_pattern("192.168.1.133", "192.168.1."));
    assert!(firewall.ip_matches_pattern("192.168.1.133", "192.168.*.*"));
    assert!(firewall.ip_matches_pattern("192.168.1.133", "192.168.1.100-192.168.1.200"));
    assert!(!firewall.ip_matches_pattern("192.168.1.133", "   "));
    assert!(!firewall.ip_matches_pattern("10.0.0.1", "192.168.1.0/24"));
}

#[test]
fn any_values() {
    let firewall = WindowsFirewall::new();
    assert!(firewall.is_any_value("  ANY "));
    assert!(firewall.is_any_value(""));
    assert!(firewall.is_any_value("*"));
    assert!(firewall.is_any_value("任何"));
    assert!(!firewall.is_any_value("10.0.0.1"));
}

#[test]
fn ip_lists_compare() {
    let firewall = WindowsFirewall::new();
    let e = vec!["192.168.0.0/24".to_string()];
    let a = vec!["192.168.0.7".to_string(), "192.168.0.9".to_string()];
    assert!(firewall.compare_ip_lists(&e, &a));
    let b = vec!["192.168.0.7".to_string(), "10.0.0.9".to_string()];
    assert!(!firewall.compare_ip_lists(&e, &b));
    assert!(firewall.compare_ip_lists(&[], &[]));
    assert!(!firewall.compare_ip_lists(&e, &[]));
    let any = vec!["any".to_string()];
    assert!(firewall.is_ip_matched("any", &a));
    assert!(!firewall.is_ip_matched("any", &[]));
    assert!(!firewall.compare_ip_lists(&any, &a));
    assert!(firewall.compare_ip_lists(&b, &b));
    assert!(firewall.compare_ip_lists(&any, &any));
}
