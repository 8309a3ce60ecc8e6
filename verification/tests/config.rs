use udp_knock::config::Config;
use udp_knock::config::simple;

#[test]
fn test_default_config() {
    let config = Config::default();
    assert_eq!(config.server.bind_addr, "0.0.0.0:8888");
    assert_eq!(config.security.timestamp_window_secs, 30);
    assert!(!config.debug);
}

#[test]
fn test_openwrt_config() {
    let config = Config::default_openwrt();
    assert_eq!(config.platform, "openwrt");
    assert_eq!(config.server.firewall.firewall_type, "openwrt");
}

#[test]
fn platform_defaults() {
    let linux = Config::default_for_platform("linux").unwrap();
    assert_eq!(linux.server.firewall.firewall_type, "iptables");
    assert_eq!(linux.server.firewall.forward_chain, "FORWARD");
    let windows = Config::default_for_platform("windows").unwrap();
    assert_eq!(windows.server.firewall.default_zone, "Public");
    assert_eq!(windows.server.firewall.input_chain, "Input");
    let other = Config::default_for_platform("macos").unwrap();
    assert_eq!(other.platform, "unknown");
    assert_eq!(other.server.firewall.firewall_type, "auto");
    let openwrt = Config::default_for_platform("openwrt").unwrap();
    assert_eq!(openwrt.server.firewall.output_chain, "output_rule");
    assert_eq!(openwrt.client.timeout_secs, 5);
    assert_eq!(udp_knock::config::default_firewall_type(), "auto");
}

#[test]
fn simple_defaults() {
    let c = simple::Config::default();
    assert_eq!(c.server.bind_addr, "0.0.0.0:9999");
    assert_eq!(c.server.rate_limit, simple::default_rate_limit());
    assert_eq!(c.client.timeout, simple::default_timeout());
    assert_eq!(c.platform, simple::default_platform());
    let w = simple::Config::for_platform(Some("windows"));
    assert_eq!(w.platform, "windows");
    assert!(w.server.allowed_ips.is_empty());
}
