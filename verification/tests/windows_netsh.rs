use udp_knock::firewall::invocation::run_outcome;
use udp_knock::firewall::netsh::{
    parse_remote_ips, parse_rule_details, parse_rule_full_info, parse_rules_listing,
};
use udp_knock::firewall::windows::{NetshStep, WindowsFirewall};
use udp_knock::firewall::FirewallError;

const SHOWN: &str = "\r\nRule Name:                            MyRule\r\n----------------------------------------------------------------------\r\nEnabled:                              Yes\r\nDirection:                            In\r\nProfiles:                             Domain,Private,Public\r\nGrouping:                             \r\nLocalIP:                              Any\r\nRemoteIP:                             192.168.1.10/32,10.0.0.0/8\r\nProtocol:                             TCP\r\nLocalPort:                            3389\r\nRemotePort:                           Any\r\nEdge traversal:                       No\r\nAction:                               Allow\r\nOk.\r\n";

fn words(v: &[&str]) -> Vec<String> {
    v.iter().map(|s| s.to_string()).collect()
}

fn run_args<T>(step: NetshStep<T>) -> Vec<String> {
    match step {
        NetshStep::Run(a) => a,
        NetshStep::Done(_) => panic!("expected a run"),
    }
}

fn done<T>(step: NetshStep<T>) -> Result<T, FirewallError> {
    match step {
        NetshStep::Run(a) => panic!("expected a result, got a run of {:?}", a),
        NetshStep::Done(r) => r,
    }
}

#[test]
fn parses_rule_details() {
    let rule = parse_rule_details("MyRule", SHOWN);
    assert_eq!(rule.name, "MyRule");
    assert!(rule.enabled);
    assert_eq!(rule.proto, "TCP");
    assert_eq!(rule.port, 3389);
    assert_eq!(rule.src, "192.168.1.10/32,10.0.0.0/8");
    assert_eq!(rule.dest, "Any");
}

#[test]
fn parses_remote_ips() {
    assert_eq!(parse_remote_ips(SHOWN), words(&["192.168.1.10/32", "10.0.0.0/8"]));
    assert_eq!(parse_remote_ips("RemoteIP: any\n"), Vec::<String>::new());
    assert_eq!(parse_remote_ips("RemoteIP: Any\n"), words(&["Any"]));
    assert_eq!(parse_remote_ips("远程 IP： 1.2.3.4, * ,5.6.7.8\n"), words(&["1.2.3.4", "5.6.7.8"]));
}

#[test]
fn parses_full_settings() {
    let info = parse_rule_full_info("MyRule", SHOWN);
    assert_eq!(info.name, "MyRule");
    assert!(info.enabled);
    assert_eq!(info.action, "allow");
    assert_eq!(info.protocol, "tcp");
    assert_eq!(info.local_ip, "Any");
    assert_eq!(info.remote_ip, "192.168.1.10/32,10.0.0.0/8");
    assert_eq!(info.local_port, Some(3389));
    assert_eq!(info.remote_port, None);
    assert_eq!(info.description, "");
}

#[test]
fn parses_listing_of_several_rules() {
    let listing = format!("{}\r\nRule Name:   Other\r\nEnabled: No\r\nLocalPort: 53\r\nProtocol: UDP\r\n", SHOWN);
    let rules = parse_rules_listing(&listing);
    assert_eq!(rules.len(), 2);
    assert_eq!(rules[0].name, "MyRule");
    assert!(rules[0].enabled);
    assert_eq!(rules[1].name, "Other");
    assert!(!rules[1].enabled);
    assert_eq!(rules[1].port, 53);
    assert_eq!(rules[1].proto, "UDP");
    assert_eq!(rules[1].src, "any");
}

#[test]
fn classifies_runs() {
    let args = words(&["advfirewall", "firewall", "show", "rule", "name=ssh", "dir=in"]);
    assert_eq!(run_outcome(&args, true, "out".to_string(), ""), Ok("out".to_string()));
    assert_eq!(
        run_outcome(&args, false, "No rules match the specified criteria.\r\n".to_string(), ""),
        Err(FirewallError::RuleNotFound("ssh".to_string()))
    );
    assert_eq!(
        run_outcome(&args, false, String::new(), "  access denied \n"),
        Err(FirewallError::CommandFailed(format!("netsh {:?} failed: access denied", args)))
    );
    assert_eq!(
        run_outcome(&args, false, String::new(), ""),
        Err(FirewallError::CommandFailed(format!(
            "netsh {:?} failed: Operation failed (Requires Administrator privileges or rule does not exist)",
            args
        )))
    );
    let nameless = words(&["advfirewall", "firewall", "show", "rule"]);
    assert_eq!(
        run_outcome(&nameless, false, "没有与指定标准匹配的规则。".to_string(), ""),
        Err(FirewallError::RuleNotFound("unknown".to_string()))
    );
}

#[test]
fn update_replaces_selected_addresses() {
    let mut fw = WindowsFirewall::new();
    let update = |fw: &mut WindowsFirewall, o: &[Result<String, FirewallError>]| {
        fw.update_rule("MyRule", None, "192.168.1.*", "192.168.1.20", None, None, None, None, None, None, None, o)
    };
    let mut outcomes: Vec<Result<String, FirewallError>> = Vec::new();
    let show = words(&["advfirewall", "firewall", "show", "rule", "name=MyRule", "dir=in"]);
    assert_eq!(run_args(update(&mut fw, &outcomes)), show);
    outcomes.push(Ok(SHOWN.to_string()));
    assert_eq!(run_args(update(&mut fw, &outcomes)), show);
    outcomes.push(Ok(SHOWN.to_string()));
    assert_eq!(
        run_args(update(&mut fw, &outcomes)),
        words(&["advfirewall", "firewall", "delete", "rule", "name=MyRule", "dir=in"])
    );
    outcomes.push(Ok("Deleted 1 rule(s).".to_string()));
    assert_eq!(
        run_args(update(&mut fw, &outcomes)),
        words(&[
            "advfirewall", "firewall", "add", "rule", "name=MyRule", "dir=in", "action=allow",
            "protocol=tcp", "remoteip=10.0.0.0/8,192.168.1.20", "localport=3389", "enable=yes",
        ])
    );
    outcomes.push(Ok("Ok.".to_string()));
    assert_eq!(done(update(&mut fw, &outcomes)), Ok(true));
}

#[test]
fn update_without_change_reports_false() {
    let mut fw = WindowsFirewall::new();
    let o = vec![Ok(SHOWN.to_string()), Ok(SHOWN.to_string())];
    let step = fw.update_rule("MyRule", Some("in"), "172.16.*", "10.0.0.0/8", None, None, None, None, None, None, None, &o);
    assert_eq!(done(step), Ok(false));
}

#[test]
fn update_with_matching_settings_reports_false() {
    let mut fw = WindowsFirewall::new();
    let o = vec![Ok(SHOWN.to_string()), Ok(SHOWN.to_string())];
    let step = fw.update_rule(
        "MyRule", None, "172.16.*", "10.0.0.0/8", Some("allow"), Some("tcp"), Some(3389), None,
        Some("any"), None, Some(true), &o,
    );
    assert_eq!(done(step), Ok(false));
}

#[test]
fn update_with_a_changed_setting_recreates_the_rule() {
    let delete = words(&["advfirewall", "firewall", "delete", "rule", "name=MyRule", "dir=in"]);
    let o = vec![Ok(SHOWN.to_string()), Ok(SHOWN.to_string())];
    let mut fw = WindowsFirewall::new();
    let step = fw.update_rule("MyRule", None, "172.16.*", "10.0.0.0/8", None, Some("udp"), None, None, None, None, None, &o);
    assert_eq!(run_args(step), delete);
    let step = fw.update_rule("MyRule", None, "172.16.*", "10.0.0.0/8", Some("block"), None, None, None, None, None, None, &o);
    assert_eq!(run_args(step), delete);
    let step = fw.update_rule("MyRule", None, "172.16.*", "10.0.0.0/8", None, None, Some(22), None, None, None, None, &o);
    assert_eq!(run_args(step), delete);
    let step = fw.update_rule("MyRule", None, "172.16.*", "10.0.0.0/8", None, None, None, Some(53), None, None, None, &o);
    assert_eq!(run_args(step), delete);
    let step = fw.update_rule("MyRule", None, "172.16.*", "10.0.0.0/8", None, None, None, None, Some("10.9.9.9"), None, None, &o);
    assert_eq!(run_args(step), delete);
    let step = fw.update_rule("MyRule", None, "172.16.*", "10.0.0.0/8", None, None, None, None, None, Some("ssh"), None, &o);
    assert_eq!(run_args(step), delete);
    let step = fw.update_rule("MyRule", None, "172.16.*", "10.0.0.0/8", None, None, None, None, None, None, Some(false), &o);
    assert_eq!(run_args(step), delete);
    let full = vec![Ok(SHOWN.to_string()), Ok(SHOWN.to_string()), Ok("Deleted 1 rule(s).".to_string())];
    let step = fw.update_rule("MyRule", None, "172.16.*", "10.0.0.0/8", None, Some("udp"), None, None, None, None, None, &full);
    assert_eq!(
        run_args(step),
        words(&[
            "advfirewall", "firewall", "add", "rule", "name=MyRule", "dir=in", "action=allow",
            "protocol=udp", "remoteip=192.168.1.10,10.0.0.0/8", "localport=3389", "enable=yes",
        ])
    );
}

#[test]
fn update_creates_missing_rule_and_keeps_it_on_failure() {
    let mut fw = WindowsFirewall::new();
    let mut o: Vec<Result<String, FirewallError>> = vec![Err(FirewallError::RuleNotFound("New".to_string()))];
    let step = fw.update_rule("New", Some("out"), "*", "1.2.3.4/32", None, Some("udp"), Some(53), None, None, Some("dns"), None, &o);
    assert_eq!(
        run_args(step),
        words(&[
            "advfirewall", "firewall", "add", "rule", "name=New", "dir=out", "action=allow",
            "protocol=udp", "remoteip=1.2.3.4/32", "localport=53", "description=dns",
        ])
    );
    o.push(Err(FirewallError::CommandFailed("denied".to_string())));
    let step = fw.update_rule("New", Some("out"), "*", "1.2.3.4/32", None, Some("udp"), Some(53), None, None, Some("dns"), None, &o);
    assert_eq!(done(step), Err(FirewallError::CommandFailed("denied".to_string())));
    let listed = done(fw.list_rules(&[Err(FirewallError::CommandFailed("x".to_string()))])).unwrap();
    assert_eq!(listed.len(), 1);
    assert_eq!(listed[0].name, "New");
    assert_eq!(listed[0].src, "1.2.3.4/32");
    assert_eq!(listed[0].dest, "any");
    assert_eq!(listed[0].port, 53);
    assert!(listed[0].enabled);
}

#[test]
fn update_refuses_empty_inputs() {
    let mut fw = WindowsFirewall::new();
    let step = fw.update_rule("", None, "*", "1.2.3.4", None, None, None, None, None, None, None, &[]);
    assert_eq!(done(step), Err(FirewallError::InvalidParameter("规则名称不能为空".to_string())));
    let step = fw.update_rule("r", None, "*", "", None, None, None, None, None, None, None, &[]);
    assert_eq!(done(step), Err(FirewallError::InvalidParameter("IP地址不能为空".to_string())));
    let step = fw.update_rule_with_multiple_ips("r", None, "*", &[], None, None, None, None, None, None, None, &[]);
    assert_eq!(done(step), Err(FirewallError::InvalidParameter("IP列表不能为空".to_string())));
}

#[test]
fn update_with_several_addresses_joins_them() {
    let mut fw = WindowsFirewall::new();
    let o = vec![Err(FirewallError::RuleNotFound("R".to_string()))];
    let step = fw.update_rule_with_multiple_ips("R", None, "*", &words(&["1.1.1.1", "2.2.2.2"]), None, None, None, None, None, None, None, &o);
    assert_eq!(
        run_args(step),
        words(&["advfirewall", "firewall", "add", "rule", "name=R", "dir=in", "action=allow", "protocol=any", "remoteip=1.1.1.1,2.2.2.2"])
    );
}

#[test]
fn update_ip_only_hands_on_current_settings() {
    let mut fw = WindowsFirewall::new();
    let o = vec![Ok(SHOWN.to_string()), Ok(SHOWN.to_string()), Ok(SHOWN.to_string()), Ok(String::new())];
    let step = fw.update_rule_ip_only("MyRule", None, "10.0.0.0/8", "10.1.1.1", &o);
    assert_eq!(
        run_args(step),
        words(&[
            "advfirewall", "firewall", "add", "rule", "name=MyRule", "dir=in", "action=allow",
            "protocol=tcp", "remoteip=192.168.1.10,10.1.1.1", "localport=3389", "enable=yes",
        ])
    );
}

#[test]
fn verify_and_query_rules() {
    let fw = WindowsFirewall::new();
    let o = vec![Ok(SHOWN.to_string()), Ok(SHOWN.to_string())];
    assert_eq!(done(fw.verify_rule("MyRule", None, &words(&["192.168.1.10/32"]), false, &o)), Ok(true));
    assert_eq!(done(fw.verify_rule("MyRule", None, &words(&["192.168.1.10/32"]), true, &o)), Ok(false));
    assert_eq!(done(fw.verify_rule("MyRule", None, &words(&["10.0.0.0/8", "192.168.1.10/32"]), true, &o)), Ok(true));
    assert_eq!(done(fw.verify_rule("MyRule", None, &words(&["8.8.8.8"]), false, &o)), Ok(false));
    assert_eq!(done(fw.verify_rule("MyRule", None, &[], false, &o)), Ok(true));
    let missing = vec![Err(FirewallError::RuleNotFound("MyRule".to_string()))];
    assert_eq!(done(fw.verify_rule("MyRule", None, &[], false, &missing)), Ok(false));
    let disabled = SHOWN.replace("Enabled:                              Yes", "Enabled:                              No");
    let od = vec![Ok(disabled.clone()), Ok(disabled)];
    assert_eq!(done(fw.verify_rule("MyRule", None, &words(&["192.168.1.10/32"]), false, &od)), Ok(true));
    assert_eq!(done(fw.verify_rule("MyRule", None, &words(&["10.0.0.0/8", "192.168.1.10/32"]), true, &od)), Ok(true));
    assert_eq!(done(fw.verify_rule_simple("MyRule", None, "any", &o)), Ok(true));
    assert_eq!(done(fw.verify_rule_simple("MyRule", None, "9.9.9.9", &o)), Ok(false));
    assert_eq!(done(fw.rule_exists("MyRule", None, &o[..1])), Ok(true));
    assert_eq!(done(fw.rule_exists("MyRule", None, &missing)), Ok(false));
    let failed = vec![Err(FirewallError::CommandFailed("x".to_string()))];
    assert_eq!(done(fw.rule_exists("MyRule", None, &failed)), Err(FirewallError::CommandFailed("x".to_string())));
    assert_eq!(done(fw.get_remote_ips("MyRule", None, &o[..1])), Ok(words(&["192.168.1.10/32", "10.0.0.0/8"])));
    let info = done(fw.get_rule_info("MyRule", Some("in"), &o[..1])).unwrap();
    assert_eq!(info.port, 3389);
}

#[test]
fn fallback_list_stands_in_for_netsh() {
    let mut fw = WindowsFirewall::new();
    let failed: Vec<Result<String, FirewallError>> = vec![Err(FirewallError::CommandFailed("denied".to_string()))];
    assert_eq!(
        run_args(fw.create_rule("web", "any", "any", "tcp", 80, None, &[])),
        words(&["advfirewall", "firewall", "add", "rule", "name=web", "dir=in", "action=allow", "protocol=tcp", "localport=80"])
    );
    assert_eq!(
        run_args(fw.create_rule("web", "10.0.0.1", "any", "tcp", 80, None, &[])),
        words(&["advfirewall", "firewall", "add", "rule", "name=web", "dir=in", "action=allow", "protocol=tcp", "localport=80", "remoteip=10.0.0.1"])
    );
    assert_eq!(done(fw.create_rule("web", "any", "any", "tcp", 80, None, &failed)), Ok(()));
    assert_eq!(
        run_args(fw.disable_rule("web", Some("out"), &[])),
        words(&["advfirewall", "firewall", "set", "rule", "name=web", "dir=out", "new", "enable=no"])
    );
    assert_eq!(done(fw.disable_rule("web", None, &failed)), Ok(()));
    let status = done(fw.get_status(&failed)).unwrap();
    assert_eq!(status.platform, "Windows Firewall");
    assert_eq!(status.total_rules, 1);
    assert_eq!(status.active_rules, 0);
    assert_eq!(done(fw.enable_rule("web", None, &failed)), Ok(()));
    assert_eq!(done(fw.get_status(&failed)).unwrap().active_rules, 1);
    assert_eq!(done(fw.enable_rule("nope", None, &failed)), Err(FirewallError::CommandFailed("denied".to_string())));
    assert_eq!(run_args(fw.delete_rule("web", &[])), words(&["advfirewall", "firewall", "delete", "rule", "name=web"]));
    assert_eq!(done(fw.delete_rule("web", &failed)), Ok(()));
    assert_eq!(done(fw.delete_rule("web", &failed)), Err(FirewallError::CommandFailed("denied".to_string())));
    assert!(done(fw.list_rules(&failed)).unwrap().is_empty());
}

#[test]
fn listing_prefers_netsh_rules() {
    let fw = WindowsFirewall::new();
    assert_eq!(run_args(fw.list_rules(&[])), words(&["advfirewall", "firewall", "show", "rule", "name=all"]));
    let rules = done(fw.list_rules(&[Ok(SHOWN.to_string())])).unwrap();
    assert_eq!(rules.len(), 1);
    assert_eq!(rules[0].name, "MyRule");
    assert!(done(fw.list_rules(&[Ok("nothing here".to_string())])).unwrap().is_empty());
}
