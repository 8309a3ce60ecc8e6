use udp_knock::error::AppError;
use udp_knock::firewall::openwrt::{find_rule_index, parse_named_rules, run_outcome, OpenWrtFirewall, UciStep};

const SHOW: &str = "firewall.@defaults[0]=defaults\nfirewall.@rule[0]=rule\nfirewall.@rule[0].name='Allow-DHCP-Renew'\nfirewall.@rule[1]=rule\nfirewall.@rule[1].name='ssh'\nfirewall.@rule[1].dest_port='22'\n";

fn run_of<T>(step: UciStep<T>) -> (String, Vec<String>) {
    match step {
        UciStep::Run(p, a) => (p, a),
        UciStep::Done(_) => panic!("expected a run"),
    }
}

fn firewall_error<T>(r: Result<T, AppError>) -> String {
    match r {
        Err(AppError::Firewall(m)) => m,
        _ => panic!("expected a firewall error"),
    }
}

fn w(v: &[&str]) -> Vec<String> {
    v.iter().map(|s| s.to_string()).collect()
}

#[test]
fn finds_rule_index_by_name() {
    assert_eq!(find_rule_index(SHOW, "ssh").ok(), Some(1));
    assert_eq!(find_rule_index(SHOW, "Allow-DHCP-Renew").ok(), Some(0));
    assert_eq!(firewall_error(find_rule_index(SHOW, "nope")), "Rule 'nope' not found");
    let odd = "firewall.@rule[x].name='bad'\n";
    assert_eq!(firewall_error(find_rule_index(odd, "bad")), "Cannot parse rule index for 'bad'");
}

#[test]
fn names_rules_of_uci_output() {
    let rules = parse_named_rules(SHOW);
    assert_eq!(rules.len(), 2);
    assert_eq!(rules[0].key, "firewall.@rule[0].name");
    assert_eq!(rules[0].name, "Allow-DHCP-Renew");
    assert_eq!(rules[1].name, "ssh");
}

#[test]
fn run_failures_name_the_program() {
    assert_eq!(run_outcome("uci", true, "x".to_string(), "").ok(), Some("x".to_string()));
    assert_eq!(firewall_error(run_outcome("uci", false, String::new(), "  entry not found \n")), "uci failed: entry not found");
}

#[test]
fn enabling_sets_the_flag_then_commits_and_reloads() {
    let fw = OpenWrtFirewall::new();
    let mut o: Vec<Result<String, AppError>> = Vec::new();
    assert_eq!(run_of(fw.enable_rule("ssh", &o)), ("uci".to_string(), w(&["show", "firewall"])));
    o.push(Ok(SHOW.to_string()));
    assert_eq!(run_of(fw.enable_rule("ssh", &o)), ("uci".to_string(), w(&["set", "firewall.@rule[1].enabled=1"])));
    assert_eq!(run_of(fw.disable_rule("ssh", &o)), ("uci".to_string(), w(&["set", "firewall.@rule[1].enabled=0"])));
    o.push(Ok(String::new()));
    assert_eq!(run_of(fw.enable_rule("ssh", &o)), ("uci".to_string(), w(&["commit", "firewall"])));
    o.push(Ok(String::new()));
    assert_eq!(run_of(fw.enable_rule("ssh", &o)), ("/etc/init.d/firewall".to_string(), w(&["reload"])));
    o.push(Ok(String::new()));
    assert!(matches!(fw.enable_rule("ssh", &o), UciStep::Done(Ok(()))));
    let failing = vec![Ok(SHOW.to_string()), Err(AppError::Firewall("uci failed: denied".to_string()))];
    match fw.enable_rule("ssh", &failing) {
        UciStep::Done(Err(AppError::Firewall(m))) => assert_eq!(m, "uci failed: denied"),
        _ => panic!("expected the failure"),
    }
    match fw.enable_rule("nope", &o[..1]) {
        UciStep::Done(Err(AppError::Firewall(m))) => assert_eq!(m, "Rule 'nope' not found"),
        _ => panic!("expected the failure"),
    }
}

#[test]
fn creating_and_deleting() {
    let fw = OpenWrtFirewall::new();
    let mut o: Vec<Result<String, AppError>> = Vec::new();
    let expected = [
        ("uci", w(&["add", "firewall", "rule"])),
        ("uci", w(&["set", "firewall.@rule[-1].name=web"])),
        ("uci", w(&["set", "firewall.@rule[-1].src=wan"])),
        ("uci", w(&["set", "firewall.@rule[-1].dest=lan"])),
        ("uci", w(&["set", "firewall.@rule[-1].proto=tcp"])),
        ("uci", w(&["set", "firewall.@rule[-1].dest_port=80"])),
        ("uci", w(&["set", "firewall.@rule[-1].target=ACCEPT"])),
        ("uci", w(&["commit", "firewall"])),
        ("/etc/init.d/firewall", w(&["reload"])),
    ];
    for (p, a) in expected.iter() {
        assert_eq!(run_of(fw.create_rule("web", "wan", "lan", "tcp", "80", &o)), (p.to_string(), a.clone()));
        o.push(Ok(String::new()));
    }
    assert!(matches!(fw.create_rule("web", "wan", "lan", "tcp", "80", &o), UciStep::Done(Ok(()))));

    let d = vec![Ok(SHOW.to_string())];
    assert_eq!(run_of(fw.delete_rule("ssh", &d)), ("uci".to_string(), w(&["delete", "firewall.@rule[1]"])));
}

#[test]
fn listing_and_status() {
    let fw = OpenWrtFirewall::new();
    match fw.list_rules(&[Ok(SHOW.to_string())]) {
        UciStep::Done(Ok(v)) => assert_eq!(v.len(), 2),
        _ => panic!("expected the rules"),
    }
    assert_eq!(run_of(fw.status(&[])), ("/etc/init.d/firewall".to_string(), w(&["status"])));
    let failed: Vec<Result<String, AppError>> = vec![Err(AppError::Firewall("x".to_string()))];
    assert_eq!(run_of(fw.status(&failed)), ("fw4".to_string(), w(&["print"])));
    match fw.status(&[Err(AppError::Firewall("x".to_string())), Ok("  running \n".to_string())]) {
        UciStep::Done(Ok(s)) => assert_eq!(s, "running"),
        _ => panic!("expected the status"),
    }
    match fw.status(&[Err(AppError::Firewall("x".to_string())), Err(AppError::Firewall("y".to_string()))]) {
        UciStep::Done(Ok(s)) => assert_eq!(s, "unknown"),
        _ => panic!("expected the status"),
    }
}
