use udp_knock::config::simple::ServerConfig;
use udp_knock::firewall::{FirewallError, FirewallRule, FirewallStatus};
use udp_knock::server::limiter::RateLimiter;
use udp_knock::crypto::{CryptoError, CryptoManager};
use udp_knock::server::{
    datagram_text, CommandPayload, CommandStep, DatagramStep, FirewallCall, FirewallReply, ResponseData,
    ResponsePayload, Server, Verdict,
};

fn server(allowed: &[&str], rate_limit: u32) -> Server {
    let config = ServerConfig {
        bind_addr: "0.0.0.0:9999".to_string(),
        shared_key: "key".to_string(),
        allowed_ips: allowed.iter().map(|s| s.to_string()).collect(),
        rate_limit,
    };
    Server::new(config, "linux".to_string(), false)
}

fn cmd(action: &str, params: &[&str], offset: usize) -> CommandPayload {
    CommandPayload {
        action: action.to_string(),
        params: params.iter().map(|s| s.to_string()).collect(),
        offset,
        timestamp: 1_700_000_000,
    }
}

fn rule(name: &str, enabled: bool) -> FirewallRule {
    FirewallRule {
        name: name.to_string(),
        src: "wan".to_string(),
        dest: "lan".to_string(),
        proto: "tcp".to_string(),
        port: 22,
        enabled,
    }
}

fn respond(step: CommandStep) -> ResponsePayload {
    match step {
        CommandStep::Respond(r) => r,
        _ => panic!("expected a response"),
    }
}

fn names(data: &Option<ResponseData>) -> Vec<String> {
    match data {
        Some(ResponseData::Rules(v)) => v.iter().map(|r| r.name.clone()).collect(),
        _ => panic!("expected rules"),
    }
}

#[test]
fn listing_asks_for_rules_then_sizes() {
    let s = server(&[], 60);
    let c = cmd("LIST", &[], 0);
    assert!(matches!(s.execute_command(&c, 7, &[]), CommandStep::Call(FirewallCall::ListRules)));
    let rules = vec![rule("ssh", true), rule("web", true), rule("dns", false)];
    let mut replies = vec![FirewallReply::Rules(Ok(rules))];
    match s.execute_command(&c, 7, &replies) {
        CommandStep::Measure(v) => assert_eq!(v.len(), 3),
        _ => panic!("expected a measurement"),
    }
    replies.push(FirewallReply::Sizes(vec![100, 200, 3000]));
    let r = respond(s.execute_command(&c, 7, &replies));
    assert!(r.success);
    assert_eq!(r.timestamp, 7);
    assert_eq!(r.message, "Listed rules 1-2 of total 3 rules (Use '-n 2' to view next page)");
    assert_eq!(names(&r.data), vec!["ssh".to_string(), "web".to_string()]);
}

#[test]
fn listing_filters_and_pages() {
    let s = server(&[], 60);
    let rules = vec![rule("SSH-wan", true), rule("web", true), rule("ssh-lan", false), rule("x", true)];
    let c = cmd("list", &["ssh"], 1);
    let replies = vec![FirewallReply::Rules(Ok(rules.clone()))];
    match s.execute_command(&c, 1, &replies) {
        CommandStep::Measure(v) => {
            assert_eq!(v.len(), 1);
            assert_eq!(v[0].name, "ssh-lan");
        }
        _ => panic!("expected a measurement"),
    }
    let replies = vec![FirewallReply::Rules(Ok(rules.clone())), FirewallReply::Sizes(vec![10])];
    let r = respond(s.execute_command(&c, 1, &replies));
    assert_eq!(r.message, "Listed rules 2-2 of total 2 rules");
    assert_eq!(names(&r.data), vec!["ssh-lan".to_string()]);

    let far = cmd("list", &[], 10);
    let replies = vec![FirewallReply::Rules(Ok(rules)), FirewallReply::Sizes(vec![])];
    let r = respond(s.execute_command(&far, 1, &replies));
    assert_eq!(r.message, "Listed rules 0-4 of total 4 rules");
    assert!(names(&r.data).is_empty());
}

#[test]
fn listing_with_nothing_fitting() {
    let s = server(&[], 60);
    let c = cmd("list", &[], 0);
    let replies = vec![FirewallReply::Rules(Ok(vec![rule("a", true), rule("b", true)])), FirewallReply::Sizes(vec![2501, 9000])];
    let r = respond(s.execute_command(&c, 1, &replies));
    assert_eq!(r.message, "Listed rules 0-0 of total 2 rules (Use '-n 0' to view next page)");
    assert!(names(&r.data).is_empty());
}

#[test]
fn listing_failure() {
    let s = server(&[], 60);
    let replies = vec![FirewallReply::Rules(Err(FirewallError::CommandFailed("boom".to_string())))];
    let r = respond(s.execute_command(&cmd("list", &[], 0), 3, &replies));
    assert!(!r.success);
    assert_eq!(r.message, "Failed to list rules: Firewall command failed: boom");
    assert!(r.data.is_none());
}

#[test]
fn commands_without_parameters_are_refused() {
    let s = server(&[], 60);
    for action in ["enable", "disable", "delete"] {
        let r = respond(s.execute_command(&cmd(action, &[], 0), 1, &[]));
        assert!(!r.success);
        assert_eq!(r.message, "Missing rule name parameter");
    }
    let r = respond(s.execute_command(&cmd("create", &["a", "b", "c", "d"], 0), 1, &[]));
    assert_eq!(r.message, "Usage: create <name> <src> <dest> <proto> <port> [in|out]");
    let r = respond(s.execute_command(&cmd("create", &["a", "b", "c", "d", "70000"], 0), 1, &[]));
    assert_eq!(r.message, "Invalid port parameter");
    let r = respond(s.execute_command(&cmd("Reboot", &[], 0), 1, &[]));
    assert_eq!(r.message, "Unknown action: reboot");
}

#[test]
fn rule_changes_report_their_outcome() {
    let s = server(&[], 60);
    let enable = cmd("enable", &["ssh", "out"], 0);
    match s.execute_command(&enable, 1, &[]) {
        CommandStep::Call(FirewallCall::EnableRule { name, dir }) => {
            assert_eq!(name, "ssh");
            assert_eq!(dir, Some("out".to_string()));
        }
        _ => panic!("expected an enable call"),
    }
    let r = respond(s.execute_command(&enable, 1, &[FirewallReply::Done(Ok(()))]));
    assert!(r.success);
    assert_eq!(r.message, "Rule 'ssh' enabled successfully");
    let r = respond(s.execute_command(&enable, 1, &[FirewallReply::Done(Err(FirewallError::RuleNotFound("ssh".to_string())))]));
    assert_eq!(r.message, "Failed to enable rule: Rule not found: ssh");

    let r = respond(s.execute_command(&cmd("disable", &["ssh"], 0), 1, &[FirewallReply::Done(Ok(()))]));
    assert_eq!(r.message, "Rule 'ssh' disabled successfully");
    let r = respond(s.execute_command(&cmd("delete", &["ssh"], 0), 1, &[FirewallReply::Done(Ok(()))]));
    assert_eq!(r.message, "Rule 'ssh' deleted successfully");

    let create = cmd("create", &["web", "wan", "lan", "tcp", "+80", "in"], 0);
    match s.execute_command(&create, 1, &[]) {
        CommandStep::Call(FirewallCall::CreateRule { name, src, dest, proto, port, dir }) => {
            assert_eq!((name.as_str(), src.as_str(), dest.as_str(), proto.as_str()), ("web", "wan", "lan", "tcp"));
            assert_eq!(port, 80);
            assert_eq!(dir, Some("in".to_string()));
        }
        _ => panic!("expected a create call"),
    }
    let r = respond(s.execute_command(&create, 1, &[FirewallReply::Done(Ok(()))]));
    assert_eq!(r.message, "Rule 'web' created successfully");
    let r = respond(s.execute_command(&create, 1, &[FirewallReply::Done(Err(FirewallError::CommandFailed("x".to_string())))]));
    assert_eq!(r.message, "Failed to create rule: Firewall command failed: x");
}

#[test]
fn status_is_reported_with_data() {
    let s = server(&[], 60);
    let st = FirewallStatus { active: true, platform: "Linux".to_string(), total_rules: 3, active_rules: 2 };
    let r = respond(s.execute_command(&cmd("status", &[], 0), 9, &[FirewallReply::Status(Ok(st))]));
    assert!(r.success);
    assert_eq!(r.message, "Status retrieved successfully");
    match r.data {
        Some(ResponseData::Status(s)) => assert_eq!((s.total_rules, s.active_rules), (3, 2)),
        _ => panic!("expected a status"),
    }
    let r = respond(s.execute_command(&cmd("status", &[], 0), 9, &[FirewallReply::Status(Err(FirewallError::NotImplemented("n".to_string())))]));
    assert_eq!(r.message, "Failed to get status: Feature not implemented: n");
}

#[test]
fn a_reply_of_another_kind_asks_again() {
    let s = server(&[], 60);
    let step = s.execute_command(&cmd("status", &[], 0), 1, &[FirewallReply::Done(Ok(()))]);
    assert!(matches!(step, CommandStep::Call(FirewallCall::GetStatus)));
}

#[test]
fn unreadable_commands_get_an_answer() {
    let s = server(&[], 60);
    let r = s.parse_failure_response("expected value at line 1 column 1", 5);
    assert!(!r.success);
    assert_eq!(r.message, "Command JSON parsing failed: expected value at line 1 column 1");
    assert_eq!(r.timestamp, 5);
}

#[test]
fn rate_limit_over_a_minute() {
    let mut l = RateLimiter::new(2);
    assert!(l.check_and_record("a", 0));
    assert!(l.check_and_record("a", 1));
    assert!(!l.check_and_record("a", 2));
    assert!(l.check_and_record("b", 2));
    assert!(!l.check_and_record("a", 59_999_999_999));
    assert!(l.check_and_record("a", 60_000_000_001));
    let mut unlimited = RateLimiter::new(0);
    for t in 0..100u64 {
        assert!(unlimited.check_and_record("a", t));
    }
}

#[test]
fn whitelist_then_rate_limit() {
    let s = server(&["10.0.0.1"], 1);
    let mut l = s.rate_limiter();
    assert!(!s.accept_request(&mut l, "10.0.0.2", 0));
    assert!(s.accept_request(&mut l, "10.0.0.1", 0));
    assert!(!s.accept_request(&mut l, "10.0.0.1", 1));
    let open = server(&[], 0);
    let mut l = open.rate_limiter();
    assert!(open.accept_request(&mut l, "1.2.3.4", 0));
    assert!(open.is_whitelisted("anything"));
    assert_eq!(open.bind_addr(), "0.0.0.0:9999");
    assert_eq!(open.shared_key(), "key");
    assert_eq!(open.platform(), "linux");
    assert!(!open.debug());
}

#[test]
fn next_page_goes_on_where_the_listing_stopped() {
    let s = server(&[], 60);
    let rules = vec![rule("a", true), rule("b", true), rule("c", true)];
    let first = cmd("list", &[], 0);
    let r = respond(s.execute_command(&first, 1, &[FirewallReply::Rules(Ok(rules.clone())), FirewallReply::Sizes(vec![10, 20, 3000])]));
    assert_eq!(r.message, "Listed rules 1-2 of total 3 rules (Use '-n 2' to view next page)");
    assert_eq!(names(&r.data), vec!["a".to_string(), "b".to_string()]);
    let next = cmd("list", &[], 2);
    let r = respond(s.execute_command(&next, 1, &[FirewallReply::Rules(Ok(rules)), FirewallReply::Sizes(vec![10])]));
    assert_eq!(r.message, "Listed rules 3-3 of total 3 rules");
    assert_eq!(names(&r.data), vec!["c".to_string()]);
}

#[test]
fn datagrams_are_screened_in_order() {
    let s = server(&["10.0.0.1"], 1);
    let crypto = CryptoManager::new("key");
    let mut l = s.rate_limiter();
    let packet = crypto.encrypt(b"{}").unwrap();
    assert!(matches!(s.screen_datagram(&mut l, &crypto, "10.0.0.2", Some(&packet), 0), Verdict::NotWhitelisted));
    match s.screen_datagram(&mut l, &crypto, "10.0.0.1", Some(&packet), 0) {
        Verdict::Accepted(p) => assert_eq!(p, b"{}".to_vec()),
        _ => panic!("expected the plaintext"),
    }
    assert!(matches!(s.screen_datagram(&mut l, &crypto, "10.0.0.1", Some(&packet), 1), Verdict::RateLimited));
    let open = server(&[], 0);
    let mut l = open.rate_limiter();
    assert!(matches!(open.screen_datagram(&mut l, &crypto, "1.1.1.1", None, 0), Verdict::NotText));
    assert!(matches!(
        open.screen_datagram(&mut l, &crypto, "1.1.1.1", Some("garbage!"), 0),
        Verdict::Undecryptable(CryptoError::Base64DecodeError)
    ));
    let other = CryptoManager::new("other key");
    assert!(matches!(
        open.screen_datagram(&mut l, &other, "1.1.1.1", Some(&packet), 0),
        Verdict::Undecryptable(CryptoError::HmacMismatch)
    ));
}

#[test]
fn datagrams_are_answered_or_dropped() {
    let s = server(&[], 0);
    let fresh = cmd("list", &[], 0);
    let parsed: Result<CommandPayload, String> = Ok(fresh);
    let accepted = Verdict::Accepted(b"{}".to_vec());
    for refused in [
        Verdict::NotWhitelisted,
        Verdict::RateLimited,
        Verdict::NotText,
        Verdict::Undecryptable(CryptoError::HmacMismatch),
    ] {
        assert!(matches!(s.answer_datagram(&refused, &parsed, 1_700_000_010, 5, &[]), DatagramStep::Drop));
        let replies = vec![FirewallReply::Rules(Ok(vec![]))];
        assert!(matches!(s.answer_datagram(&refused, &parsed, 1_700_000_010, 5, &replies), DatagramStep::Drop));
    }
    assert!(matches!(
        s.answer_datagram(&accepted, &parsed, 1_700_000_010, 5, &[]),
        DatagramStep::Call(FirewallCall::ListRules)
    ));
    assert!(matches!(s.answer_datagram(&accepted, &parsed, 1_700_000_031, 5, &[]), DatagramStep::Drop));
    assert!(matches!(s.answer_datagram(&accepted, &parsed, 1_699_999_969, 5, &[]), DatagramStep::Drop));
    assert!(matches!(
        s.answer_datagram(&accepted, &parsed, 1_700_000_030, 5, &[]),
        DatagramStep::Call(FirewallCall::ListRules)
    ));
    let unreadable: Result<CommandPayload, String> = Err("expected value".to_string());
    match s.answer_datagram(&accepted, &unreadable, 1_700_000_010, 5, &[]) {
        DatagramStep::Reply(r) => {
            assert!(!r.success);
            assert_eq!(r.message, "Command JSON parsing failed: expected value");
            assert_eq!(r.timestamp, 5);
        }
        _ => panic!("expected a reply"),
    }
    assert!(matches!(
        s.answer_datagram(&Verdict::NotWhitelisted, &unreadable, 1_700_000_010, 5, &[]),
        DatagramStep::Drop
    ));
    let replies = vec![FirewallReply::Rules(Ok(vec![rule("ssh", true)])), FirewallReply::Sizes(vec![100])];
    match s.answer_datagram(&accepted, &parsed, 1_700_000_010, 5, &replies) {
        DatagramStep::Reply(r) => {
            assert!(r.success);
            assert_eq!(r.message, "Listed rules 1-1 of total 1 rules");
        }
        _ => panic!("expected a reply"),
    }
}

#[test]
fn datagram_text_is_trimmed_utf8() {
    assert_eq!(datagram_text(b"  abc=\r\n"), Some("abc=".to_string()));
    assert_eq!(datagram_text(b""), Some(String::new()));
    assert_eq!(datagram_text(&[0x41, 0xff]), None);
    assert_eq!(datagram_text("\u{3000}密文 ".as_bytes()), Some("密文".to_string()));
}
