use udp_knock::config::Config;
use udp_knock::firewall::traits::{FirewallResponse, FirewallRule, FirewallStatus};
use udp_knock::server::handler::{
    execute_command, format_error_response, Command, FirewallAnswer, FirewallRequest, HandlerStep,
};
use udp_knock::server::session::Server;

fn command(action: &str, params: &[&str]) -> Command {
    Command { action: action.to_string(), params: params.iter().map(|s| s.to_string()).collect() }
}

fn respond(step: HandlerStep) -> FirewallResponse {
    match step {
        HandlerStep::Respond(r) => r,
        HandlerStep::Ask(_) => panic!("expected a response"),
    }
}

#[test]
fn refusals_without_parameters() {
    for action in ["enable", "disable", "delete"] {
        let r = respond(execute_command(&command(action, &[]), &[]));
        assert!(!r.success);
        assert_eq!(r.message, "缺少规则名");
        assert!(r.rules.is_none() && r.status.is_none());
    }
    let r = respond(execute_command(&command("create", &["a", "b", "c", "d"]), &[]));
    assert_eq!(r.message, "参数不足: 需要 name, src, dest, proto, ports");
    let r = respond(execute_command(&command("Status", &[]), &[]));
    assert_eq!(r.message, "未知命令: Status");
}

#[test]
fn create_builds_an_accepting_rule() {
    match execute_command(&command("create", &["web", "wan", "lan", "tcp", "80,443", "web access"]), &[]) {
        HandlerStep::Ask(FirewallRequest::CreateRule(rule)) => {
            assert_eq!(rule.name, "web");
            assert_eq!(rule.ports, "80,443");
            assert!(rule.enabled);
            assert_eq!(rule.target, "ACCEPT");
            assert_eq!(rule.description, "web access");
        }
        _ => panic!("expected a create request"),
    }
    match execute_command(&command("create", &["web", "wan", "lan", "tcp", "80"]), &[]) {
        HandlerStep::Ask(FirewallRequest::CreateRule(rule)) => assert_eq!(rule.description, ""),
        _ => panic!("expected a create request"),
    }
}

#[test]
fn answers_become_responses() {
    let rule = FirewallRule {
        name: "ssh".to_string(),
        src: "wan".to_string(),
        dest: "lan".to_string(),
        proto: "tcp".to_string(),
        ports: "22".to_string(),
        enabled: true,
        target: "ACCEPT".to_string(),
        description: String::new(),
    };
    let r = respond(execute_command(&command("list", &[]), &[FirewallAnswer::Rules(Ok(vec![rule]))]));
    assert!(r.success);
    assert_eq!(r.message, "规则列表获取成功");
    assert_eq!(r.rules.unwrap().len(), 1);
    let r = respond(execute_command(&command("list", &[]), &[FirewallAnswer::Rules(Err("io".to_string()))]));
    assert_eq!(r.message, "获取规则列表失败: io");

    let given = FirewallResponse { success: true, message: "done".to_string(), rules: None, status: None };
    let r = respond(execute_command(&command("enable", &["ssh"]), &[FirewallAnswer::Response(Ok(given))]));
    assert!(r.success);
    assert_eq!(r.message, "done");
    let r = respond(execute_command(&command("disable", &["ssh"]), &[FirewallAnswer::Response(Err("no".to_string()))]));
    assert_eq!(r.message, "禁用规则失败: no");
    let r = respond(execute_command(&command("delete", &["ssh"]), &[FirewallAnswer::Response(Err("no".to_string()))]));
    assert_eq!(r.message, "删除规则失败: no");

    let st = FirewallStatus {
        active: true,
        rules_count: 4,
        default_policy: "DROP".to_string(),
        platform: "openwrt".to_string(),
        zones: vec!["lan".to_string(), "wan".to_string()],
    };
    let r = respond(execute_command(&command("status", &[]), &[FirewallAnswer::Status(Ok(st))]));
    assert_eq!(r.message, "状态获取成功");
    assert_eq!(r.status.unwrap().zones.len(), 2);
    let r = respond(execute_command(&command("status", &[]), &[FirewallAnswer::Status(Err("x".to_string()))]));
    assert_eq!(r.message, "获取状态失败: x");
}

#[test]
fn unreadable_command() {
    let r = format_error_response("EOF while parsing");
    assert!(!r.success);
    assert_eq!(r.message, "命令格式错误: EOF while parsing");
}

#[test]
fn session_server_serves_listed_clients() {
    let mut config = Config::default();
    let server = Server::new(config.clone());
    assert!(server.is_client_allowed("10.0.0.9:5000"));
    config.server.allowed_clients = vec!["10.0.0.1:4000".to_string()];
    let server = Server::new(config);
    assert!(server.is_client_allowed("10.0.0.1:4000"));
    assert!(!server.is_client_allowed("10.0.0.1:4001"));
}
