//! How the session server answers a command: the request it makes of the firewall, and
//! the response it sends back.
use vstd::prelude::*;
use crate::firewall::traits::{
    FirewallResponse, FirewallRule, FirewallStatus, ResponseView, RuleView, StatusView,
    duplicate_rules, rules_view,
};
use crate::text::{concat, str_eq, strings_view};

verus! {

broadcast use vstd::string::group_string_axioms;

/// A command: an action and its parameters.
pub struct Command {
    pub action: String,
    pub params: Vec<String>,
}

/// The contents of a [`Command`].
pub struct CommandView {
    pub action: Seq<char>,
    pub params: Seq<Seq<char>>,
}

impl View for Command {
    type V = CommandView;

    open spec fn view(&self) -> CommandView {
        CommandView { action: self.action@, params: strings_view(self.params@) }
    }
}

/// A request of the firewall.
pub enum FirewallRequest {
    ListRules,
    EnableRule(String),
    DisableRule(String),
    CreateRule(FirewallRule),
    DeleteRule(String),
    GetStatus,
}

/// The contents of a [`FirewallRequest`].
pub enum RequestView {
    ListRules,
    EnableRule(Seq<char>),
    DisableRule(Seq<char>),
    CreateRule(RuleView),
    DeleteRule(Seq<char>),
    GetStatus,
}

impl View for FirewallRequest {
    type V = RequestView;

    open spec fn view(&self) -> RequestView {
        match self {
            FirewallRequest::ListRules => RequestView::ListRules,
            FirewallRequest::EnableRule(n) => RequestView::EnableRule(n@),
            FirewallRequest::DisableRule(n) => RequestView::DisableRule(n@),
            FirewallRequest::CreateRule(r) => RequestView::CreateRule(r@),
            FirewallRequest::DeleteRule(n) => RequestView::DeleteRule(n@),
            FirewallRequest::GetStatus => RequestView::GetStatus,
        }
    }
}

/// What the firewall answered to a request; failures carry their text.
pub enum FirewallAnswer {
    Rules(Result<Vec<FirewallRule>, String>),
    Response(Result<FirewallResponse, String>),
    Status(Result<FirewallStatus, String>),
}

/// The contents of a [`FirewallAnswer`].
pub enum AnswerView {
    Rules(Result<Seq<RuleView>, Seq<char>>),
    Response(Result<ResponseView, Seq<char>>),
    Status(Result<StatusView, Seq<char>>),
}

impl View for FirewallAnswer {
    type V = AnswerView;

    open spec fn view(&self) -> AnswerView {
        match self {
            FirewallAnswer::Rules(Ok(v)) => AnswerView::Rules(Ok(rules_view(v@))),
            FirewallAnswer::Rules(Err(e)) => AnswerView::Rules(Err(e@)),
            FirewallAnswer::Response(Ok(r)) => AnswerView::Response(Ok(r@)),
            FirewallAnswer::Response(Err(e)) => AnswerView::Response(Err(e@)),
            FirewallAnswer::Status(Ok(s)) => AnswerView::Status(Ok(s@)),
            FirewallAnswer::Status(Err(e)) => AnswerView::Status(Err(e@)),
        }
    }
}

/// The contents of the answers so far.
pub open spec fn answers_view(a: Seq<FirewallAnswer>) -> Seq<AnswerView> {
    a.map_values(|x: FirewallAnswer| x@)
}

/// The next thing the handling of a command needs.
pub enum HandlerStep {
    /// Make this request of the firewall, then handle the command again with the
    /// answer appended to the answers so far.
    Ask(FirewallRequest),
    /// The command is answered.
    Respond(FirewallResponse),
}

/// The contents of a [`HandlerStep`].
pub enum HandlerView {
    Ask(RequestView),
    Respond(ResponseView),
}

impl View for HandlerStep {
    type V = HandlerView;

    open spec fn view(&self) -> HandlerView {
        match self {
            HandlerStep::Ask(q) => HandlerView::Ask(q@),
            HandlerStep::Respond(r) => HandlerView::Respond(r@),
        }
    }
}

/// A failed response.
pub open spec fn refusal(message: Seq<char>) -> ResponseView {
    ResponseView { success: false, message, rules: None, status: None }
}

/// The rule that `create` asks for: enabled, accepting, with the sixth parameter as
/// description when there is one.
pub open spec fn requested_rule(p: Seq<Seq<char>>) -> RuleView {
    RuleView {
        name: p[0],
        src: p[1],
        dest: p[2],
        proto: p[3],
        ports: p[4],
        enabled: true,
        target: "ACCEPT"@,
        description: if p.len() > 5 {
            p[5]
        } else {
            Seq::empty()
        },
    }
}

/// The request a command makes, or the message that refuses it. Actions are matched
/// exactly.
pub open spec fn request_of(cmd: CommandView) -> Result<RequestView, Seq<char>> {
    let a = cmd.action;
    let p = cmd.params;
    if a == "list"@ {
        Ok(RequestView::ListRules)
    } else if a == "enable"@ {
        if p.len() == 0 {
            Err("缺少规则名"@)
        } else {
            Ok(RequestView::EnableRule(p[0]))
        }
    } else if a == "disable"@ {
        if p.len() == 0 {
            Err("缺少规则名"@)
        } else {
            Ok(RequestView::DisableRule(p[0]))
        }
    } else if a == "create"@ {
        if p.len() < 5 {
            Err("参数不足: 需要 name, src, dest, proto, ports"@)
        } else {
            Ok(RequestView::CreateRule(requested_rule(p)))
        }
    } else if a == "delete"@ {
        if p.len() == 0 {
            Err("缺少规则名"@)
        } else {
            Ok(RequestView::DeleteRule(p[0]))
        }
    } else if a == "status"@ {
        Ok(RequestView::GetStatus)
    } else {
        Err("未知命令: "@ + a)
    }
}

/// The next step of a command, given the answers so far. An answer that does not fit
/// the request asks again.
pub open spec fn handler_step(cmd: CommandView, answers: Seq<AnswerView>) -> HandlerView {
    match request_of(cmd) {
        Err(m) => HandlerView::Respond(refusal(m)),
        Ok(q) => if answers.len() == 0 {
            HandlerView::Ask(q)
        } else {
            match (q, answers[0]) {
                (RequestView::ListRules, AnswerView::Rules(Ok(rules))) => HandlerView::Respond(
                    ResponseView {
                        success: true,
                        message: "规则列表获取成功"@,
                        rules: Some(rules),
                        status: None,
                    },
                ),
                (RequestView::ListRules, AnswerView::Rules(Err(e))) => HandlerView::Respond(
                    refusal("获取规则列表失败: "@ + e),
                ),
                (RequestView::EnableRule(_), AnswerView::Response(Ok(r))) => HandlerView::Respond(r),
                (RequestView::EnableRule(_), AnswerView::Response(Err(e))) => HandlerView::Respond(
                    refusal("启用规则失败: "@ + e),
                ),
                (RequestView::DisableRule(_), AnswerView::Response(Ok(r))) => HandlerView::Respond(r),
                (RequestView::DisableRule(_), AnswerView::Response(Err(e))) => HandlerView::Respond(
                    refusal("禁用规则失败: "@ + e),
                ),
                (RequestView::CreateRule(_), AnswerView::Response(Ok(r))) => HandlerView::Respond(r),
                (RequestView::CreateRule(_), AnswerView::Response(Err(e))) => HandlerView::Respond(
                    refusal("创建规则失败: "@ + e),
                ),
                (RequestView::DeleteRule(_), AnswerView::Response(Ok(r))) => HandlerView::Respond(r),
                (RequestView::DeleteRule(_), AnswerView::Response(Err(e))) => HandlerView::Respond(
                    refusal("删除规则失败: "@ + e),
                ),
                (RequestView::GetStatus, AnswerView::Status(Ok(st))) => HandlerView::Respond(
                    ResponseView {
                        success: true,
                        message: "状态获取成功"@,
                        rules: None,
                        status: Some(st),
                    },
                ),
                (RequestView::GetStatus, AnswerView::Status(Err(e))) => HandlerView::Respond(
                    refusal("获取状态失败: "@ + e),
                ),
                _ => HandlerView::Ask(q),
            }
        },
    }
}

fn copy_string(s: &String) -> (r: String)
    ensures
        r@ == s@,
{
    s.as_str().to_string()
}

/// The request a command makes, or the message that refuses it.
pub fn request_for(cmd: &Command) -> (r: Result<FirewallRequest, String>)
    ensures
        match (r, request_of(cmd@)) {
            (Ok(q), Ok(v)) => q@ == v,
            (Err(m), Err(n)) => m@ == n,
            _ => false,
        },
{
    let a = cmd.action.as_str();
    let p = &cmd.params;
    let ghost pv = strings_view(p@);
    proof {
        if p@.len() > 0 {
            assert(pv[0] == p@[0]@);
        }
        if p@.len() >= 5 {
            assert(pv[1] == p@[1]@);
            assert(pv[2] == p@[2]@);
            assert(pv[3] == p@[3]@);
            assert(pv[4] == p@[4]@);
        }
        if p@.len() > 5 {
            assert(pv[5] == p@[5]@);
        }
    }
    if str_eq(a, "list") {
        Ok(FirewallRequest::ListRules)
    } else if str_eq(a, "enable") {
        if p.len() == 0 {
            Err("缺少规则名".to_string())
        } else {
            Ok(FirewallRequest::EnableRule(copy_string(&p[0])))
        }
    } else if str_eq(a, "disable") {
        if p.len() == 0 {
            Err("缺少规则名".to_string())
        } else {
            Ok(FirewallRequest::DisableRule(copy_string(&p[0])))
        }
    } else if str_eq(a, "create") {
        if p.len() < 5 {
            Err("参数不足: 需要 name, src, dest, proto, ports".to_string())
        } else {
            let rule = FirewallRule {
                name: copy_string(&p[0]),
                src: copy_string(&p[1]),
                dest: copy_string(&p[2]),
                proto: copy_string(&p[3]),
                ports: copy_string(&p[4]),
                enabled: true,
                target: "ACCEPT".to_string(),
                description: if p.len() > 5 {
                    copy_string(&p[5])
                } else {
                    String::new()
                },
            };
            Ok(FirewallRequest::CreateRule(rule))
        }
    } else if str_eq(a, "delete") {
        if p.len() == 0 {
            Err("缺少规则名".to_string())
        } else {
            Ok(FirewallRequest::DeleteRule(copy_string(&p[0])))
        }
    } else if str_eq(a, "status") {
        Ok(FirewallRequest::GetStatus)
    } else {
        Err(concat("未知命令: ", a))
    }
}

/// A failed response with this message.
fn refuse(message: String) -> (r: FirewallResponse)
    ensures
        r@ == refusal(message@),
{
    FirewallResponse { success: false, message, rules: None, status: None }
}

fn copy_request(q: &FirewallRequest) -> (r: FirewallRequest)
    ensures
        r@ == q@,
{
    match q {
        FirewallRequest::ListRules => FirewallRequest::ListRules,
        FirewallRequest::EnableRule(n) => FirewallRequest::EnableRule(copy_string(n)),
        FirewallRequest::DisableRule(n) => FirewallRequest::DisableRule(copy_string(n)),
        FirewallRequest::CreateRule(r) => FirewallRequest::CreateRule(r.duplicate()),
        FirewallRequest::DeleteRule(n) => FirewallRequest::DeleteRule(copy_string(n)),
        FirewallRequest::GetStatus => FirewallRequest::GetStatus,
    }
}

fn answer_at(answers: &[FirewallAnswer], k: usize) -> (r: &FirewallAnswer)
    requires
        k < answers@.len(),
    ensures
        r@ == answers_view(answers@)[k as int],
{
    &answers[k]
}

/// The next step of the command, given the answers so far: a request of the firewall,
/// or the response.
pub fn execute_command(cmd: &Command, answers: &[FirewallAnswer]) -> (r: HandlerStep)
    ensures
        r@ == handler_step(cmd@, answers_view(answers@)),
{
    let q = match request_for(cmd) {
        Err(m) => return HandlerStep::Respond(refuse(m)),
        Ok(q) => q,
    };
    if answers.len() == 0 {
        return HandlerStep::Ask(q);
    }
    match (&q, answer_at(answers, 0)) {
        (FirewallRequest::ListRules, FirewallAnswer::Rules(Ok(rules))) => HandlerStep::Respond(
            FirewallResponse {
                success: true,
                message: "规则列表获取成功".to_string(),
                rules: Some(duplicate_rules(rules)),
                status: None,
            },
        ),
        (FirewallRequest::ListRules, FirewallAnswer::Rules(Err(e))) => HandlerStep::Respond(
            refuse(concat("获取规则列表失败: ", e.as_str())),
        ),
        (FirewallRequest::EnableRule(_), FirewallAnswer::Response(Ok(r))) => HandlerStep::Respond(
            r.duplicate(),
        ),
        (FirewallRequest::EnableRule(_), FirewallAnswer::Response(Err(e))) => HandlerStep::Respond(
            refuse(concat("启用规则失败: ", e.as_str())),
        ),
        (FirewallRequest::DisableRule(_), FirewallAnswer::Response(Ok(r))) => HandlerStep::Respond(
            r.duplicate(),
        ),
        (FirewallRequest::DisableRule(_), FirewallAnswer::Response(Err(e))) => HandlerStep::Respond(
            refuse(concat("禁用规则失败: ", e.as_str())),
        ),
        (FirewallRequest::CreateRule(_), FirewallAnswer::Response(Ok(r))) => HandlerStep::Respond(
            r.duplicate(),
        ),
        (FirewallRequest::CreateRule(_), FirewallAnswer::Response(Err(e))) => HandlerStep::Respond(
            refuse(concat("创建规则失败: ", e.as_str())),
        ),
        (FirewallRequest::DeleteRule(_), FirewallAnswer::Response(Ok(r))) => HandlerStep::Respond(
            r.duplicate(),
        ),
        (FirewallRequest::DeleteRule(_), FirewallAnswer::Response(Err(e))) => HandlerStep::Respond(
            refuse(concat("删除规则失败: ", e.as_str())),
        ),
        (FirewallRequest::GetStatus, FirewallAnswer::Status(Ok(st))) => HandlerStep::Respond(
            FirewallResponse {
                success: true,
                message: "状态获取成功".to_string(),
                rules: None,
                status: Some(st.duplicate()),
            },
        ),
        (FirewallRequest::GetStatus, FirewallAnswer::Status(Err(e))) => HandlerStep::Respond(
            refuse(concat("获取状态失败: ", e.as_str())),
        ),
        _ => HandlerStep::Ask(copy_request(&q)),
    }
}

/// The response to a command that could not be read.
pub fn format_error_response(detail: &str) -> (r: FirewallResponse)
    ensures
        r@ == refusal("命令格式错误: "@ + detail@),
{
    refuse(concat("命令格式错误: ", detail))
}

} // verus!
