//! The server's decisions: which datagrams it admits, and how it answers a command.
use vstd::prelude::*;
use crate::config::simple::ServerConfig;
use crate::firewall::{
    ErrorView, FirewallError, FirewallRule, FirewallStatus, RuleView, StatusView, error_message,
    lemma_rules_view_push, rules_view,
};
use crate::crypto::{
    CryptoError, CryptoManager, REPLAY_WINDOW_SECS, bytes_range, opened_bytes, within_window,
};
use crate::client::utf8_text;
use vstd::utf8::{decode_utf8, valid_utf8};
use crate::server::limiter::RateLimiter;
use crate::text::{
    chars_of, concat, contains, dec, lowercase, parse_u16, parse_u16_str, push_usize,
    range_contains, spec_to_lowercase, str_eq, string_of, strings_view, trim, trim_range,
};

pub mod handler;
pub mod limiter;
pub mod session;

verus! {

broadcast use vstd::string::group_string_axioms;

// ---------------------------------------------------------------------------
// Commands and responses
// ---------------------------------------------------------------------------

/// A command as a client sends it: the action, its parameters, where a listing starts,
/// and when the command was made (seconds since the Unix epoch).
pub struct CommandPayload {
    pub action: String,
    pub params: Vec<String>,
    pub offset: usize,
    pub timestamp: u64,
}

/// The contents of a [`CommandPayload`].
pub struct CommandView {
    pub action: Seq<char>,
    pub params: Seq<Seq<char>>,
    pub offset: usize,
    pub timestamp: u64,
}

impl View for CommandPayload {
    type V = CommandView;

    open spec fn view(&self) -> CommandView {
        CommandView {
            action: self.action@,
            params: strings_view(self.params@),
            offset: self.offset,
            timestamp: self.timestamp,
        }
    }
}

/// What a response carries besides its message.
pub enum ResponseData {
    Rules(Vec<FirewallRule>),
    Status(FirewallStatus),
}

/// The contents of a [`ResponseData`].
pub enum DataView {
    Rules(Seq<RuleView>),
    Status(StatusView),
}

/// The server's answer to a command.
pub struct ResponsePayload {
    pub success: bool,
    pub message: String,
    pub data: Option<ResponseData>,
    pub timestamp: u64,
}

/// The contents of a [`ResponsePayload`].
pub struct ResponseView {
    pub success: bool,
    pub message: Seq<char>,
    pub data: Option<DataView>,
    pub timestamp: u64,
}

impl View for ResponsePayload {
    type V = ResponseView;

    open spec fn view(&self) -> ResponseView {
        ResponseView {
            success: self.success,
            message: self.message@,
            data: match self.data {
                Some(ResponseData::Rules(v)) => Some(DataView::Rules(rules_view(v@))),
                Some(ResponseData::Status(s)) => Some(DataView::Status(s@)),
                None => None,
            },
            timestamp: self.timestamp,
        }
    }
}

/// A failed answer.
pub open spec fn failure(message: Seq<char>, ts: u64) -> ResponseView {
    ResponseView { success: false, message, data: None, timestamp: ts }
}

/// A successful answer.
pub open spec fn success(message: Seq<char>, data: Option<DataView>, ts: u64) -> ResponseView {
    ResponseView { success: true, message, data, timestamp: ts }
}

/// A call of the firewall that a command asks for.
pub enum FirewallCall {
    ListRules,
    EnableRule { name: String, dir: Option<String> },
    DisableRule { name: String, dir: Option<String> },
    CreateRule {
        name: String,
        src: String,
        dest: String,
        proto: String,
        port: u16,
        dir: Option<String>,
    },
    DeleteRule { name: String },
    GetStatus,
}

/// The contents of a [`FirewallCall`].
pub enum CallView {
    ListRules,
    EnableRule(Seq<char>, Option<Seq<char>>),
    DisableRule(Seq<char>, Option<Seq<char>>),
    CreateRule(Seq<char>, Seq<char>, Seq<char>, Seq<char>, u16, Option<Seq<char>>),
    DeleteRule(Seq<char>),
    GetStatus,
}

/// The contents of an optional string.
pub open spec fn opt_view(o: Option<String>) -> Option<Seq<char>> {
    match o {
        Some(s) => Some(s@),
        None => None,
    }
}

impl View for FirewallCall {
    type V = CallView;

    open spec fn view(&self) -> CallView {
        match self {
            FirewallCall::ListRules => CallView::ListRules,
            FirewallCall::EnableRule { name, dir } => CallView::EnableRule(name@, opt_view(*dir)),
            FirewallCall::DisableRule { name, dir } => CallView::DisableRule(name@, opt_view(*dir)),
            FirewallCall::CreateRule { name, src, dest, proto, port, dir } => CallView::CreateRule(
                name@,
                src@,
                dest@,
                proto@,
                *port,
                opt_view(*dir),
            ),
            FirewallCall::DeleteRule { name } => CallView::DeleteRule(name@),
            FirewallCall::GetStatus => CallView::GetStatus,
        }
    }
}

/// What the firewall answered to a call, or the sizes of trial listings (see
/// [`CommandStep::Measure`]).
pub enum FirewallReply {
    Rules(Result<Vec<FirewallRule>, FirewallError>),
    Done(Result<(), FirewallError>),
    Status(Result<FirewallStatus, FirewallError>),
    Sizes(Vec<usize>),
}

/// The contents of a [`FirewallReply`].
pub enum ReplyView {
    Rules(Result<Seq<RuleView>, ErrorView>),
    Done(Result<(), ErrorView>),
    Status(Result<StatusView, ErrorView>),
    Sizes(Seq<usize>),
}

impl View for FirewallReply {
    type V = ReplyView;

    open spec fn view(&self) -> ReplyView {
        match self {
            FirewallReply::Rules(Ok(v)) => ReplyView::Rules(Ok(rules_view(v@))),
            FirewallReply::Rules(Err(e)) => ReplyView::Rules(Err(e@)),
            FirewallReply::Done(Ok(())) => ReplyView::Done(Ok(())),
            FirewallReply::Done(Err(e)) => ReplyView::Done(Err(e@)),
            FirewallReply::Status(Ok(s)) => ReplyView::Status(Ok(s@)),
            FirewallReply::Status(Err(e)) => ReplyView::Status(Err(e@)),
            FirewallReply::Sizes(v) => ReplyView::Sizes(v@),
        }
    }
}

/// The contents of the replies so far.
pub open spec fn replies_view(r: Seq<FirewallReply>) -> Seq<ReplyView> {
    r.map_values(|x: FirewallReply| x@)
}

/// The next thing the execution of a command needs.
pub enum CommandStep {
    /// Make this call of the firewall, then execute the command again with its reply
    /// appended to the replies so far.
    Call(FirewallCall),
    /// Give, as a reply, the size in bytes of the serialized trial response that lists
    /// the first `k + 1` of these rules, for each `k` (0 where it cannot be serialized).
    Measure(Vec<FirewallRule>),
    /// The command is answered.
    Respond(ResponsePayload),
}

/// The contents of a [`CommandStep`].
pub enum StepView {
    Call(CallView),
    Measure(Seq<RuleView>),
    Respond(ResponseView),
}

impl View for CommandStep {
    type V = StepView;

    open spec fn view(&self) -> StepView {
        match self {
            CommandStep::Call(c) => StepView::Call(c@),
            CommandStep::Measure(v) => StepView::Measure(rules_view(v@)),
            CommandStep::Respond(r) => StepView::Respond(r@),
        }
    }
}

// ---------------------------------------------------------------------------
// What a command asks for
// ---------------------------------------------------------------------------

/// The `i`-th parameter, when there is one.
pub open spec fn param(params: Seq<Seq<char>>, i: int) -> Option<Seq<char>> {
    if 0 <= i < params.len() {
        Some(params[i])
    } else {
        None
    }
}

/// The call that the action `a` (in lowercase) with parameters `p` asks for, or the
/// message that refuses it.
pub open spec fn call_for(a: Seq<char>, p: Seq<Seq<char>>) -> Result<CallView, Seq<char>> {
    if a == "list"@ {
        Ok(CallView::ListRules)
    } else if a == "enable"@ {
        if p.len() > 0 {
            Ok(CallView::EnableRule(p[0], param(p, 1)))
        } else {
            Err("Missing rule name parameter"@)
        }
    } else if a == "disable"@ {
        if p.len() > 0 {
            Ok(CallView::DisableRule(p[0], param(p, 1)))
        } else {
            Err("Missing rule name parameter"@)
        }
    } else if a == "create"@ {
        if p.len() >= 5 {
            match parse_u16(p[4]) {
                Some(port) => Ok(CallView::CreateRule(p[0], p[1], p[2], p[3], port, param(p, 5))),
                None => Err("Invalid port parameter"@),
            }
        } else {
            Err("Usage: create <name> <src> <dest> <proto> <port> [in|out]"@)
        }
    } else if a == "delete"@ {
        if p.len() > 0 {
            Ok(CallView::DeleteRule(p[0]))
        } else {
            Err("Missing rule name parameter"@)
        }
    } else if a == "status"@ {
        Ok(CallView::GetStatus)
    } else {
        Err("Unknown action: "@ + a)
    }
}

/// The call a command asks for, or the message that refuses it. The action is read
/// without regard to case.
pub open spec fn call_of(cmd: CommandView) -> Result<CallView, Seq<char>> {
    call_for(spec_to_lowercase(cmd.action), cmd.params)
}

// ---------------------------------------------------------------------------
// Listings
// ---------------------------------------------------------------------------

/// The largest serialized trial response that a listing may fill, in bytes.
pub const MAX_LISTING_BYTES: usize = 2500;

/// The rules whose name, in lowercase, contains `f`, in order.
pub open spec fn named_like(rules: Seq<RuleView>, f: Seq<char>) -> Seq<RuleView>
    decreases rules.len(),
{
    if rules.len() == 0 {
        rules
    } else {
        let init = named_like(rules.drop_last(), f);
        if contains(spec_to_lowercase(rules.last().name), f) {
            init.push(rules.last())
        } else {
            init
        }
    }
}

/// The rules a listing covers: with a first parameter, those whose name contains it,
/// both taken in lowercase; else all.
pub open spec fn listed(rules: Seq<RuleView>, params: Seq<Seq<char>>) -> Seq<RuleView> {
    if params.len() > 0 {
        named_like(rules, spec_to_lowercase(params[0]))
    } else {
        rules
    }
}

/// Where a page starts: at the offset, but no further than the end.
pub open spec fn page_start(total: nat, offset: usize) -> nat {
    if offset < total {
        offset as nat
    } else {
        total
    }
}

/// The rules from the start of the page on.
pub open spec fn page_rest(rules: Seq<RuleView>, params: Seq<Seq<char>>, offset: usize) -> Seq<RuleView> {
    let l = listed(rules, params);
    l.subrange(page_start(l.len(), offset) as int, l.len() as int)
}

/// How many of `n` rules fit in a response: those before the first trial listing, from
/// index `i` on, whose size exceeds the limit.
pub open spec fn fitting_from(sizes: Seq<usize>, n: int, i: int) -> int
    decreases n - i,
{
    if i >= n {
        n
    } else if i < sizes.len() && sizes[i] > MAX_LISTING_BYTES {
        i
    } else {
        fitting_from(sizes, n, i + 1)
    }
}

/// The message of a listing of `count` rules from index `offset` of `total`; it names the
/// offset of the next page when rules are left.
pub open spec fn listing_message(offset: nat, count: nat, total: nat) -> Seq<char> {
    let start: nat = if count > 0 {
        offset + 1
    } else {
        0
    };
    let end: nat = offset + count;
    let head = "Listed rules "@ + dec(start) + "-"@ + dec(end) + " of total "@ + dec(total)
        + " rules"@;
    if end < total {
        head + " (Use '-n "@ + dec(end) + "' to view next page)"@
    } else {
        head
    }
}

/// The answer to a listing, given the rules and the sizes of the trial listings.
pub open spec fn listing_response(
    rules: Seq<RuleView>,
    cmd: CommandView,
    sizes: Seq<usize>,
    ts: u64,
) -> ResponseView {
    let l = listed(rules, cmd.params);
    let start = page_start(l.len(), cmd.offset);
    let rest = page_rest(rules, cmd.params, cmd.offset);
    let count = fitting_from(sizes, rest.len() as int, 0);
    success(
        listing_message(start, count as nat, l.len()),
        Some(DataView::Rules(rest.take(count))),
        ts,
    )
}

// ---------------------------------------------------------------------------
// Executing a command
// ---------------------------------------------------------------------------

/// The next step of a command, given the replies so far. A reply that does not answer
/// the call asks for the call again.
pub open spec fn command_step(cmd: CommandView, ts: u64, replies: Seq<ReplyView>) -> StepView {
    match call_of(cmd) {
        Err(m) => StepView::Respond(failure(m, ts)),
        Ok(call) => if replies.len() == 0 {
            StepView::Call(call)
        } else {
            match (call, replies[0]) {
                (CallView::ListRules, ReplyView::Rules(Ok(rules))) => {
                    let rest = page_rest(rules, cmd.params, cmd.offset);
                    if replies.len() == 1 {
                        StepView::Measure(rest)
                    } else {
                        match replies[1] {
                            ReplyView::Sizes(sizes) => StepView::Respond(
                                listing_response(rules, cmd, sizes, ts),
                            ),
                            _ => StepView::Measure(rest),
                        }
                    }
                },
                (CallView::ListRules, ReplyView::Rules(Err(e))) => StepView::Respond(
                    failure("Failed to list rules: "@ + error_message(e), ts),
                ),
                (CallView::EnableRule(name, _), ReplyView::Done(Ok(()))) => StepView::Respond(
                    success("Rule '"@ + name + "' enabled successfully"@, None, ts),
                ),
                (CallView::EnableRule(_, _), ReplyView::Done(Err(e))) => StepView::Respond(
                    failure("Failed to enable rule: "@ + error_message(e), ts),
                ),
                (CallView::DisableRule(name, _), ReplyView::Done(Ok(()))) => StepView::Respond(
                    success("Rule '"@ + name + "' disabled successfully"@, None, ts),
                ),
                (CallView::DisableRule(_, _), ReplyView::Done(Err(e))) => StepView::Respond(
                    failure("Failed to disable rule: "@ + error_message(e), ts),
                ),
                (
                    CallView::CreateRule(name, _, _, _, _, _),
                    ReplyView::Done(Ok(())),
                ) => StepView::Respond(
                    success("Rule '"@ + name + "' created successfully"@, None, ts),
                ),
                (CallView::CreateRule(_, _, _, _, _, _), ReplyView::Done(Err(e))) => StepView::Respond(
                    failure("Failed to create rule: "@ + error_message(e), ts),
                ),
                (CallView::DeleteRule(name), ReplyView::Done(Ok(()))) => StepView::Respond(
                    success("Rule '"@ + name + "' deleted successfully"@, None, ts),
                ),
                (CallView::DeleteRule(_), ReplyView::Done(Err(e))) => StepView::Respond(
                    failure("Failed to delete rule: "@ + error_message(e), ts),
                ),
                (CallView::GetStatus, ReplyView::Status(Ok(st))) => StepView::Respond(
                    success("Status retrieved successfully"@, Some(DataView::Status(st)), ts),
                ),
                (CallView::GetStatus, ReplyView::Status(Err(e))) => StepView::Respond(
                    failure("Failed to get status: "@ + error_message(e), ts),
                ),
                _ => StepView::Call(call),
            }
        },
    }
}

/// An optional string as an owned one.
fn owned_param(params: &Vec<String>, i: usize) -> (r: Option<String>)
    ensures
        opt_view(r) == param(strings_view(params@), i as int),
{
    if i < params.len() {
        Some(params[i].clone())
    } else {
        None
    }
}

/// A copy of a string with the same contents.
fn copy_string(s: &String) -> (r: String)
    ensures
        r@ == s@,
{
    s.as_str().to_string()
}

/// The call a command asks for, or the message that refuses it.
pub fn plan_call(cmd: &CommandPayload) -> (r: Result<FirewallCall, String>)
    ensures
        match (r, call_of(cmd@)) {
            (Ok(c), Ok(v)) => c@ == v,
            (Err(m), Err(n)) => m@ == n,
            _ => false,
        },
{
    let a = lowercase(cmd.action.as_str());
    call_for_action(a.as_str(), &cmd.params)
}

/// The call that the action `a`, already in lowercase, asks for with the parameters
/// `p`, or the message that refuses it.
pub fn call_for_action(a: &str, p: &Vec<String>) -> (r: Result<FirewallCall, String>)
    ensures
        match (r, call_for(a@, strings_view(p@))) {
            (Ok(c), Ok(v)) => c@ == v,
            (Err(m), Err(n)) => m@ == n,
            _ => false,
        },
{
    let ghost pv = strings_view(p@);
    proof {
        if p@.len() > 0 {
            assert(pv[0] == p@[0]@);
        }
        if p@.len() >= 5 {
            assert(pv[1] == p@[1]@);
            assert(pv[2] == p@[2]@);
            assert(pv[3] == p@[3]@);
            assert(pv[4] == p@[4]@);
        }
    }
    if str_eq(a, "list") {
        Ok(FirewallCall::ListRules)
    } else if str_eq(a, "enable") {
        if p.len() > 0 {
            Ok(FirewallCall::EnableRule { name: copy_string(&p[0]), dir: owned_param(p, 1) })
        } else {
            Err("Missing rule name parameter".to_string())
        }
    } else if str_eq(a, "disable") {
        if p.len() > 0 {
            Ok(FirewallCall::DisableRule { name: copy_string(&p[0]), dir: owned_param(p, 1) })
        } else {
            Err("Missing rule name parameter".to_string())
        }
    } else if str_eq(a, "create") {
        if p.len() >= 5 {
            match parse_u16_str(p[4].as_str()) {
                Some(port) => Ok(
                    FirewallCall::CreateRule {
                        name: copy_string(&p[0]),
                        src: copy_string(&p[1]),
                        dest: copy_string(&p[2]),
                        proto: copy_string(&p[3]),
                        port,
                        dir: owned_param(p, 5),
                    },
                ),
                None => Err("Invalid port parameter".to_string()),
            }
        } else {
            Err("Usage: create <name> <src> <dest> <proto> <port> [in|out]".to_string())
        }
    } else if str_eq(a, "delete") {
        if p.len() > 0 {
            Ok(FirewallCall::DeleteRule { name: copy_string(&p[0]) })
        } else {
            Err("Missing rule name parameter".to_string())
        }
    } else if str_eq(a, "status") {
        Ok(FirewallCall::GetStatus)
    } else {
        Err(concat("Unknown action: ", a))
    }
}

/// A copy of a call with the same contents.
fn copy_call(c: &FirewallCall) -> (r: FirewallCall)
    ensures
        r@ == c@,
{
    match c {
        FirewallCall::ListRules => FirewallCall::ListRules,
        FirewallCall::EnableRule { name, dir } => FirewallCall::EnableRule {
            name: copy_string(name),
            dir: copy_opt(dir),
        },
        FirewallCall::DisableRule { name, dir } => FirewallCall::DisableRule {
            name: copy_string(name),
            dir: copy_opt(dir),
        },
        FirewallCall::CreateRule { name, src, dest, proto, port, dir } => FirewallCall::CreateRule {
            name: copy_string(name),
            src: copy_string(src),
            dest: copy_string(dest),
            proto: copy_string(proto),
            port: *port,
            dir: copy_opt(dir),
        },
        FirewallCall::DeleteRule { name } => FirewallCall::DeleteRule { name: copy_string(name) },
        FirewallCall::GetStatus => FirewallCall::GetStatus,
    }
}

fn copy_opt(o: &Option<String>) -> (r: Option<String>)
    ensures
        opt_view(r) == opt_view(*o),
{
    match o {
        Some(s) => Some(copy_string(s)),
        None => None,
    }
}

/// The rules a listing covers.
fn listed_rules(rules: &Vec<FirewallRule>, params: &Vec<String>) -> (r: Vec<FirewallRule>)
    ensures
        rules_view(r@) == listed(rules_view(rules@), strings_view(params@)),
{
    if params.len() == 0 {
        return crate::firewall::duplicate_rules(rules);
    }
    assert(strings_view(params@)[0] == params@[0]@);
    let f = lowercase(params[0].as_str());
    let fv = chars_of(f.as_str());
    let ghost rv = rules_view(rules@);
    let mut kept: Vec<FirewallRule> = Vec::new();
    let mut i: usize = 0;
    while i < rules.len()
        invariant
            i <= rules@.len(),
            rv == rules_view(rules@),
            fv@ == spec_to_lowercase(params@[0]@),
            rules_view(kept@) == named_like(rv.take(i as int), fv@),
        decreases rules@.len() - i,
    {
        assert(rv.take(i + 1).drop_last() =~= rv.take(i as int));
        assert(rv.take(i + 1).last() == rules@[i as int]@);
        let n = lowercase(rules[i].name.as_str());
        let nv = chars_of(n.as_str());
        assert(nv@.subrange(0, nv@.len() as int) =~= nv@);
        if range_contains(&nv, 0, nv.len(), &fv) {
            let d = rules[i].duplicate();
            proof {
                lemma_rules_view_push(kept@, d);
            }
            kept.push(d);
        }
        i = i + 1;
    }
    assert(rv.take(i as int) =~= rv);
    kept
}

/// How many of the first `n` rules fit, given the sizes of the trial listings.
fn fitting(sizes: &Vec<usize>, n: usize) -> (r: usize)
    ensures
        r == fitting_from(sizes@, n as int, 0),
        r <= n,
{
    let mut i: usize = 0;
    while i < n
        invariant
            i <= n,
            fitting_from(sizes@, n as int, 0) == fitting_from(sizes@, n as int, i as int),
        decreases n - i,
    {
        if i < sizes.len() && sizes[i] > MAX_LISTING_BYTES {
            return i;
        }
        i = i + 1;
    }
    n
}

/// The message of a listing.
fn listing_text(offset: usize, count: usize, total: usize) -> (r: String)
    requires
        offset + count <= total,
    ensures
        r@ == listing_message(offset as nat, count as nat, total as nat),
{
    let start: usize = if count > 0 {
        offset + 1
    } else {
        0
    };
    let end: usize = offset + count;
    let mut s = "Listed rules ".to_string();
    push_usize(&mut s, start);
    s.append("-");
    push_usize(&mut s, end);
    s.append(" of total ");
    push_usize(&mut s, total);
    s.append(" rules");
    if end < total {
        s.append(" (Use '-n ");
        push_usize(&mut s, end);
        s.append("' to view next page)");
    }
    s
}

/// The rules of `v` from index `from` on.
fn rules_from(v: &Vec<FirewallRule>, from: usize) -> (r: Vec<FirewallRule>)
    requires
        from <= v@.len(),
    ensures
        rules_view(r@) == rules_view(v@).subrange(from as int, v@.len() as int),
{
    let ghost vv = rules_view(v@);
    let mut r: Vec<FirewallRule> = Vec::new();
    let mut i: usize = from;
    while i < v.len()
        invariant
            from <= i <= v@.len(),
            vv == rules_view(v@),
            rules_view(r@) == vv.subrange(from as int, i as int),
        decreases v@.len() - i,
    {
        let d = v[i].duplicate();
        proof {
            lemma_rules_view_push(r@, d);
        }
        r.push(d);
        assert(vv.subrange(from as int, i + 1) =~= vv.subrange(from as int, i as int).push(
            v@[i as int]@,
        ));
        i = i + 1;
    }
    r
}

/// The first `n` rules of `v`.
fn rules_take(v: &Vec<FirewallRule>, n: usize) -> (r: Vec<FirewallRule>)
    requires
        n <= v@.len(),
    ensures
        rules_view(r@) == rules_view(v@).take(n as int),
{
    let ghost vv = rules_view(v@);
    let mut r: Vec<FirewallRule> = Vec::new();
    let mut i: usize = 0;
    while i < n
        invariant
            i <= n <= v@.len(),
            vv == rules_view(v@),
            rules_view(r@) == vv.take(i as int),
        decreases n - i,
    {
        let d = v[i].duplicate();
        proof {
            lemma_rules_view_push(r@, d);
        }
        r.push(d);
        assert(vv.take(i + 1) =~= vv.take(i as int).push(v@[i as int]@));
        i = i + 1;
    }
    r
}

/// A failed answer.
fn fail(message: String, ts: u64) -> (r: ResponsePayload)
    ensures
        r@ == failure(message@, ts),
{
    ResponsePayload { success: false, message, data: None, timestamp: ts }
}

/// `prefix` followed by the text of the error.
fn failed_with(prefix: &str, e: &FirewallError) -> (r: String)
    ensures
        r@ == prefix@ + error_message(e@),
{
    let m = e.message();
    concat(prefix, m.as_str())
}

/// `Rule '<name>'` followed by `rest`.
fn rule_said(name: &String, rest: &str) -> (r: String)
    ensures
        r@ == "Rule '"@ + name@ + rest@,
{
    let mut s = concat("Rule '", name.as_str());
    s.append(rest);
    s
}

/// The `k`-th reply.
fn reply_at(replies: &[FirewallReply], k: usize) -> (r: &FirewallReply)
    requires
        k < replies@.len(),
    ensures
        r@ == replies_view(replies@)[k as int],
{
    &replies[k]
}

/// The next step of the command `cmd`, answered at `ts`, given the replies so far.
fn next_step(cmd: &CommandPayload, ts: u64, replies: &[FirewallReply]) -> (r:
    CommandStep)
    ensures
        r@ == command_step(cmd@, ts, replies_view(replies@)),
{
    let call = match plan_call(cmd) {
        Err(m) => return CommandStep::Respond(fail(m, ts)),
        Ok(c) => c,
    };
    if replies.len() == 0 {
        return CommandStep::Call(call);
    }
    match (&call, reply_at(replies, 0)) {
        (FirewallCall::ListRules, FirewallReply::Rules(Ok(rules))) => {
            let l = listed_rules(rules, &cmd.params);
            let start = if cmd.offset < l.len() {
                cmd.offset
            } else {
                l.len()
            };
            let rest = rules_from(&l, start);
            if replies.len() == 1 {
                return CommandStep::Measure(rest);
            }
            match reply_at(replies, 1) {
                FirewallReply::Sizes(sizes) => {
                    let count = fitting(sizes, rest.len());
                    let message = listing_text(start, count, l.len());
                    let page = rules_take(&rest, count);
                    CommandStep::Respond(
                        ResponsePayload {
                            success: true,
                            message,
                            data: Some(ResponseData::Rules(page)),
                            timestamp: ts,
                        },
                    )
                },
                _ => CommandStep::Measure(rest),
            }
        },
        (FirewallCall::ListRules, FirewallReply::Rules(Err(e))) => CommandStep::Respond(
            fail(failed_with("Failed to list rules: ", e), ts),
        ),
        (FirewallCall::EnableRule { name, dir: _ }, FirewallReply::Done(Ok(()))) => {
            CommandStep::Respond(
                ResponsePayload {
                    success: true,
                    message: rule_said(name, "' enabled successfully"),
                    data: None,
                    timestamp: ts,
                },
            )
        },
        (FirewallCall::EnableRule { .. }, FirewallReply::Done(Err(e))) => CommandStep::Respond(
            fail(failed_with("Failed to enable rule: ", e), ts),
        ),
        (FirewallCall::DisableRule { name, dir: _ }, FirewallReply::Done(Ok(()))) => {
            CommandStep::Respond(
                ResponsePayload {
                    success: true,
                    message: rule_said(name, "' disabled successfully"),
                    data: None,
                    timestamp: ts,
                },
            )
        },
        (FirewallCall::DisableRule { .. }, FirewallReply::Done(Err(e))) => CommandStep::Respond(
            fail(failed_with("Failed to disable rule: ", e), ts),
        ),
        (FirewallCall::CreateRule { name, .. }, FirewallReply::Done(Ok(()))) => {
            CommandStep::Respond(
                ResponsePayload {
                    success: true,
                    message: rule_said(name, "' created successfully"),
                    data: None,
                    timestamp: ts,
                },
            )
        },
        (FirewallCall::CreateRule { .. }, FirewallReply::Done(Err(e))) => CommandStep::Respond(
            fail(failed_with("Failed to create rule: ", e), ts),
        ),
        (FirewallCall::DeleteRule { name }, FirewallReply::Done(Ok(()))) => {
            CommandStep::Respond(
                ResponsePayload {
                    success: true,
                    message: rule_said(name, "' deleted successfully"),
                    data: None,
                    timestamp: ts,
                },
            )
        },
        (FirewallCall::DeleteRule { .. }, FirewallReply::Done(Err(e))) => CommandStep::Respond(
            fail(failed_with("Failed to delete rule: ", e), ts),
        ),
        (FirewallCall::GetStatus, FirewallReply::Status(Ok(st))) => CommandStep::Respond(
            ResponsePayload {
                success: true,
                message: "Status retrieved successfully".to_string(),
                data: Some(ResponseData::Status(copy_status(st))),
                timestamp: ts,
            },
        ),
        (FirewallCall::GetStatus, FirewallReply::Status(Err(e))) => CommandStep::Respond(
            fail(failed_with("Failed to get status: ", e), ts),
        ),
        _ => CommandStep::Call(copy_call(&call)),
    }
}

/// A copy of a status with the same contents.
fn copy_status(s: &FirewallStatus) -> (r: FirewallStatus)
    ensures
        r@ == s@,
{
    FirewallStatus {
        active: s.active,
        platform: copy_string(&s.platform),
        total_rules: s.total_rules,
        active_rules: s.active_rules,
    }
}

/// What becomes of a datagram.
pub enum Verdict {
    /// The whitelist does not admit the client; the datagram is dropped.
    NotWhitelisted,
    /// The client made too many requests; the datagram is dropped.
    RateLimited,
    /// The datagram is not UTF-8 text; it is dropped.
    NotText,
    /// The packet does not open; it is dropped.
    Undecryptable(CryptoError),
    /// The packet opened to these bytes.
    Accepted(Vec<u8>),
}

/// What the server does next with one datagram.
pub enum DatagramStep {
    /// Nothing is sent and no firewall call is made: the datagram is dropped.
    Drop,
    /// Make this call of the firewall, then answer the datagram again with its reply
    /// appended to the replies so far.
    Call(FirewallCall),
    /// Give, as a reply, the sizes of the trial listings of these rules (as
    /// [`CommandStep::Measure`]).
    Measure(Vec<FirewallRule>),
    /// Send this response to the client.
    Reply(ResponsePayload),
}

/// The contents of a [`DatagramStep`].
pub enum DatagramView {
    Drop,
    Call(CallView),
    Measure(Seq<RuleView>),
    Reply(ResponseView),
}

impl View for DatagramStep {
    type V = DatagramView;

    open spec fn view(&self) -> DatagramView {
        match self {
            DatagramStep::Drop => DatagramView::Drop,
            DatagramStep::Call(c) => DatagramView::Call(c@),
            DatagramStep::Measure(v) => DatagramView::Measure(rules_view(v@)),
            DatagramStep::Reply(r) => DatagramView::Reply(r@),
        }
    }
}

/// The contents of the result of reading a command.
pub open spec fn parsed_view(p: Result<CommandPayload, String>) -> Result<CommandView, Seq<char>> {
    match p {
        Ok(c) => Ok(c@),
        Err(d) => Err(d@),
    }
}

/// The next step with a datagram: one the screen did not accept is dropped; one whose
/// command could not be read is answered with a failure; one whose command is more than
/// the replay window away from `now` is dropped; any other is the command's next step.
pub open spec fn datagram_step(
    accepted: bool,
    parsed: Result<CommandView, Seq<char>>,
    now: u64,
    ts: u64,
    replies: Seq<ReplyView>,
) -> DatagramView {
    if !accepted {
        DatagramView::Drop
    } else {
        match parsed {
            Err(d) => DatagramView::Reply(failure("Command JSON parsing failed: "@ + d, ts)),
            Ok(cmd) => if !within_window(cmd.timestamp, now, REPLAY_WINDOW_SECS) {
                DatagramView::Drop
            } else {
                match command_step(cmd, ts, replies) {
                    StepView::Call(c) => DatagramView::Call(c),
                    StepView::Measure(v) => DatagramView::Measure(v),
                    StepView::Respond(r) => DatagramView::Reply(r),
                }
            },
        }
    }
}

/// The text of a datagram: its bytes read as UTF-8, with surrounding white space
/// dropped; nothing when they are not UTF-8.
pub fn datagram_text(bytes: &[u8]) -> (r: Option<String>)
    ensures
        r is Some <==> valid_utf8(bytes@),
        r matches Some(t) ==> t@ == trim(decode_utf8(bytes@)),
{
    let all = bytes_range(bytes, 0, bytes.len());
    assert(all@ =~= bytes@);
    match utf8_text(all) {
        Ok(text) => {
            let v = chars_of(text.as_str());
            assert(v@.subrange(0, v@.len() as int) =~= v@);
            let (a, b) = trim_range(&v, 0, v.len());
            Some(string_of(&v, a, b))
        },
        Err(_) => None,
    }
}

/// A client address is admitted by the whitelist: the list is empty or names it.
pub open spec fn whitelisted(allowed: Seq<Seq<char>>, ip: Seq<char>) -> bool {
    allowed.len() == 0 || allowed.contains(ip)
}

/// The knock server: its settings, the platform whose firewall it drives, and whether it
/// reports what it does.
pub struct Server {
    config: ServerConfig,
    platform: String,
    debug: bool,
}

impl Server {
    /// The whitelisted client addresses.
    pub closed spec fn allowed(&self) -> Seq<Seq<char>> {
        strings_view(self.config.allowed_ips@)
    }

    /// The requests a client may make per minute (0 for no limit).
    pub closed spec fn rate_limit(&self) -> u32 {
        self.config.rate_limit
    }

    /// The listening address.
    pub closed spec fn bind_address(&self) -> Seq<char> {
        self.config.bind_addr@
    }

    /// The shared key.
    pub closed spec fn key(&self) -> Seq<char> {
        self.config.shared_key@
    }

    /// The platform.
    pub closed spec fn platform_name(&self) -> Seq<char> {
        self.platform@
    }

    /// Whether the server reports what it does.
    pub closed spec fn reports(&self) -> bool {
        self.debug
    }

    /// A server with these settings.
    pub fn new(config: ServerConfig, platform: String, debug: bool) -> (r: Self)
        ensures
            r.allowed() == strings_view(config.allowed_ips@),
            r.rate_limit() == config.rate_limit,
            r.bind_address() == config.bind_addr@,
            r.key() == config.shared_key@,
            r.platform_name() == platform@,
            r.reports() == debug,
    {
        Server { config, platform, debug }
    }

    /// The listening address.
    pub fn bind_addr(&self) -> (r: &str)
        ensures
            r@ == self.bind_address(),
    {
        self.config.bind_addr.as_str()
    }

    /// The shared key.
    pub fn shared_key(&self) -> (r: &str)
        ensures
            r@ == self.key(),
    {
        self.config.shared_key.as_str()
    }

    /// The platform.
    pub fn platform(&self) -> (r: &str)
        ensures
            r@ == self.platform_name(),
    {
        self.platform.as_str()
    }

    /// Whether the server reports what it does.
    pub fn debug(&self) -> (r: bool)
        ensures
            r == self.reports(),
    {
        self.debug
    }

    /// A rate limiter with the configured limit, that has seen no request.
    pub fn rate_limiter(&self) -> (r: RateLimiter)
        ensures
            r.limit() == self.rate_limit(),
            forall|ip: Seq<char>| #[trigger] r.times(ip) == Seq::<u64>::empty(),
            r.bounded(),
    {
        RateLimiter::new(self.config.rate_limit)
    }

    /// Whether the whitelist admits `client_ip`.
    pub fn is_whitelisted(&self, client_ip: &str) -> (r: bool)
        ensures
            r == whitelisted(self.allowed(), client_ip@),
    {
        let list = &self.config.allowed_ips;
        let ghost lv = strings_view(list@);
        if list.len() == 0 {
            return true;
        }
        let mut i: usize = 0;
        while i < list.len()
            invariant
                i <= list@.len(),
                lv == strings_view(list@),
                lv == self.allowed(),
                forall|j: int| 0 <= j < i ==> lv[j] != client_ip@,
            decreases list@.len() - i,
        {
            assert(lv[i as int] == list@[i as int]@);
            if str_eq(list[i].as_str(), client_ip) {
                assert(lv[i as int] == client_ip@);
                assert(lv.contains(client_ip@));
                return true;
            }
            i = i + 1;
        }
        false
    }

    /// Whether a datagram from `client_ip` at `now` (nanoseconds on a monotonic clock)
    /// is admitted: the whitelist must admit the client, and then the rate limiter,
    /// which records the request. A client the whitelist refuses leaves the limiter as
    /// it was.
    pub fn accept_request(&self, limiter: &mut RateLimiter, client_ip: &str, now: u64) -> (r: bool)
        ensures
            !whitelisted(self.allowed(), client_ip@) ==> !r && *final(limiter) == *old(limiter),
            whitelisted(self.allowed(), client_ip@) ==> {
                &&& r == old(limiter).admits(client_ip@, now)
                &&& final(limiter).limit() == old(limiter).limit()
                &&& forall|x: Seq<char>|
                    #[trigger] final(limiter).times(x) == old(limiter).times_after(client_ip@, now, x)
            },
            old(limiter).bounded() ==> final(limiter).bounded(),
    {
        if !self.is_whitelisted(client_ip) {
            return false;
        }
        limiter.check_and_record(client_ip, now)
    }

    /// What becomes of a datagram from `client_ip` at `now` (nanoseconds on a monotonic
    /// clock), whose text is `text` when it is UTF-8: the whitelist, then the rate
    /// limiter (which records the request), then the text, then the packet's opening
    /// decide, in that order.
    pub fn screen_datagram(
        &self,
        limiter: &mut RateLimiter,
        crypto: &CryptoManager,
        client_ip: &str,
        text: Option<&str>,
        now: u64,
    ) -> (r: Verdict)
        ensures
            !whitelisted(self.allowed(), client_ip@) ==> r is NotWhitelisted && *final(limiter)
                == *old(limiter),
            whitelisted(self.allowed(), client_ip@) ==> {
                &&& final(limiter).limit() == old(limiter).limit()
                &&& forall|x: Seq<char>|
                    #[trigger] final(limiter).times(x) == old(limiter).times_after(client_ip@, now, x)
                &&& !old(limiter).admits(client_ip@, now) ==> r is RateLimited
                &&& old(limiter).admits(client_ip@, now) ==> match text {
                    None => r is NotText,
                    Some(t) => match (r, opened_bytes(crypto.aes_key(), crypto.hmac_key(), t@)) {
                        (Verdict::Accepted(p), Ok(q)) => p@ == q,
                        (Verdict::Undecryptable(e), Err(f)) => e == f,
                        _ => false,
                    },
                }
            },
            old(limiter).bounded() ==> final(limiter).bounded(),
    {
        if !self.is_whitelisted(client_ip) {
            return Verdict::NotWhitelisted;
        }
        if !limiter.check_and_record(client_ip, now) {
            return Verdict::RateLimited;
        }
        match text {
            None => Verdict::NotText,
            Some(t) => match crypto.decrypt(t) {
                Ok(p) => Verdict::Accepted(p),
                Err(e) => Verdict::Undecryptable(e),
            },
        }
    }

    /// The answer to a command that could not be read, at `ts`.
    pub fn parse_failure_response(&self, detail: &str, ts: u64) -> (r: ResponsePayload)
        ensures
            r@ == failure("Command JSON parsing failed: "@ + detail@, ts),
    {
        fail(concat("Command JSON parsing failed: ", detail), ts)
    }

    /// The next step with a datagram, given the screen's verdict on it, what reading the
    /// opened bytes as a command gave (looked at only when the verdict accepted the
    /// datagram), the clock `now` in seconds since the Unix epoch, the time `ts` of the
    /// answer, and the firewall replies so far.
    pub fn answer_datagram(
        &self,
        verdict: &Verdict,
        parsed: &Result<CommandPayload, String>,
        now: u64,
        ts: u64,
        replies: &[FirewallReply],
    ) -> (r: DatagramStep)
        ensures
            r@ == datagram_step(
                verdict is Accepted,
                parsed_view(*parsed),
                now,
                ts,
                replies_view(replies@),
            ),
    {
        match verdict {
            Verdict::Accepted(_) => {},
            _ => return DatagramStep::Drop,
        }
        match parsed {
            Err(d) => DatagramStep::Reply(self.parse_failure_response(d.as_str(), ts)),
            Ok(cmd) => {
                if CryptoManager::verify_timestamp_at(cmd.timestamp, None, now).is_err() {
                    return DatagramStep::Drop;
                }
                match self.execute_command(cmd, ts, replies) {
                    CommandStep::Call(c) => DatagramStep::Call(c),
                    CommandStep::Measure(v) => DatagramStep::Measure(v),
                    CommandStep::Respond(x) => DatagramStep::Reply(x),
                }
            },
        }
    }

    /// The next step of the command `cmd`, answered at `ts`, given the replies so far:
    /// a firewall call to make, trial listings to measure, or the answer.
    pub fn execute_command(&self, cmd: &CommandPayload, ts: u64, replies: &[FirewallReply]) -> (r:
        CommandStep)
        ensures
            r@ == command_step(cmd@, ts, replies_view(replies@)),
    {
        next_step(cmd, ts, replies)
    }
}

/// A datagram that the screen did not accept, or whose command lies outside the replay
/// window, is dropped at every step: it gets no response and makes no firewall call,
/// whatever the replies so far.
pub proof fn lemma_dropped_datagrams_get_nothing(
    accepted: bool,
    parsed: Result<CommandView, Seq<char>>,
    now: u64,
    ts: u64,
    replies: Seq<ReplyView>,
)
    requires
        !accepted || (parsed matches Ok(cmd) && !within_window(cmd.timestamp, now, REPLAY_WINDOW_SECS)),
    ensures
        datagram_step(accepted, parsed, now, ts, replies) is Drop,
{
}

/// At most the `n` rules fit.
pub proof fn lemma_fitting_bound(sizes: Seq<usize>, n: int, i: int)
    requires
        0 <= i,
        0 <= n,
    ensures
        (i <= n ==> i <= fitting_from(sizes, n, i)) && fitting_from(sizes, n, i) <= if i <= n {
            n
        } else {
            i
        },
        i > n ==> fitting_from(sizes, n, i) == n,
    decreases n - i,
{
    if i < n && !(i < sizes.len() && sizes[i] > MAX_LISTING_BYTES) {
        lemma_fitting_bound(sizes, n, i + 1);
    }
}

/// A listing shows the covered rules from its start on, in order, and names as next
/// offset the index right after the last one it shows: a listing from that offset goes
/// on where this one stopped.
pub proof fn lemma_pages_follow_on(
    rules: Seq<RuleView>,
    params: Seq<Seq<char>>,
    offset: usize,
    sizes: Seq<usize>,
)
    requires
        rules.len() <= usize::MAX,
    ensures
        ({
            let l = listed(rules, params);
            let start = page_start(l.len(), offset);
            let rest = page_rest(rules, params, offset);
            let count = fitting_from(sizes, rest.len() as int, 0);
            &&& start + count <= l.len()
            &&& rest.take(count) == l.subrange(start as int, start + count)
            &&& page_start(l.len(), (start + count) as usize) == start + count
            &&& page_rest(rules, params, (start + count) as usize) == l.subrange(
                start + count,
                l.len() as int,
            )
        }),
{
    let l = listed(rules, params);
    lemma_listed_len(rules, params);
    let start = page_start(l.len(), offset);
    let rest = page_rest(rules, params, offset);
    lemma_fitting_bound(sizes, rest.len() as int, 0);
    let count = fitting_from(sizes, rest.len() as int, 0);
    assert(rest.take(count) =~= l.subrange(start as int, start + count));
}

/// A listing covers no more rules than there are.
pub proof fn lemma_listed_len(rules: Seq<RuleView>, params: Seq<Seq<char>>)
    ensures
        listed(rules, params).len() <= rules.len(),
{
    if params.len() > 0 {
        lemma_named_like_len(rules, spec_to_lowercase(params[0]));
    }
}

proof fn lemma_named_like_len(rules: Seq<RuleView>, f: Seq<char>)
    ensures
        named_like(rules, f).len() <= rules.len(),
    decreases rules.len(),
{
    if rules.len() > 0 {
        lemma_named_like_len(rules.drop_last(), f);
    }
}

/// `f` occurs inside `s`: some stretch of `s` equals `f`.
proof fn lemma_contains_is_substring(s: Seq<char>, f: Seq<char>)
    ensures
        contains(s, f) <==> exists|i: int, j: int|
            0 <= i <= j <= s.len() && j - i == f.len() && #[trigger] s.subrange(i, j) == f,
{
    if contains(s, f) {
        let i = choose|i: int| crate::text::occurs_at(s, f, i);
        assert(s.subrange(i, i + f.len()) == f);
    }
    if exists|i: int, j: int|
        0 <= i <= j <= s.len() && j - i == f.len() && #[trigger] s.subrange(i, j) == f {
        let (i, j) = choose|i: int, j: int|
            0 <= i <= j <= s.len() && j - i == f.len() && #[trigger] s.subrange(i, j) == f;
        assert(crate::text::occurs_at(s, f, i));
    }
}

/// The rules of `named_like` are exactly those rules whose lowercase name has `f`
/// somewhere inside it: at its start, its end or in between.
proof fn lemma_named_like_members(rules: Seq<RuleView>, f: Seq<char>)
    ensures
        forall|r: RuleView|
            #![trigger named_like(rules, f).contains(r)]
            #![trigger rules.contains(r)]
            named_like(rules, f).contains(r) <==> rules.contains(r) && exists|i: int, j: int|
                0 <= i <= j <= spec_to_lowercase(r.name).len() && j - i == f.len()
                    && #[trigger] spec_to_lowercase(r.name).subrange(i, j) == f,
    decreases rules.len(),
{
    if rules.len() == 0 {
        assert forall|r: RuleView| !(#[trigger] named_like(rules, f).contains(r)) && !rules.contains(r) by {
            if rules.contains(r) {
                let k = choose|k: int| 0 <= k < rules.len() && rules[k] == r;
            }
            if named_like(rules, f).contains(r) {
                let k = choose|k: int| 0 <= k < named_like(rules, f).len() && named_like(rules, f)[k] == r;
            }
        }
    } else {
        let init = rules.drop_last();
        let last = rules.last();
        lemma_named_like_members(init, f);
        lemma_contains_is_substring(spec_to_lowercase(last.name), f);
        assert(rules =~= init.push(last));
        assert forall|r: RuleView|
            #![trigger named_like(rules, f).contains(r)]
            #![trigger rules.contains(r)]
            named_like(rules, f).contains(r) <==> rules.contains(r) && exists|i: int, j: int|
                0 <= i <= j <= spec_to_lowercase(r.name).len() && j - i == f.len()
                    && #[trigger] spec_to_lowercase(r.name).subrange(i, j) == f by {
            assert(init.push(last).contains(r) <==> init.contains(r) || r == last) by {
                if init.push(last).contains(r) {
                    let k = choose|k: int| 0 <= k < init.push(last).len() && init.push(last)[k] == r;
                    if k < init.len() {
                        assert(init[k] == r);
                    }
                }
                if init.contains(r) {
                    let k = choose|k: int| 0 <= k < init.len() && init[k] == r;
                    assert(init.push(last)[k] == r);
                }
                if r == last {
                    assert(init.push(last)[init.len() as int] == r);
                }
            }
            let n = named_like(init, f);
            assert(n.push(last).contains(r) <==> n.contains(r) || r == last) by {
                if n.push(last).contains(r) {
                    let k = choose|k: int| 0 <= k < n.push(last).len() && n.push(last)[k] == r;
                    if k < n.len() {
                        assert(n[k] == r);
                    }
                }
                if n.contains(r) {
                    let k = choose|k: int| 0 <= k < n.len() && n[k] == r;
                    assert(n.push(last)[k] == r);
                }
                if r == last {
                    assert(n.push(last)[n.len() as int] == r);
                }
            }
        }
    }
}

/// A listing with a filter covers exactly the rules whose lowercase name holds the
/// lowercase filter as a stretch of consecutive characters, anywhere in the name; a
/// listing without one covers every rule.
pub proof fn lemma_listing_filter_is_substring(rules: Seq<RuleView>, params: Seq<Seq<char>>)
    ensures
        params.len() == 0 ==> listed(rules, params) == rules,
        params.len() > 0 ==> forall|r: RuleView|
            #![trigger listed(rules, params).contains(r)]
            #![trigger rules.contains(r)]
            listed(rules, params).contains(r) <==> rules.contains(r) && exists|i: int, j: int|
                0 <= i <= j <= spec_to_lowercase(r.name).len() && j - i == spec_to_lowercase(
                    params[0],
                ).len() && #[trigger] spec_to_lowercase(r.name).subrange(i, j)
                    == spec_to_lowercase(params[0]),
{
    if params.len() > 0 {
        lemma_named_like_members(rules, spec_to_lowercase(params[0]));
    }
}

} // verus!
