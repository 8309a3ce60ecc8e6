//! The `netsh` command lines of the Windows back end, and how the exit status and output
//! of one run become a result.
use vstd::prelude::*;
use crate::text::{
    chars_of, concat, contains, contains_lit, dec, push_decimal, range_starts_with, starts_with,
    string_of, strings_view, trim, trim_range,
};
use crate::firewall::{ErrorView, FirewallError};

verus! {

broadcast use vstd::string::group_string_axioms;

/// `netsh advfirewall firewall show rule name=<name> dir=<dir>`.
pub open spec fn show_rule_args(name: Seq<char>, dir: Seq<char>) -> Seq<Seq<char>> {
    seq!["advfirewall"@, "firewall"@, "show"@, "rule"@, "name="@ + name, "dir="@ + dir]
}

/// `netsh advfirewall firewall show rule name=all`.
pub open spec fn show_all_args() -> Seq<Seq<char>> {
    seq!["advfirewall"@, "firewall"@, "show"@, "rule"@, "name=all"@]
}

/// `netsh advfirewall firewall set rule name=<name> dir=<dir> new enable=yes|no`.
pub open spec fn set_enable_args(name: Seq<char>, dir: Seq<char>, enable: bool) -> Seq<Seq<char>> {
    seq![
        "advfirewall"@,
        "firewall"@,
        "set"@,
        "rule"@,
        "name="@ + name,
        "dir="@ + dir,
        "new"@,
        if enable {
            "enable=yes"@
        } else {
            "enable=no"@
        },
    ]
}

/// `netsh advfirewall firewall add rule` for a rule that admits `proto` on `port` from
/// `src` (`any` or empty for everyone).
pub open spec fn add_rule_args(
    name: Seq<char>,
    dir: Seq<char>,
    proto: Seq<char>,
    port: u16,
    src: Seq<char>,
) -> Seq<Seq<char>> {
    let base = seq![
        "advfirewall"@,
        "firewall"@,
        "add"@,
        "rule"@,
        "name="@ + name,
        "dir="@ + dir,
        "action=allow"@,
        "protocol="@ + proto,
        "localport="@ + dec(port as nat),
    ];
    if src != "any"@ && src.len() > 0 {
        base.push("remoteip="@ + src)
    } else {
        base
    }
}

/// `netsh advfirewall firewall delete rule name=<name>`.
pub open spec fn delete_args(name: Seq<char>) -> Seq<Seq<char>> {
    seq!["advfirewall"@, "firewall"@, "delete"@, "rule"@, "name="@ + name]
}

/// `netsh advfirewall firewall delete rule name=<name> dir=<dir>`.
pub open spec fn delete_dir_args(name: Seq<char>, dir: Seq<char>) -> Seq<Seq<char>> {
    seq!["advfirewall"@, "firewall"@, "delete"@, "rule"@, "name="@ + name, "dir="@ + dir]
}

/// The settings of a rule to add with every parameter.
pub struct RuleParams {
    pub name: Seq<char>,
    pub dir: Seq<char>,
    pub remote_ip: Seq<char>,
    pub action: Seq<char>,
    pub protocol: Seq<char>,
    pub local_port: Option<u16>,
    pub remote_port: Option<u16>,
    pub local_addr: Option<Seq<char>>,
    pub description: Option<Seq<char>>,
    pub enabled: Option<bool>,
}

/// `netsh advfirewall firewall add rule` with every parameter: the optional ones only
/// when given (and, for addresses and description, not empty).
pub open spec fn params_args(p: RuleParams) -> Seq<Seq<char>> {
    let base = seq![
        "advfirewall"@,
        "firewall"@,
        "add"@,
        "rule"@,
        "name="@ + p.name,
        "dir="@ + p.dir,
        "action="@ + p.action,
        "protocol="@ + p.protocol,
    ];
    let a1 = if p.remote_ip != "any"@ && p.remote_ip.len() > 0 {
        base.push("remoteip="@ + p.remote_ip)
    } else {
        base
    };
    let a2 = match p.local_port {
        Some(n) => a1.push("localport="@ + dec(n as nat)),
        None => a1,
    };
    let a3 = match p.remote_port {
        Some(n) => a2.push("remoteport="@ + dec(n as nat)),
        None => a2,
    };
    let a4 = match p.local_addr {
        Some(x) => if x.len() > 0 {
            a3.push("localaddr="@ + x)
        } else {
            a3
        },
        None => a3,
    };
    let a5 = match p.description {
        Some(x) => if x.len() > 0 {
            a4.push("description="@ + x)
        } else {
            a4
        },
        None => a4,
    };
    match p.enabled {
        Some(e) => a5.push(
            "enable="@ + if e {
                "yes"@
            } else {
                "no"@
            },
        ),
        None => a5,
    }
}

/// The settings of a rule to add with every parameter.
pub struct RuleSettings {
    pub name: String,
    pub dir: String,
    pub remote_ip: String,
    pub action: String,
    pub protocol: String,
    pub local_port: Option<u16>,
    pub remote_port: Option<u16>,
    pub local_addr: Option<String>,
    pub description: Option<String>,
    pub enabled: Option<bool>,
}

/// The contents of an optional string.
pub open spec fn opt_string_view(o: Option<String>) -> Option<Seq<char>> {
    match o {
        Some(s) => Some(s@),
        None => None,
    }
}

impl View for RuleSettings {
    type V = RuleParams;

    open spec fn view(&self) -> RuleParams {
        RuleParams {
            name: self.name@,
            dir: self.dir@,
            remote_ip: self.remote_ip@,
            action: self.action@,
            protocol: self.protocol@,
            local_port: self.local_port,
            remote_port: self.remote_port,
            local_addr: opt_string_view(self.local_addr),
            description: opt_string_view(self.description),
            enabled: self.enabled,
        }
    }
}

/// The first four words of every command: `advfirewall firewall <verb> rule`.
fn command(verb: &str) -> (r: Vec<String>)
    ensures
        strings_view(r@) == seq!["advfirewall"@, "firewall"@, verb@, "rule"@],
{
    let mut v: Vec<String> = Vec::new();
    v.push("advfirewall".to_string());
    v.push("firewall".to_string());
    v.push(verb.to_string());
    v.push("rule".to_string());
    assert(strings_view(v@) =~= seq!["advfirewall"@, "firewall"@, verb@, "rule"@]);
    v
}

/// Appends one word.
fn push_word(v: &mut Vec<String>, w: String)
    ensures
        strings_view(final(v)@) == strings_view(old(v)@).push(w@),
{
    v.push(w);
    assert(strings_view(final(v)@) =~= strings_view(old(v)@).push(w@));
}

/// `show rule name=<name> dir=<dir>`.
pub fn show_rule_cmd(name: &str, dir: &str) -> (r: Vec<String>)
    ensures
        strings_view(r@) == show_rule_args(name@, dir@),
{
    let mut v = command("show");
    push_word(&mut v, concat("name=", name));
    push_word(&mut v, concat("dir=", dir));
    assert(strings_view(v@) =~= show_rule_args(name@, dir@));
    v
}

/// `show rule name=all`.
pub fn show_all_cmd() -> (r: Vec<String>)
    ensures
        strings_view(r@) == show_all_args(),
{
    let mut v = command("show");
    push_word(&mut v, "name=all".to_string());
    assert(strings_view(v@) =~= show_all_args());
    v
}

/// `set rule name=<name> dir=<dir> new enable=yes|no`.
pub fn set_enable_cmd(name: &str, dir: &str, enable: bool) -> (r: Vec<String>)
    ensures
        strings_view(r@) == set_enable_args(name@, dir@, enable),
{
    let mut v = command("set");
    push_word(&mut v, concat("name=", name));
    push_word(&mut v, concat("dir=", dir));
    push_word(&mut v, "new".to_string());
    if enable {
        push_word(&mut v, "enable=yes".to_string());
    } else {
        push_word(&mut v, "enable=no".to_string());
    }
    assert(strings_view(v@) =~= set_enable_args(name@, dir@, enable));
    v
}

/// `prefix` followed by the decimal digits of `n`.
fn with_number(prefix: &str, n: u16) -> (r: String)
    ensures
        r@ == prefix@ + dec(n as nat),
{
    let mut s = prefix.to_string();
    push_decimal(&mut s, n as u64);
    s
}

/// `add rule` for a rule that admits `proto` on `port` from `src`.
pub fn add_rule_cmd(name: &str, dir: &str, proto: &str, port: u16, src: &str) -> (r: Vec<String>)
    ensures
        strings_view(r@) == add_rule_args(name@, dir@, proto@, port, src@),
{
    let mut v = command("add");
    push_word(&mut v, concat("name=", name));
    push_word(&mut v, concat("dir=", dir));
    push_word(&mut v, "action=allow".to_string());
    push_word(&mut v, concat("protocol=", proto));
    push_word(&mut v, with_number("localport=", port));
    if !crate::text::str_eq(src, "any") && !src.is_empty() {
        push_word(&mut v, concat("remoteip=", src));
    }
    assert(strings_view(v@) =~= add_rule_args(name@, dir@, proto@, port, src@));
    v
}

/// `delete rule name=<name>`.
pub fn delete_cmd(name: &str) -> (r: Vec<String>)
    ensures
        strings_view(r@) == delete_args(name@),
{
    let mut v = command("delete");
    push_word(&mut v, concat("name=", name));
    assert(strings_view(v@) =~= delete_args(name@));
    v
}

/// `delete rule name=<name> dir=<dir>`.
pub fn delete_dir_cmd(name: &str, dir: &str) -> (r: Vec<String>)
    ensures
        strings_view(r@) == delete_dir_args(name@, dir@),
{
    let mut v = command("delete");
    push_word(&mut v, concat("name=", name));
    push_word(&mut v, concat("dir=", dir));
    assert(strings_view(v@) =~= delete_dir_args(name@, dir@));
    v
}

/// `add rule` with every parameter given.
pub fn params_cmd(p: &RuleSettings) -> (r: Vec<String>)
    ensures
        strings_view(r@) == params_args(p@),
{
    let mut v = command("add");
    push_word(&mut v, concat("name=", p.name.as_str()));
    push_word(&mut v, concat("dir=", p.dir.as_str()));
    push_word(&mut v, concat("action=", p.action.as_str()));
    push_word(&mut v, concat("protocol=", p.protocol.as_str()));
    if !crate::text::str_eq(p.remote_ip.as_str(), "any") && !p.remote_ip.as_str().is_empty() {
        push_word(&mut v, concat("remoteip=", p.remote_ip.as_str()));
    }
    match p.local_port {
        Some(n) => push_word(&mut v, with_number("localport=", n)),
        None => {},
    }
    match p.remote_port {
        Some(n) => push_word(&mut v, with_number("remoteport=", n)),
        None => {},
    }
    match &p.local_addr {
        Some(x) => {
            if !x.as_str().is_empty() {
                push_word(&mut v, concat("localaddr=", x.as_str()));
            }
        },
        None => {},
    }
    match &p.description {
        Some(x) => {
            if !x.as_str().is_empty() {
                push_word(&mut v, concat("description=", x.as_str()));
            }
        },
        None => {},
    }
    match p.enabled {
        Some(e) => push_word(
            &mut v,
            concat(
                "enable=",
                if e {
                    "yes"
                } else {
                    "no"
                },
            ),
        ),
        None => {},
    }
    assert(strings_view(v@) =~= params_args(p@));
    v
}

/// The rendering of a list of words with `Debug` (`["a", "b"]`), named by the trusted item
/// [`debug_words`].
pub uninterp spec fn spec_debug_words(words: Seq<Seq<char>>) -> Seq<char>;

/// `format!("{:?}", words)`: the `Debug` rendering of the words, which depends on their
/// contents alone. What it is on given words is not stated.
#[verifier::external_body]
fn debug_words(words: &Vec<String>) -> (r: String)
    ensures
        r@ == spec_debug_words(strings_view(words@)),
{
    format!("{:?}", words)
}

/// What a failed run reports: its trimmed standard output, else its trimmed standard
/// error, else a fixed hint.
pub open spec fn failure_detail(stdout: Seq<char>, stderr: Seq<char>) -> Seq<char> {
    if trim(stdout).len() > 0 {
        trim(stdout)
    } else if trim(stderr).len() > 0 {
        trim(stderr)
    } else {
        "Operation failed (Requires Administrator privileges or rule does not exist)"@
    }
}

/// A failure report that says no rule matched.
pub open spec fn says_no_match(detail: Seq<char>) -> bool {
    contains(detail, "No rules match"@) || contains(detail, "没有与指定标准匹配的规则"@)
}

/// The value of the first `name=` word from index `i` on, or `unknown`.
pub open spec fn named_rule_from(args: Seq<Seq<char>>, i: int) -> Seq<char>
    decreases args.len() - i,
{
    if 0 <= i < args.len() {
        if starts_with(args[i], "name="@) {
            args[i].subrange(5, args[i].len() as int)
        } else {
            named_rule_from(args, i + 1)
        }
    } else {
        "unknown"@
    }
}

/// The result of one run of `netsh` with `args`: its standard output on success; on
/// failure, that the rule was not found when the report says so, else that the command
/// failed, with the words and the report.
pub open spec fn run_result(
    args: Seq<Seq<char>>,
    success: bool,
    stdout: Seq<char>,
    stderr: Seq<char>,
) -> Result<Seq<char>, ErrorView> {
    if success {
        Ok(stdout)
    } else {
        let detail = failure_detail(stdout, stderr);
        if says_no_match(detail) {
            Err(ErrorView::RuleNotFound(named_rule_from(args, 0)))
        } else {
            Err(
                ErrorView::CommandFailed(
                    "netsh "@ + spec_debug_words(args) + " failed: "@ + detail,
                ),
            )
        }
    }
}

/// The value of the first `name=` word, or `unknown`.
fn named_rule(args: &Vec<String>) -> (r: String)
    ensures
        r@ == named_rule_from(strings_view(args@), 0),
{
    let ghost av = strings_view(args@);
    let prefix = chars_of("name=");
    proof {
        reveal_strlit("name=");
    }
    let mut i: usize = 0;
    while i < args.len()
        invariant
            i <= args@.len(),
            av == strings_view(args@),
            prefix@ == "name="@,
            prefix@.len() == 5,
            named_rule_from(av, 0) == named_rule_from(av, i as int),
        decreases args@.len() - i,
    {
        let c = chars_of(args[i].as_str());
        assert(c@.subrange(0, c@.len() as int) =~= c@);
        assert(av[i as int] == c@);
        if range_starts_with(&c, 0, c.len(), &prefix) {
            return string_of(&c, 5, c.len());
        }
        i = i + 1;
    }
    "unknown".to_string()
}

/// The result of one run of `netsh` with `args`, from its exit status and output.
pub fn run_outcome(args: &Vec<String>, success: bool, stdout: String, stderr: &str) -> (r: Result<
    String,
    FirewallError,
>)
    ensures
        match (r, run_result(strings_view(args@), success, stdout@, stderr@)) {
            (Ok(a), Ok(b)) => a@ == b,
            (Err(e), Err(f)) => e@ == f,
            _ => false,
        },
{
    if success {
        return Ok(stdout);
    }
    let so = chars_of(stdout.as_str());
    assert(so@.subrange(0, so@.len() as int) =~= so@);
    let (a, b) = trim_range(&so, 0, so.len());
    let detail = if a < b {
        string_of(&so, a, b)
    } else {
        let se = chars_of(stderr);
        assert(se@.subrange(0, se@.len() as int) =~= se@);
        let (c, d) = trim_range(&se, 0, se.len());
        if c < d {
            string_of(&se, c, d)
        } else {
            "Operation failed (Requires Administrator privileges or rule does not exist)".to_string()
        }
    };
    let dv = chars_of(detail.as_str());
    if contains_lit(&dv, "No rules match") || contains_lit(&dv, "没有与指定标准匹配的规则") {
        return Err(FirewallError::RuleNotFound(named_rule(args)));
    }
    let mut m = concat("netsh ", debug_words(args).as_str());
    m.append(" failed: ");
    m.append(detail.as_str());
    Err(FirewallError::CommandFailed(m))
}

} // verus!
