//! The firewall interface that the session server drives, with rules described by port
//! ranges, and the choice of back end by configuration.
use vstd::prelude::*;
use crate::config::Config;
use crate::text::concat;

verus! {

broadcast use vstd::string::group_string_axioms;

/// A rule of this interface: its ports as text, its target, and a description.
#[derive(Debug, Clone)]
pub struct FirewallRule {
    pub name: String,
    pub src: String,
    pub dest: String,
    pub proto: String,
    pub ports: String,
    pub enabled: bool,
    pub target: String,
    pub description: String,
}

/// The contents of a [`FirewallRule`].
pub struct RuleView {
    pub name: Seq<char>,
    pub src: Seq<char>,
    pub dest: Seq<char>,
    pub proto: Seq<char>,
    pub ports: Seq<char>,
    pub enabled: bool,
    pub target: Seq<char>,
    pub description: Seq<char>,
}

impl View for FirewallRule {
    type V = RuleView;

    open spec fn view(&self) -> RuleView {
        RuleView {
            name: self.name@,
            src: self.src@,
            dest: self.dest@,
            proto: self.proto@,
            ports: self.ports@,
            enabled: self.enabled,
            target: self.target@,
            description: self.description@,
        }
    }
}

/// The state of the firewall.
#[derive(Debug, Clone)]
pub struct FirewallStatus {
    pub active: bool,
    pub rules_count: usize,
    pub default_policy: String,
    pub platform: String,
    pub zones: Vec<String>,
}

/// The contents of a [`FirewallStatus`].
pub struct StatusView {
    pub active: bool,
    pub rules_count: usize,
    pub default_policy: Seq<char>,
    pub platform: Seq<char>,
    pub zones: Seq<Seq<char>>,
}

impl View for FirewallStatus {
    type V = StatusView;

    open spec fn view(&self) -> StatusView {
        StatusView {
            active: self.active,
            rules_count: self.rules_count,
            default_policy: self.default_policy@,
            platform: self.platform@,
            zones: crate::text::strings_view(self.zones@),
        }
    }
}

/// The contents of a list of rules.
pub open spec fn rules_view(v: Seq<FirewallRule>) -> Seq<RuleView> {
    v.map_values(|r: FirewallRule| r@)
}

/// The answer of the firewall to a request.
#[derive(Debug, Clone)]
pub struct FirewallResponse {
    pub success: bool,
    pub message: String,
    pub rules: Option<Vec<FirewallRule>>,
    pub status: Option<FirewallStatus>,
}

/// The contents of a [`FirewallResponse`].
pub struct ResponseView {
    pub success: bool,
    pub message: Seq<char>,
    pub rules: Option<Seq<RuleView>>,
    pub status: Option<StatusView>,
}

impl View for FirewallResponse {
    type V = ResponseView;

    open spec fn view(&self) -> ResponseView {
        ResponseView {
            success: self.success,
            message: self.message@,
            rules: match self.rules {
                Some(v) => Some(rules_view(v@)),
                None => None,
            },
            status: match self.status {
                Some(s) => Some(s@),
                None => None,
            },
        }
    }
}

impl FirewallRule {
    /// A copy of the rule with the same contents.
    pub fn duplicate(&self) -> (r: FirewallRule)
        ensures
            r@ == self@,
    {
        FirewallRule {
            name: self.name.as_str().to_string(),
            src: self.src.as_str().to_string(),
            dest: self.dest.as_str().to_string(),
            proto: self.proto.as_str().to_string(),
            ports: self.ports.as_str().to_string(),
            enabled: self.enabled,
            target: self.target.as_str().to_string(),
            description: self.description.as_str().to_string(),
        }
    }
}

/// A copy of a list of rules with the same contents.
pub fn duplicate_rules(v: &Vec<FirewallRule>) -> (r: Vec<FirewallRule>)
    ensures
        rules_view(r@) == rules_view(v@),
{
    let mut r: Vec<FirewallRule> = Vec::new();
    let mut i: usize = 0;
    while i < v.len()
        invariant
            i <= v@.len(),
            rules_view(r@) == rules_view(v@).take(i as int),
        decreases v@.len() - i,
    {
        let ghost before = r@;
        let d = v[i].duplicate();
        r.push(d);
        assert(rules_view(r@) =~= rules_view(before).push(v@[i as int]@));
        assert(rules_view(r@) =~= rules_view(v@).take(i + 1));
        i = i + 1;
    }
    assert(rules_view(v@).take(i as int) =~= rules_view(v@));
    r
}

impl FirewallStatus {
    /// A copy of the status with the same contents.
    pub fn duplicate(&self) -> (r: FirewallStatus)
        ensures
            r@ == self@,
    {
        let mut zones: Vec<String> = Vec::new();
        let mut i: usize = 0;
        while i < self.zones.len()
            invariant
                i <= self.zones@.len(),
                crate::text::strings_view(zones@) == crate::text::strings_view(self.zones@).take(
                    i as int,
                ),
            decreases self.zones@.len() - i,
        {
            let ghost before = zones@;
            zones.push(self.zones[i].as_str().to_string());
            assert(crate::text::strings_view(zones@) =~= crate::text::strings_view(before).push(
                self.zones@[i as int]@,
            ));
            assert(crate::text::strings_view(zones@) =~= crate::text::strings_view(self.zones@).take(
                i + 1,
            ));
            i = i + 1;
        }
        assert(crate::text::strings_view(self.zones@).take(i as int) =~= crate::text::strings_view(
            self.zones@,
        ));
        FirewallStatus {
            active: self.active,
            rules_count: self.rules_count,
            default_policy: self.default_policy.as_str().to_string(),
            platform: self.platform.as_str().to_string(),
            zones,
        }
    }
}

impl FirewallResponse {
    /// A copy of the response with the same contents.
    pub fn duplicate(&self) -> (r: FirewallResponse)
        ensures
            r@ == self@,
    {
        FirewallResponse {
            success: self.success,
            message: self.message.as_str().to_string(),
            rules: match &self.rules {
                Some(v) => Some(duplicate_rules(v)),
                None => None,
            },
            status: match &self.status {
                Some(s) => Some(s.duplicate()),
                None => None,
            },
        }
    }
}

/// The operations of a firewall of this interface; failures carry their text.
pub trait FirewallManager {
    fn get_status(&self) -> Result<FirewallStatus, String>;

    fn list_rules(&self) -> Result<Vec<FirewallRule>, String>;

    fn enable_rule(&self, rule_name: &str) -> Result<FirewallResponse, String>;

    fn disable_rule(&self, rule_name: &str) -> Result<FirewallResponse, String>;

    fn create_rule(&self, rule: &FirewallRule) -> Result<FirewallResponse, String>;

    fn delete_rule(&self, rule_name: &str) -> Result<FirewallResponse, String>;

    fn update_rule(&self, rule: &FirewallRule) -> Result<FirewallResponse, String>;

    fn rule_exists(&self, rule_name: &str) -> Result<bool, String>;

    fn reload(&self) -> Result<(), String>;
}

/// The refusal of a firewall type on a platform.
pub open spec fn unsupported_message(firewall_type: Seq<char>, platform: Seq<char>) -> Seq<char> {
    "不支持的防火墙类型: "@ + firewall_type + " (平台: "@ + platform + ")"@
}

/// The firewall for the configuration. This build carries no back end for this
/// interface, so every configuration is refused with the firewall type and platform.
pub fn create_firewall_manager(config: &Config) -> (r: Result<crate::firewall::FirewallBackend, String>)
    ensures
        r matches Err(m) && m@ == unsupported_message(
            config.server.firewall.firewall_type@,
            config.platform@,
        ),
{
    let mut m = concat("不支持的防火墙类型: ", config.server.firewall.firewall_type.as_str());
    m.append(" (平台: ");
    m.append(config.platform.as_str());
    m.append(")");
    Err(m)
}

} // verus!
