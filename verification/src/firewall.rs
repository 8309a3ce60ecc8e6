//! Firewall rules, their errors, and the interface that every firewall back end offers.
use vstd::prelude::*;
use crate::text::str_eq;

pub mod linux;
pub mod invocation;
pub mod netsh;
pub mod openwrt;
pub mod traits;
pub mod windows;

verus! {

broadcast use vstd::string::group_string_axioms;

/// A firewall rule as the back ends report it.
#[derive(Debug, Clone)]
pub struct FirewallRule {
    pub name: String,
    pub src: String,
    pub dest: String,
    pub proto: String,
    pub port: u16,
    pub enabled: bool,
}

/// The contents of a [`FirewallRule`].
pub struct RuleView {
    pub name: Seq<char>,
    pub src: Seq<char>,
    pub dest: Seq<char>,
    pub proto: Seq<char>,
    pub port: u16,
    pub enabled: bool,
}

impl View for FirewallRule {
    type V = RuleView;

    open spec fn view(&self) -> RuleView {
        RuleView {
            name: self.name@,
            src: self.src@,
            dest: self.dest@,
            proto: self.proto@,
            port: self.port,
            enabled: self.enabled,
        }
    }
}

impl FirewallRule {
    /// A copy of the rule with the same contents.
    pub fn duplicate(&self) -> (r: FirewallRule)
        ensures
            r@ == self@,
    {
        FirewallRule {
            name: self.name.clone(),
            src: self.src.clone(),
            dest: self.dest.clone(),
            proto: self.proto.clone(),
            port: self.port,
            enabled: self.enabled,
        }
    }
}

/// The views of a list of rules.
pub open spec fn rules_view(rules: Seq<FirewallRule>) -> Seq<RuleView> {
    rules.map_values(|r: FirewallRule| r@)
}

pub proof fn lemma_rules_view_push(s: Seq<FirewallRule>, x: FirewallRule)
    ensures
        rules_view(s.push(x)) == rules_view(s).push(x@),
{
    assert(rules_view(s.push(x)) =~= rules_view(s).push(x@));
}

/// A copy of a list of rules with the same contents.
pub fn duplicate_rules(rules: &Vec<FirewallRule>) -> (r: Vec<FirewallRule>)
    ensures
        rules_view(r@) == rules_view(rules@),
{
    let mut r: Vec<FirewallRule> = Vec::new();
    let mut i: usize = 0;
    while i < rules.len()
        invariant
            i <= rules@.len(),
            rules_view(r@) == rules_view(rules@.take(i as int)),
        decreases rules@.len() - i,
    {
        let d = rules[i].duplicate();
        proof {
            lemma_rules_view_push(r@, d);
            lemma_rules_view_push(rules@.take(i as int), rules@[i as int]);
            assert(rules@.take(i + 1) =~= rules@.take(i as int).push(rules@[i as int]));
        }
        r.push(d);
        i = i + 1;
    }
    assert(rules@.take(i as int) =~= rules@);
    r
}

/// Index of the first rule named `name`, or the length of the list when there is none.
pub open spec fn find_rule(rules: Seq<RuleView>, name: Seq<char>) -> int
    decreases rules.len(),
{
    if rules.len() == 0 {
        0
    } else if rules[0].name == name {
        0
    } else {
        1 + find_rule(rules.drop_first(), name)
    }
}

/// Whether some rule is named `name`.
pub open spec fn has_rule(rules: Seq<RuleView>, name: Seq<char>) -> bool {
    exists|i: int| 0 <= i < rules.len() && (#[trigger] rules[i]).name == name
}

/// The list without the rules named `name`, the others in order.
pub open spec fn without_name(rules: Seq<RuleView>, name: Seq<char>) -> Seq<RuleView>
    decreases rules.len(),
{
    if rules.len() == 0 {
        rules
    } else {
        let init = without_name(rules.drop_last(), name);
        if rules.last().name == name {
            init
        } else {
            init.push(rules.last())
        }
    }
}

/// How many rules are enabled.
pub open spec fn count_enabled(rules: Seq<RuleView>) -> nat
    decreases rules.len(),
{
    if rules.len() == 0 {
        0
    } else {
        count_enabled(rules.drop_last()) + if rules.last().enabled {
            1nat
        } else {
            0nat
        }
    }
}

/// The rule `r` with its enabled flag set to `enabled`.
pub open spec fn with_enabled(r: RuleView, enabled: bool) -> RuleView {
    RuleView { enabled, ..r }
}

/// The list after setting the enabled flag of the first rule named `name`, when there is one.
pub open spec fn set_enabled(rules: Seq<RuleView>, name: Seq<char>, enabled: bool) -> Seq<
    RuleView,
> {
    let i = find_rule(rules, name);
    if i < rules.len() {
        rules.update(i, with_enabled(rules[i], enabled))
    } else {
        rules
    }
}

/// The enabled rule that `create_rule` adds.
pub open spec fn new_rule(
    name: Seq<char>,
    src: Seq<char>,
    dest: Seq<char>,
    proto: Seq<char>,
    port: u16,
) -> RuleView {
    RuleView { name, src, dest, proto, port, enabled: true }
}

pub proof fn lemma_find_rule(rules: Seq<RuleView>, name: Seq<char>)
    ensures
        0 <= find_rule(rules, name) <= rules.len(),
        find_rule(rules, name) < rules.len() ==> rules[find_rule(rules, name)].name == name,
        forall|j: int| 0 <= j < find_rule(rules, name) ==> (#[trigger] rules[j]).name != name,
        find_rule(rules, name) < rules.len() <==> has_rule(rules, name),
    decreases rules.len(),
{
    if rules.len() > 0 && rules[0].name != name {
        lemma_find_rule(rules.drop_first(), name);
        assert forall|j: int| 0 <= j < find_rule(rules, name) implies (#[trigger] rules[j]).name
            != name by {
            if j > 0 {
                assert(rules[j] == rules.drop_first()[j - 1]);
            }
        }
        if has_rule(rules, name) {
            let i = choose|i: int| 0 <= i < rules.len() && (#[trigger] rules[i]).name == name;
            assert(rules.drop_first()[i - 1] == rules[i]);
        }
        if has_rule(rules.drop_first(), name) {
            let i = choose|i: int|
                0 <= i < rules.drop_first().len() && (#[trigger] rules.drop_first()[i]).name
                    == name;
            assert(rules[i + 1] == rules.drop_first()[i]);
        }
    } else if rules.len() > 0 {
        assert(rules[0].name == name);
    }
}

pub proof fn lemma_without_name(rules: Seq<RuleView>, name: Seq<char>)
    ensures
        without_name(rules, name).len() <= rules.len(),
        without_name(rules, name).len() == rules.len() <==> !has_rule(rules, name),
        !has_rule(without_name(rules, name), name),
        !has_rule(rules, name) ==> without_name(rules, name) == rules,
    decreases rules.len(),
{
    if rules.len() > 0 {
        let init = rules.drop_last();
        lemma_without_name(init, name);
        if has_rule(init, name) {
            let i = choose|i: int| 0 <= i < init.len() && (#[trigger] init[i]).name == name;
            assert(rules[i] == init[i]);
        }
        if has_rule(rules, name) && !has_rule(init, name) {
            let i = choose|i: int| 0 <= i < rules.len() && (#[trigger] rules[i]).name == name;
            if i < init.len() {
                assert(init[i] == rules[i]);
            }
        }
        if !has_rule(rules, name) {
            assert(rules.last() == rules[rules.len() - 1]);
            assert(!has_rule(init, name)) by {
                if has_rule(init, name) {
                    let i = choose|i: int| 0 <= i < init.len() && (#[trigger] init[i]).name == name;
                    assert(rules[i] == init[i]);
                }
            }
            assert(rules =~= init.push(rules.last()));
        }
        let w = without_name(rules, name);
        if has_rule(w, name) {
            let i = choose|i: int| 0 <= i < w.len() && (#[trigger] w[i]).name == name;
            if rules.last().name != name && i == w.len() - 1 {
            } else {
                assert(without_name(init, name)[i] == w[i]);
            }
        }
    }
}

pub proof fn lemma_count_enabled_bound(rules: Seq<RuleView>)
    ensures
        count_enabled(rules) <= rules.len(),
    decreases rules.len(),
{
    if rules.len() > 0 {
        lemma_count_enabled_bound(rules.drop_last());
    }
}


/// Index of the first rule named `name`, or the number of rules.
pub fn position_of(rules: &Vec<FirewallRule>, name: &str) -> (r: usize)
    ensures
        r == find_rule(rules_view(rules@), name@),
{
    proof {
        lemma_find_rule(rules_view(rules@), name@);
    }
    let ghost rv = rules_view(rules@);
    let mut i: usize = 0;
    while i < rules.len()
        invariant
            i <= rules@.len(),
            rv == rules_view(rules@),
            forall|j: int| 0 <= j < i ==> (#[trigger] rv[j]).name != name@,
            0 <= find_rule(rv, name@) <= rv.len(),
            find_rule(rv, name@) < rv.len() ==> rv[find_rule(rv, name@)].name == name@,
            forall|j: int| 0 <= j < find_rule(rv, name@) ==> (#[trigger] rv[j]).name != name@,
        decreases rules@.len() - i,
    {
        if str_eq(rules[i].name.as_str(), name) {
            assert(rv[i as int].name == name@);
            return i;
        }
        assert(rv[i as int].name != name@);
        i = i + 1;
    }
    i
}

/// Sets the enabled flag of the first rule named `name`; fails when there is none.
pub fn set_rule_enabled(rules: &mut Vec<FirewallRule>, name: &str, enabled: bool) -> (r: Result<
    (),
    FirewallError,
>)
    ensures
        r is Ok <==> has_rule(rules_view(old(rules)@), name@),
        r matches Err(e) ==> e is RuleNotFound && e->RuleNotFound_0@ == name@,
        rules_view(final(rules)@) == set_enabled(rules_view(old(rules)@), name@, enabled),
{
    proof {
        lemma_find_rule(rules_view(rules@), name@);
    }
    let i = position_of(rules, name);
    if i < rules.len() {
        let mut rule = rules[i].duplicate();
        rule.enabled = enabled;
        rules.set(i, rule);
        assert(rules_view(rules@) =~= set_enabled(rules_view(old(rules)@), name@, enabled));
        Ok(())
    } else {
        Err(FirewallError::RuleNotFound(name.to_string()))
    }
}

/// The rules not named `name`, in order.
pub fn rules_without(rules: &Vec<FirewallRule>, name: &str) -> (r: Vec<FirewallRule>)
    ensures
        rules_view(r@) == without_name(rules_view(rules@), name@),
{
    let ghost rv = rules_view(rules@);
    let mut kept: Vec<FirewallRule> = Vec::new();
    let mut i: usize = 0;
    while i < rules.len()
        invariant
            i <= rules@.len(),
            rv == rules_view(rules@),
            rules_view(kept@) == without_name(rv.take(i as int), name@),
        decreases rules@.len() - i,
    {
        let ghost prefix = rv.take(i + 1);
        assert(prefix.drop_last() =~= rv.take(i as int));
        assert(prefix.last() == rules@[i as int]@);
        if !str_eq(rules[i].name.as_str(), name) {
            let d = rules[i].duplicate();
            proof {
                lemma_rules_view_push(kept@, d);
            }
            kept.push(d);
        }
        i = i + 1;
    }
    assert(rv.take(i as int) =~= rv);
    kept
}

/// Replaces the rules named like `rule` by `rule`, at the end of the list.
pub fn replace_rule(rules: &mut Vec<FirewallRule>, rule: FirewallRule)
    ensures
        rules_view(final(rules)@) == without_name(rules_view(old(rules)@), rule.name@).push(rule@),
{
    let mut kept = rules_without(rules, rule.name.as_str());
    proof {
        lemma_rules_view_push(kept@, rule);
    }
    kept.push(rule);
    *rules = kept;
}

/// Removes the rules named `name`; fails, changing nothing, when there is none.
pub fn remove_rules(rules: &mut Vec<FirewallRule>, name: &str) -> (r: Result<(), FirewallError>)
    ensures
        r is Ok <==> has_rule(rules_view(old(rules)@), name@),
        r matches Err(e) ==> e is RuleNotFound && e->RuleNotFound_0@ == name@,
        rules_view(final(rules)@) == without_name(rules_view(old(rules)@), name@),
{
    proof {
        lemma_without_name(rules_view(rules@), name@);
    }
    let kept = rules_without(rules, name);
    let before = rules.len();
    let after = kept.len();
    *rules = kept;
    if after < before {
        Ok(())
    } else {
        Err(FirewallError::RuleNotFound(name.to_string()))
    }
}

/// How many rules are enabled.
pub fn enabled_count(rules: &Vec<FirewallRule>) -> (r: usize)
    ensures
        r == count_enabled(rules_view(rules@)),
{
    let ghost rv = rules_view(rules@);
    let mut n: usize = 0;
    let mut i: usize = 0;
    while i < rules.len()
        invariant
            i <= rules@.len(),
            rv == rules_view(rules@),
            n == count_enabled(rv.take(i as int)),
            n <= i,
        decreases rules@.len() - i,
    {
        let ghost prefix = rv.take(i + 1);
        assert(prefix.drop_last() =~= rv.take(i as int));
        assert(prefix.last() == rules@[i as int]@);
        if rules[i].enabled {
            n = n + 1;
        }
        i = i + 1;
    }
    assert(rv.take(i as int) =~= rv);
    n
}

/// The state of a firewall as a whole.
#[derive(Debug, Clone)]
pub struct FirewallStatus {
    pub active: bool,
    pub platform: String,
    pub total_rules: usize,
    pub active_rules: usize,
}

/// The contents of a [`FirewallStatus`].
pub struct StatusView {
    pub active: bool,
    pub platform: Seq<char>,
    pub total_rules: nat,
    pub active_rules: nat,
}

impl View for FirewallStatus {
    type V = StatusView;

    open spec fn view(&self) -> StatusView {
        StatusView {
            active: self.active,
            platform: self.platform@,
            total_rules: self.total_rules as nat,
            active_rules: self.active_rules as nat,
        }
    }
}

/// Why a firewall operation failed.
#[derive(Debug, Clone, PartialEq, Eq)]
pub enum FirewallError {
    RuleNotFound(String),
    CommandFailed(String),
    NotImplemented(String),
    InvalidParameter(String),
}

/// The contents of a [`FirewallError`].
pub enum ErrorView {
    RuleNotFound(Seq<char>),
    CommandFailed(Seq<char>),
    NotImplemented(Seq<char>),
    InvalidParameter(Seq<char>),
}

impl View for FirewallError {
    type V = ErrorView;

    open spec fn view(&self) -> ErrorView {
        match self {
            FirewallError::RuleNotFound(s) => ErrorView::RuleNotFound(s@),
            FirewallError::CommandFailed(s) => ErrorView::CommandFailed(s@),
            FirewallError::NotImplemented(s) => ErrorView::NotImplemented(s@),
            FirewallError::InvalidParameter(s) => ErrorView::InvalidParameter(s@),
        }
    }
}

impl FirewallError {
    /// A copy of the error with the same contents.
    pub fn duplicate(&self) -> (r: FirewallError)
        ensures
            r@ == self@,
    {
        match self {
            FirewallError::RuleNotFound(s) => FirewallError::RuleNotFound(s.clone()),
            FirewallError::CommandFailed(s) => FirewallError::CommandFailed(s.clone()),
            FirewallError::NotImplemented(s) => FirewallError::NotImplemented(s.clone()),
            FirewallError::InvalidParameter(s) => FirewallError::InvalidParameter(s.clone()),
        }
    }

    /// The text that describes the error.
    pub fn message(&self) -> (r: String)
        ensures
            r@ == error_message(self@),
    {
        match self {
            FirewallError::RuleNotFound(s) => crate::text::concat("Rule not found: ", s.as_str()),
            FirewallError::CommandFailed(s) => crate::text::concat(
                "Firewall command failed: ",
                s.as_str(),
            ),
            FirewallError::NotImplemented(s) => crate::text::concat(
                "Feature not implemented: ",
                s.as_str(),
            ),
            FirewallError::InvalidParameter(s) => crate::text::concat(
                "Invalid parameter: ",
                s.as_str(),
            ),
        }
    }
}

/// The text of an error: its kind, then its detail.
pub open spec fn error_message(e: ErrorView) -> Seq<char> {
    match e {
        ErrorView::RuleNotFound(s) => "Rule not found: "@ + s,
        ErrorView::CommandFailed(s) => "Firewall command failed: "@ + s,
        ErrorView::NotImplemented(s) => "Feature not implemented: "@ + s,
        ErrorView::InvalidParameter(s) => "Invalid parameter: "@ + s,
    }
}

/// The parameters of a rule update: the rule, which addresses to replace and by what,
/// and the settings to give the rule (absent ones are kept).
#[derive(Debug, Clone)]
pub struct FirewallUpdateConfig {
    pub name: String,
    pub direction: Option<String>,
    pub old_ip_pattern: String,
    pub new_ip: String,
    pub action: Option<String>,
    pub protocol: Option<String>,
    pub local_port: Option<u16>,
    pub remote_port: Option<u16>,
    pub local_addr: Option<String>,
    pub description: Option<String>,
    pub enabled: Option<bool>,
}

/// The operations of a firewall back end.
pub trait FirewallManager {
    fn list_rules(&self) -> Result<Vec<FirewallRule>, FirewallError>;

    fn enable_rule(&mut self, name: &str, dir: Option<&str>) -> Result<(), FirewallError>;

    fn disable_rule(&mut self, name: &str, dir: Option<&str>) -> Result<(), FirewallError>;

    fn create_rule(
        &mut self,
        name: &str,
        src: &str,
        dest: &str,
        proto: &str,
        port: u16,
        dir: Option<&str>,
    ) -> Result<(), FirewallError>;

    fn delete_rule(&mut self, name: &str) -> Result<(), FirewallError>;

    fn get_status(&self) -> Result<FirewallStatus, FirewallError>;

    /// Replaces the remote addresses of a rule; back ends without this feature refuse it.
    fn update_rule(
        &mut self,
        name: &str,
        direction: Option<&str>,
        old_ip_pattern: &str,
        new_ip: &str,
        action: Option<&str>,
        protocol: Option<&str>,
        local_port: Option<u16>,
        remote_port: Option<u16>,
        local_addr: Option<&str>,
        description: Option<&str>,
        enabled: Option<bool>,
    ) -> (r: Result<bool, FirewallError>)
        default_ensures
            r matches Err(e) && e@ == ErrorView::NotImplemented(
                "update_rule not supported on this platform"@,
            ),
    {
        Err(FirewallError::NotImplemented("update_rule not supported on this platform".to_string()))
    }

    /// Checks that a rule exists and admits the expected addresses; back ends without
    /// this feature refuse it.
    fn verify_rule(
        &self,
        name: &str,
        direction: Option<&str>,
        expected_ips: &Vec<String>,
        strict_mode: bool,
    ) -> (r: Result<bool, FirewallError>)
        default_ensures
            r matches Err(e) && e@ == ErrorView::NotImplemented(
                "verify_rule not supported on this platform"@,
            ),
    {
        Err(FirewallError::NotImplemented("verify_rule not supported on this platform".to_string()))
    }
}

/// A firewall back end.
pub enum FirewallBackend {
    OpenWrt(crate::firewall::openwrt::OpenWrtFirewall),
    Linux(crate::firewall::linux::LinuxFirewall),
    Windows(crate::firewall::windows::WindowsFirewall),
}

/// The kinds of back end.
pub enum BackendKind {
    OpenWrt,
    Linux,
    Windows,
}

/// The kind of back end a platform name, in lowercase, selects: OpenWrt unless it names
/// Linux or Windows.
pub open spec fn backend_for(lower: Seq<char>) -> BackendKind {
    if lower == "linux"@ {
        BackendKind::Linux
    } else if lower == "windows"@ {
        BackendKind::Windows
    } else {
        BackendKind::OpenWrt
    }
}

impl FirewallBackend {
    /// The kind of the back end.
    pub open spec fn kind(&self) -> BackendKind {
        match self {
            FirewallBackend::OpenWrt(_) => BackendKind::OpenWrt,
            FirewallBackend::Linux(_) => BackendKind::Linux,
            FirewallBackend::Windows(_) => BackendKind::Windows,
        }
    }

    /// The back end holds no rule of its own yet.
    pub open spec fn is_fresh(&self) -> bool {
        match self {
            FirewallBackend::OpenWrt(_) => true,
            FirewallBackend::Linux(l) => l.rules() == Seq::<RuleView>::empty(),
            FirewallBackend::Windows(w) => w.fallback() == Seq::<RuleView>::empty(),
        }
    }
}

/// A fresh back end of the kind that the platform name `lower`, already in lowercase,
/// selects.
pub fn backend_named(lower: &str) -> (r: FirewallBackend)
    ensures
        r.kind() == backend_for(lower@),
        r.is_fresh(),
{
    if str_eq(lower, "linux") {
        FirewallBackend::Linux(crate::firewall::linux::LinuxFirewall::new())
    } else if str_eq(lower, "windows") {
        FirewallBackend::Windows(crate::firewall::windows::WindowsFirewall::new())
    } else {
        FirewallBackend::OpenWrt(crate::firewall::openwrt::OpenWrtFirewall::new())
    }
}

/// A fresh back end for the platform, whose name is read without regard to case: OpenWrt,
/// Linux or Windows, and OpenWrt for any other name.
pub fn get_firewall_manager(platform: &str) -> (r: FirewallBackend)
    ensures
        r.kind() == backend_for(crate::text::spec_to_lowercase(platform@)),
        r.is_fresh(),
{
    let lower = crate::text::lowercase(platform);
    backend_named(lower.as_str())
}

/// Creating a rule (dropping those of its name, adding it last) leaves exactly one rule
/// of that name: the new one, at the end, and the first found by name.
pub proof fn lemma_create_leaves_one(rules: Seq<RuleView>, r: RuleView)
    ensures
        ({
            let after = without_name(rules, r.name).push(r);
            &&& after.last() == r
            &&& find_rule(after, r.name) == after.len() - 1
            &&& forall|i: int| 0 <= i < after.len() - 1 ==> (#[trigger] after[i]).name != r.name
        }),
{
    let w = without_name(rules, r.name);
    let after = w.push(r);
    lemma_without_name(rules, r.name);
    assert forall|i: int| 0 <= i < after.len() - 1 implies (#[trigger] after[i]).name != r.name by {
        assert(after[i] == w[i]);
        if w[i].name == r.name {
            assert(has_rule(w, r.name));
        }
    }
    lemma_find_rule(after, r.name);
    assert(after[after.len() - 1] == r);
}

/// Deleting a rule right after creating it leaves the rules of other names as they were
/// before the creation.
pub proof fn lemma_delete_after_create(rules: Seq<RuleView>, r: RuleView)
    ensures
        without_name(without_name(rules, r.name).push(r), r.name) == without_name(rules, r.name),
{
    let w = without_name(rules, r.name);
    assert(w.push(r).drop_last() =~= w);
    lemma_without_name(rules, r.name);
    lemma_without_name(w, r.name);
}

/// Enabling or disabling a rule keeps the number of rules, their order and their names,
/// and changes at most the first rule of that name.
pub proof fn lemma_set_enabled_shape(rules: Seq<RuleView>, name: Seq<char>, enabled: bool)
    ensures
        set_enabled(rules, name, enabled).len() == rules.len(),
        forall|i: int|
            0 <= i < rules.len() ==> (#[trigger] set_enabled(rules, name, enabled)[i]).name
                == rules[i].name,
        forall|i: int|
            0 <= i < rules.len() && i != find_rule(rules, name) ==> #[trigger] set_enabled(
                rules,
                name,
                enabled,
            )[i] == rules[i],
        has_rule(rules, name) ==> set_enabled(rules, name, enabled)[find_rule(rules, name)].enabled
            == enabled,
{
    lemma_find_rule(rules, name);
}

} // verus!
