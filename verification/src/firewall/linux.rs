//! The Linux firewall back end: rules kept in memory.
use vstd::prelude::*;
use crate::firewall::{
    FirewallError, FirewallManager, FirewallRule, FirewallStatus, RuleView, count_enabled,
    duplicate_rules, enabled_count, has_rule, new_rule, remove_rules, replace_rule, rules_view,
    set_enabled, set_rule_enabled, without_name,
};

verus! {

broadcast use vstd::string::group_string_axioms;

/// The Linux back end. It keeps its rules in memory, in the order they were created.
pub struct LinuxFirewall {
    rules: Vec<FirewallRule>,
}

impl LinuxFirewall {
    /// The rules, in order.
    pub closed spec fn rules(&self) -> Seq<RuleView> {
        rules_view(self.rules@)
    }

    /// A back end without rules.
    pub fn new() -> (r: Self)
        ensures
            r.rules() == Seq::<RuleView>::empty(),
    {
        let r = LinuxFirewall { rules: Vec::new() };
        assert(r.rules() =~= Seq::<RuleView>::empty());
        r
    }
}

impl Default for LinuxFirewall {
    /// A back end without rules.
    fn default() -> (r: Self)
        ensures
            r.rules() == Seq::<RuleView>::empty(),
    {
        LinuxFirewall::new()
    }
}

impl FirewallManager for LinuxFirewall {
    /// A copy of the rules.
    fn list_rules(&self) -> (r: Result<Vec<FirewallRule>, FirewallError>)
        ensures
            r matches Ok(v) && rules_view(v@) == self.rules(),
    {
        Ok(duplicate_rules(&self.rules))
    }

    /// Enables the first rule named `name`; fails when there is none.
    fn enable_rule(&mut self, name: &str, dir: Option<&str>) -> (r: Result<(), FirewallError>)
        ensures
            r is Ok <==> has_rule(old(self).rules(), name@),
            r matches Err(e) ==> e is RuleNotFound && e->RuleNotFound_0@ == name@,
            final(self).rules() == set_enabled(old(self).rules(), name@, true),
    {
        set_rule_enabled(&mut self.rules, name, true)
    }

    /// Disables the first rule named `name`; fails when there is none.
    fn disable_rule(&mut self, name: &str, dir: Option<&str>) -> (r: Result<(), FirewallError>)
        ensures
            r is Ok <==> has_rule(old(self).rules(), name@),
            r matches Err(e) ==> e is RuleNotFound && e->RuleNotFound_0@ == name@,
            final(self).rules() == set_enabled(old(self).rules(), name@, false),
    {
        set_rule_enabled(&mut self.rules, name, false)
    }

    /// Replaces any rules named `name` by one enabled rule at the end of the list.
    fn create_rule(
        &mut self,
        name: &str,
        src: &str,
        dest: &str,
        proto: &str,
        port: u16,
        dir: Option<&str>,
    ) -> (r: Result<(), FirewallError>)
        ensures
            r is Ok,
            final(self).rules() == without_name(old(self).rules(), name@).push(
                new_rule(name@, src@, dest@, proto@, port),
            ),
    {
        let rule = FirewallRule {
            name: name.to_string(),
            src: src.to_string(),
            dest: dest.to_string(),
            proto: proto.to_string(),
            port,
            enabled: true,
        };
        replace_rule(&mut self.rules, rule);
        Ok(())
    }

    /// Removes every rule named `name`; fails, changing nothing, when there is none.
    fn delete_rule(&mut self, name: &str) -> (r: Result<(), FirewallError>)
        ensures
            r is Ok <==> has_rule(old(self).rules(), name@),
            r matches Err(e) ==> e is RuleNotFound && e->RuleNotFound_0@ == name@,
            final(self).rules() == without_name(old(self).rules(), name@),
    {
        remove_rules(&mut self.rules, name)
    }

    /// Counts the rules and the enabled ones.
    fn get_status(&self) -> (r: Result<FirewallStatus, FirewallError>)
        ensures
            r matches Ok(s) && s.active && s.platform@ == "Linux (Placeholder)"@ && s.total_rules
                == self.rules().len() && s.active_rules == count_enabled(self.rules()),
    {
        let active_count = enabled_count(&self.rules);
        Ok(
            FirewallStatus {
                active: true,
                platform: "Linux (Placeholder)".to_string(),
                total_rules: self.rules.len(),
                active_rules: active_count,
            },
        )
    }
}

} // verus!
