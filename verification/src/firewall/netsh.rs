//! Reading the text that `netsh advfirewall firewall show rule` prints.
//!
//! Each line is trimmed and read as `key: value` (a full-width colon also separates);
//! keys are recognised by lowercase substrings, in English or Chinese.
use vstd::prelude::*;
use crate::text::{
    chars_of, contains, contains_lit, eq_lit, key_value, key_value_range, key_value_trimmed,
    line_ranges, lines, lowercase_range, parse_u16, parse_unsigned_range, range_starts_with,
    spec_to_lowercase, split, split_range, starts_with, string_of, strings_view, trim, trim_range,
};
use crate::firewall::{FirewallRule, RuleView, lemma_rules_view_push, rules_view};

verus! {

broadcast use vstd::string::group_string_axioms;

pub open spec fn is_enabled_key(kl: Seq<char>) -> bool {
    contains(kl, "enabled"@) || contains(kl, "已启用"@)
}

pub open spec fn is_action_key(kl: Seq<char>) -> bool {
    contains(kl, "action"@) || contains(kl, "操作"@) || contains(kl, "动作"@)
}

pub open spec fn is_protocol_key(kl: Seq<char>) -> bool {
    contains(kl, "protocol"@) || contains(kl, "协议"@)
}

pub open spec fn is_local_port_key(kl: Seq<char>) -> bool {
    contains(kl, "localport"@) || contains(kl, "本地端口"@)
}

pub open spec fn is_remote_port_key(kl: Seq<char>) -> bool {
    contains(kl, "remoteport"@) || contains(kl, "远程端口"@)
}

pub open spec fn is_remote_ip_key(kl: Seq<char>) -> bool {
    contains(kl, "remoteip"@) || contains(kl, "远程 ip"@) || contains(kl, "远程ip"@)
}

pub open spec fn is_local_ip_key(kl: Seq<char>) -> bool {
    contains(kl, "localip"@) || contains(kl, "本地 ip"@) || contains(kl, "本地ip"@)
}

pub open spec fn is_description_key(kl: Seq<char>) -> bool {
    contains(kl, "description"@) || contains(kl, "描述"@)
}

pub open spec fn is_rule_name_key(kl: Seq<char>) -> bool {
    contains(kl, "rule name"@) || contains(kl, "规则名"@)
}

/// A lowercase value that means "yes".
pub open spec fn is_yes(v: Seq<char>) -> bool {
    v == "yes"@ || v == "是"@ || v == "true"@ || v == "1"@
}

/// A port value: its parse as `u16`, or 0.
pub open spec fn port_or_zero(v: Seq<char>) -> u16 {
    match parse_u16(v) {
        Some(p) => p,
        None => 0,
    }
}

// ---------------------------------------------------------------------------
// Remote addresses of one rule
// ---------------------------------------------------------------------------

/// The line holds the remote-address entry.
pub open spec fn is_remote_ip_line(line: Seq<char>) -> bool {
    match key_value(line) {
        Some((k, v)) => is_remote_ip_key(spec_to_lowercase(k)),
        None => false,
    }
}

/// Index of the first remote-address line at or after `i`, or the number of lines.
pub open spec fn remote_ip_line_from(ls: Seq<Seq<char>>, i: int) -> int
    decreases ls.len() - i,
{
    if i < 0 || i >= ls.len() {
        ls.len() as int
    } else if is_remote_ip_line(ls[i]) {
        i
    } else {
        remote_ip_line_from(ls, i + 1)
    }
}

/// The trimmed entries of a comma-separated list that are neither empty, `*` nor `any`.
pub open spec fn listed_ips(pieces: Seq<Seq<char>>) -> Seq<Seq<char>>
    decreases pieces.len(),
{
    if pieces.len() == 0 {
        Seq::empty()
    } else {
        let init = listed_ips(pieces.drop_last());
        let t = trim(pieces.last());
        if t.len() > 0 && t != "*"@ && t != "any"@ {
            init.push(t)
        } else {
            init
        }
    }
}

/// The remote addresses that the first remote-address line lists; none without one.
pub open spec fn remote_ips_of(output: Seq<char>) -> Seq<Seq<char>> {
    let ls = lines(output);
    let i = remote_ip_line_from(ls, 0);
    if i < ls.len() {
        match key_value(ls[i]) {
            Some((k, v)) => listed_ips(split(v, ',')),
            None => Seq::empty(),
        }
    } else {
        Seq::empty()
    }
}

// ---------------------------------------------------------------------------
// Details of one rule
// ---------------------------------------------------------------------------

/// The rule details before any line is read.
pub open spec fn initial_details(name: Seq<char>) -> RuleView {
    RuleView { name, src: "any"@, dest: "any"@, proto: "any"@, port: 0, enabled: false }
}

/// The details after reading one line.
pub open spec fn detail_step(r: RuleView, line: Seq<char>) -> RuleView {
    match key_value(line) {
        None => r,
        Some((k, v)) => {
            let kl = spec_to_lowercase(k);
            if is_enabled_key(kl) {
                RuleView { enabled: is_yes(spec_to_lowercase(v)), ..r }
            } else if is_protocol_key(kl) {
                RuleView { proto: v, ..r }
            } else if is_local_port_key(kl) {
                RuleView { port: port_or_zero(v), ..r }
            } else if is_remote_ip_key(kl) {
                RuleView { src: v, ..r }
            } else if is_local_ip_key(kl) {
                RuleView { dest: v, ..r }
            } else {
                r
            }
        },
    }
}

/// The details after reading the lines in order.
pub open spec fn details_over(r: RuleView, ls: Seq<Seq<char>>) -> RuleView
    decreases ls.len(),
{
    if ls.len() == 0 {
        r
    } else {
        detail_step(details_over(r, ls.drop_last()), ls.last())
    }
}

/// The rule that the output of `show rule` for `name` describes.
pub open spec fn rule_details_of(name: Seq<char>, output: Seq<char>) -> RuleView {
    details_over(initial_details(name), lines(output))
}

// ---------------------------------------------------------------------------
// Full settings of one rule
// ---------------------------------------------------------------------------

/// All settings of one rule, as `show rule` prints them.
#[derive(Debug, Clone)]
pub struct RuleFullInfo {
    pub name: String,
    pub enabled: bool,
    pub action: String,
    pub protocol: String,
    pub local_ip: String,
    pub remote_ip: String,
    pub local_port: Option<u16>,
    pub remote_port: Option<u16>,
    pub description: String,
}

/// The contents of a [`RuleFullInfo`].
pub struct FullInfoView {
    pub name: Seq<char>,
    pub enabled: bool,
    pub action: Seq<char>,
    pub protocol: Seq<char>,
    pub local_ip: Seq<char>,
    pub remote_ip: Seq<char>,
    pub local_port: Option<u16>,
    pub remote_port: Option<u16>,
    pub description: Seq<char>,
}

impl View for RuleFullInfo {
    type V = FullInfoView;

    open spec fn view(&self) -> FullInfoView {
        FullInfoView {
            name: self.name@,
            enabled: self.enabled,
            action: self.action@,
            protocol: self.protocol@,
            local_ip: self.local_ip@,
            remote_ip: self.remote_ip@,
            local_port: self.local_port,
            remote_port: self.remote_port,
            description: self.description@,
        }
    }
}

/// The settings before any line is read.
pub open spec fn initial_full_info(name: Seq<char>) -> FullInfoView {
    FullInfoView {
        name,
        enabled: false,
        action: "allow"@,
        protocol: "any"@,
        local_ip: Seq::empty(),
        remote_ip: Seq::empty(),
        local_port: None,
        remote_port: None,
        description: Seq::empty(),
    }
}

/// The action a value names: `block` when it mentions blocking, `allow` otherwise.
pub open spec fn action_of(v: Seq<char>) -> Seq<char> {
    if contains(spec_to_lowercase(v), "block"@) || contains(v, "阻止"@) || contains(v, "拒绝"@) {
        "block"@
    } else {
        "allow"@
    }
}

/// The protocol a value names: `any` for any, otherwise its lowercase form.
pub open spec fn protocol_of(v: Seq<char>) -> Seq<char> {
    let l = spec_to_lowercase(v);
    if l == "any"@ || v == "任何"@ || l.len() == 0 {
        "any"@
    } else {
        l
    }
}

/// The settings after reading one line.
pub open spec fn full_info_step(r: FullInfoView, line: Seq<char>) -> FullInfoView {
    match key_value(line) {
        None => r,
        Some((k, v)) => {
            let kl = spec_to_lowercase(k);
            let vl = spec_to_lowercase(v);
            if is_enabled_key(kl) {
                FullInfoView {
                    enabled: vl == "yes"@ || v == "是"@ || vl == "true"@ || vl == "1"@,
                    ..r
                }
            } else if is_action_key(kl) {
                FullInfoView { action: action_of(v), ..r }
            } else if is_protocol_key(kl) {
                FullInfoView { protocol: protocol_of(v), ..r }
            } else if is_local_port_key(kl) {
                FullInfoView { local_port: parse_u16(v), ..r }
            } else if is_remote_port_key(kl) {
                FullInfoView { remote_port: parse_u16(v), ..r }
            } else if is_remote_ip_key(kl) {
                FullInfoView { remote_ip: v, ..r }
            } else if is_local_ip_key(kl) {
                FullInfoView { local_ip: v, ..r }
            } else if is_description_key(kl) {
                FullInfoView { description: v, ..r }
            } else {
                r
            }
        },
    }
}

/// The settings after reading the lines in order.
pub open spec fn full_info_over(r: FullInfoView, ls: Seq<Seq<char>>) -> FullInfoView
    decreases ls.len(),
{
    if ls.len() == 0 {
        r
    } else {
        full_info_step(full_info_over(r, ls.drop_last()), ls.last())
    }
}

/// The settings that the output of `show rule` for `name` describes.
pub open spec fn full_info_of(name: Seq<char>, output: Seq<char>) -> FullInfoView {
    full_info_over(initial_full_info(name), lines(output))
}

// ---------------------------------------------------------------------------
// All rules
// ---------------------------------------------------------------------------

/// The state of reading a listing of all rules: the finished rules, the rule being read,
/// and whether a rule has begun.
pub struct ListingState {
    pub rules: Seq<RuleView>,
    pub current: RuleView,
    pub in_rule: bool,
}

/// The rules of a listing once it is over: the rule being read counts when it has a name.
pub open spec fn finish_listing(s: ListingState) -> Seq<RuleView> {
    if s.in_rule && s.current.name.len() > 0 {
        s.rules.push(s.current)
    } else {
        s.rules
    }
}

/// The state after reading one line of a listing.
pub open spec fn listing_step(s: ListingState, line: Seq<char>) -> ListingState {
    let t = trim(line);
    if t.len() == 0 || starts_with(t, "---"@) {
        s
    } else {
        match key_value_trimmed(t) {
            None => s,
            Some((k, v)) => {
                let kl = spec_to_lowercase(k);
                if is_rule_name_key(kl) {
                    ListingState {
                        rules: finish_listing(s),
                        current: initial_details(v),
                        in_rule: true,
                    }
                } else if s.in_rule {
                    let c = s.current;
                    let c2 = if kl == "enabled"@ || contains(kl, "已启用"@) {
                        RuleView { enabled: is_yes(spec_to_lowercase(v)), ..c }
                    } else if is_protocol_key(kl) {
                        RuleView { proto: v, ..c }
                    } else if is_local_port_key(kl) {
                        RuleView { port: port_or_zero(v), ..c }
                    } else if is_remote_ip_key(kl) {
                        RuleView { src: v, ..c }
                    } else if is_local_ip_key(kl) {
                        RuleView { dest: v, ..c }
                    } else {
                        c
                    };
                    ListingState { current: c2, ..s }
                } else {
                    s
                }
            },
        }
    }
}

/// The state after reading the lines in order.
pub open spec fn listing_over(s: ListingState, ls: Seq<Seq<char>>) -> ListingState
    decreases ls.len(),
{
    if ls.len() == 0 {
        s
    } else {
        listing_step(listing_over(s, ls.drop_last()), ls.last())
    }
}

/// The rules that a listing of all rules describes, in order.
pub open spec fn rules_of_listing(output: Seq<char>) -> Seq<RuleView> {
    finish_listing(
        listing_over(
            ListingState {
                rules: Seq::empty(),
                current: initial_details(Seq::empty()),
                in_rule: false,
            },
            lines(output),
        ),
    )
}

// ---------------------------------------------------------------------------
// Exec
// ---------------------------------------------------------------------------

/// The `u16` port of `v[lo..hi]`, or 0.
fn port_of(v: &Vec<char>, lo: usize, hi: usize) -> (r: u16)
    requires
        lo <= hi <= v@.len(),
    ensures
        r == port_or_zero(v@.subrange(lo as int, hi as int)),
{
    match parse_unsigned_range(v, lo, hi, 65535) {
        Some(p) => p as u16,
        None => 0,
    }
}

/// The `u16` of `v[lo..hi]`, if it parses.
fn u16_of(v: &Vec<char>, lo: usize, hi: usize) -> (r: Option<u16>)
    requires
        lo <= hi <= v@.len(),
    ensures
        r == parse_u16(v@.subrange(lo as int, hi as int)),
{
    match parse_unsigned_range(v, lo, hi, 65535) {
        Some(p) => Some(p as u16),
        None => None,
    }
}

fn yes_value(vl: &Vec<char>) -> (r: bool)
    ensures
        r == is_yes(vl@),
{
    eq_lit(vl, "yes") || eq_lit(vl, "是") || eq_lit(vl, "true") || eq_lit(vl, "1")
}

fn enabled_key(kl: &Vec<char>) -> (r: bool)
    ensures
        r == is_enabled_key(kl@),
{
    contains_lit(kl, "enabled") || contains_lit(kl, "已启用")
}

fn action_key(kl: &Vec<char>) -> (r: bool)
    ensures
        r == is_action_key(kl@),
{
    contains_lit(kl, "action") || contains_lit(kl, "操作") || contains_lit(kl, "动作")
}

fn protocol_key(kl: &Vec<char>) -> (r: bool)
    ensures
        r == is_protocol_key(kl@),
{
    contains_lit(kl, "protocol") || contains_lit(kl, "协议")
}

fn local_port_key(kl: &Vec<char>) -> (r: bool)
    ensures
        r == is_local_port_key(kl@),
{
    contains_lit(kl, "localport") || contains_lit(kl, "本地端口")
}

fn remote_port_key(kl: &Vec<char>) -> (r: bool)
    ensures
        r == is_remote_port_key(kl@),
{
    contains_lit(kl, "remoteport") || contains_lit(kl, "远程端口")
}

fn remote_ip_key(kl: &Vec<char>) -> (r: bool)
    ensures
        r == is_remote_ip_key(kl@),
{
    contains_lit(kl, "remoteip") || contains_lit(kl, "远程 ip") || contains_lit(kl, "远程ip")
}

fn local_ip_key(kl: &Vec<char>) -> (r: bool)
    ensures
        r == is_local_ip_key(kl@),
{
    contains_lit(kl, "localip") || contains_lit(kl, "本地 ip") || contains_lit(kl, "本地ip")
}

fn description_key(kl: &Vec<char>) -> (r: bool)
    ensures
        r == is_description_key(kl@),
{
    contains_lit(kl, "description") || contains_lit(kl, "描述")
}

fn rule_name_key(kl: &Vec<char>) -> (r: bool)
    ensures
        r == is_rule_name_key(kl@),
{
    contains_lit(kl, "rule name") || contains_lit(kl, "规则名")
}

/// The bounds of key and value of line `v[lo..hi]`, when it reads as one.
fn line_key_value(v: &Vec<char>, lo: usize, hi: usize) -> (r: Option<
    ((usize, usize), (usize, usize)),
>)
    requires
        lo <= hi <= v@.len(),
    ensures
        match (r, key_value(v@.subrange(lo as int, hi as int))) {
            (Some((a, b)), Some((k, x))) => a.0 <= a.1 <= v@.len() && b.0 <= b.1 <= v@.len()
                && v@.subrange(a.0 as int, a.1 as int) == k && v@.subrange(b.0 as int, b.1 as int)
                == x,
            (None, None) => true,
            _ => false,
        },
{
    let (ta, tb) = trim_range(v, lo, hi);
    key_value_range(v, ta, tb)
}

/// The remote addresses listed in `v[lo..hi]`.
fn listed_ips_of(v: &Vec<char>, lo: usize, hi: usize) -> (r: Vec<String>)
    requires
        lo <= hi <= v@.len(),
    ensures
        strings_view(r@) == listed_ips(split(v@.subrange(lo as int, hi as int), ',')),
{
    let ghost pieces = split(v@.subrange(lo as int, hi as int), ',');
    let ranges = split_range(v, lo, hi, ',');
    let mut r: Vec<String> = Vec::new();
    let mut k: usize = 0;
    while k < ranges.len()
        invariant
            k <= ranges@.len(),
            ranges@.len() == pieces.len(),
            pieces == split(v@.subrange(lo as int, hi as int), ','),
            lo <= hi <= v@.len(),
            forall|j: int|
                0 <= j < ranges@.len() ==> lo <= (#[trigger] ranges@[j]).0 <= ranges@[j].1 <= hi
                    && v@.subrange(ranges@[j].0 as int, ranges@[j].1 as int) == pieces[j],
            strings_view(r@) == listed_ips(pieces.take(k as int)),
        decreases ranges@.len() - k,
    {
        let (a, b) = ranges[k];
        let (ta, tb) = trim_range(v, a, b);
        assert(pieces.take(k + 1).drop_last() =~= pieces.take(k as int));
        assert(pieces.take(k + 1).last() == pieces[k as int]);
        let t = string_of(v, ta, tb);
        let tc = chars_of(t.as_str());
        if ta < tb && !eq_lit(&tc, "*") && !eq_lit(&tc, "any") {
            proof {
                assert(strings_view(r@.push(t)) =~= strings_view(r@).push(t@));
            }
            r.push(t);
        }
        k = k + 1;
    }
    assert(pieces.take(k as int) =~= pieces);
    r
}

/// The remote addresses that the output of `show rule` lists.
pub fn parse_remote_ips(output: &str) -> (r: Vec<String>)
    ensures
        strings_view(r@) == remote_ips_of(output@),
{
    let v = chars_of(output);
    let ls = line_ranges(&v);
    let ghost lv = lines(v@);
    let mut i: usize = 0;
    while i < ls.len()
        invariant
            i <= ls@.len(),
            ls@.len() == lv.len(),
            lv == lines(v@),
            v@ == output@,
            forall|k: int|
                0 <= k < ls@.len() ==> (#[trigger] ls@[k]).0 <= ls@[k].1 <= v@.len()
                    && v@.subrange(ls@[k].0 as int, ls@[k].1 as int) == lv[k],
            remote_ip_line_from(lv, 0) == remote_ip_line_from(lv, i as int),
        decreases ls@.len() - i,
    {
        let (lo, hi) = ls[i];
        match line_key_value(&v, lo, hi) {
            Some(((ka, kb), (va, vb))) => {
                let kl = lowercase_range(&v, ka, kb);
                if remote_ip_key(&kl) {
                    assert(is_remote_ip_line(lv[i as int]));
                    let r = listed_ips_of(&v, va, vb);
                    return r;
                }
                assert(!is_remote_ip_line(lv[i as int]));
            },
            None => {
                assert(!is_remote_ip_line(lv[i as int]));
            },
        }
        i = i + 1;
    }
    let none: Vec<String> = Vec::new();
    assert(strings_view(none@) =~= Seq::<Seq<char>>::empty());
    none
}

/// Applies one line of `show rule` output to rule details.
fn apply_detail_line(r: &mut FirewallRule, v: &Vec<char>, lo: usize, hi: usize)
    requires
        lo <= hi <= v@.len(),
    ensures
        final(r)@ == detail_step(old(r)@, v@.subrange(lo as int, hi as int)),
{
    match line_key_value(v, lo, hi) {
        None => {},
        Some(((ka, kb), (va, vb))) => {
            let kl = lowercase_range(v, ka, kb);
            if enabled_key(&kl) {
                let vl = lowercase_range(v, va, vb);
                r.enabled = yes_value(&vl);
            } else if protocol_key(&kl) {
                r.proto = string_of(v, va, vb);
            } else if local_port_key(&kl) {
                r.port = port_of(v, va, vb);
            } else if remote_ip_key(&kl) {
                r.src = string_of(v, va, vb);
            } else if local_ip_key(&kl) {
                r.dest = string_of(v, va, vb);
            }
        },
    }
}

/// The rule that the output of `show rule` for `name` describes.
pub fn parse_rule_details(name: &str, output: &str) -> (r: FirewallRule)
    ensures
        r@ == rule_details_of(name@, output@),
{
    let v = chars_of(output);
    let ls = line_ranges(&v);
    let ghost lv = lines(v@);
    let mut rule = FirewallRule {
        name: name.to_string(),
        src: "any".to_string(),
        dest: "any".to_string(),
        proto: "any".to_string(),
        port: 0,
        enabled: false,
    };
    let mut i: usize = 0;
    while i < ls.len()
        invariant
            i <= ls@.len(),
            ls@.len() == lv.len(),
            lv == lines(v@),
            forall|k: int|
                0 <= k < ls@.len() ==> (#[trigger] ls@[k]).0 <= ls@[k].1 <= v@.len()
                    && v@.subrange(ls@[k].0 as int, ls@[k].1 as int) == lv[k],
            rule@ == details_over(initial_details(name@), lv.take(i as int)),
        decreases ls@.len() - i,
    {
        let (lo, hi) = ls[i];
        assert(lv.take(i + 1).drop_last() =~= lv.take(i as int));
        assert(lv.take(i + 1).last() == lv[i as int]);
        apply_detail_line(&mut rule, &v, lo, hi);
        i = i + 1;
    }
    assert(lv.take(i as int) =~= lv);
    rule
}

/// Applies one line of `show rule` output to rule settings.
fn apply_full_info_line(r: &mut RuleFullInfo, v: &Vec<char>, lo: usize, hi: usize)
    requires
        lo <= hi <= v@.len(),
    ensures
        final(r)@ == full_info_step(old(r)@, v@.subrange(lo as int, hi as int)),
{
    match line_key_value(v, lo, hi) {
        None => {},
        Some(((ka, kb), (va, vb))) => {
            let kl = lowercase_range(v, ka, kb);
            let vl = lowercase_range(v, va, vb);
            let val = string_of(v, va, vb);
            let vc = chars_of(val.as_str());
            if enabled_key(&kl) {
                r.enabled = eq_lit(&vl, "yes") || eq_lit(&vc, "是") || eq_lit(&vl, "true")
                    || eq_lit(&vl, "1");
            } else if action_key(&kl) {
                if contains_lit(&vl, "block") || contains_lit(&vc, "阻止") || contains_lit(
                    &vc,
                    "拒绝",
                ) {
                    r.action = "block".to_string();
                } else {
                    r.action = "allow".to_string();
                }
            } else if protocol_key(&kl) {
                if eq_lit(&vl, "any") || eq_lit(&vc, "任何") || vl.len() == 0 {
                    r.protocol = "any".to_string();
                } else {
                    r.protocol = string_of(&vl, 0, vl.len());
                    assert(vl@.subrange(0, vl@.len() as int) =~= vl@);
                }
            } else if local_port_key(&kl) {
                r.local_port = u16_of(v, va, vb);
            } else if remote_port_key(&kl) {
                r.remote_port = u16_of(v, va, vb);
            } else if remote_ip_key(&kl) {
                r.remote_ip = val;
            } else if local_ip_key(&kl) {
                r.local_ip = val;
            } else if description_key(&kl) {
                r.description = val;
            }
        },
    }
}

/// The settings that the output of `show rule` for `name` describes.
pub fn parse_rule_full_info(name: &str, output: &str) -> (r: RuleFullInfo)
    ensures
        r@ == full_info_of(name@, output@),
{
    let v = chars_of(output);
    let ls = line_ranges(&v);
    let ghost lv = lines(v@);
    let mut info = RuleFullInfo {
        name: name.to_string(),
        enabled: false,
        action: "allow".to_string(),
        protocol: "any".to_string(),
        local_ip: String::new(),
        remote_ip: String::new(),
        local_port: None,
        remote_port: None,
        description: String::new(),
    };
    assert(info@ == initial_full_info(name@));
    let mut i: usize = 0;
    while i < ls.len()
        invariant
            i <= ls@.len(),
            ls@.len() == lv.len(),
            lv == lines(v@),
            forall|k: int|
                0 <= k < ls@.len() ==> (#[trigger] ls@[k]).0 <= ls@[k].1 <= v@.len()
                    && v@.subrange(ls@[k].0 as int, ls@[k].1 as int) == lv[k],
            info@ == full_info_over(initial_full_info(name@), lv.take(i as int)),
        decreases ls@.len() - i,
    {
        let (lo, hi) = ls[i];
        assert(lv.take(i + 1).drop_last() =~= lv.take(i as int));
        assert(lv.take(i + 1).last() == lv[i as int]);
        apply_full_info_line(&mut info, &v, lo, hi);
        i = i + 1;
    }
    assert(lv.take(i as int) =~= lv);
    info
}

/// The rules that a listing of all rules describes, in order.
pub fn parse_rules_listing(output: &str) -> (r: Vec<FirewallRule>)
    ensures
        rules_view(r@) == rules_of_listing(output@),
{
    let v = chars_of(output);
    let ls = line_ranges(&v);
    let ghost lv = lines(v@);
    let ghost start = ListingState {
        rules: Seq::empty(),
        current: initial_details(Seq::empty()),
        in_rule: false,
    };
    let mut rules: Vec<FirewallRule> = Vec::new();
    let mut current = FirewallRule {
        name: String::new(),
        src: "any".to_string(),
        dest: "any".to_string(),
        proto: "any".to_string(),
        port: 0,
        enabled: false,
    };
    let mut in_rule = false;
    let dashes = chars_of("---");
    assert(rules_view(rules@) =~= Seq::<RuleView>::empty());
    let mut i: usize = 0;
    while i < ls.len()
        invariant
            i <= ls@.len(),
            ls@.len() == lv.len(),
            lv == lines(v@),
            dashes@ == "---"@,
            forall|k: int|
                0 <= k < ls@.len() ==> (#[trigger] ls@[k]).0 <= ls@[k].1 <= v@.len()
                    && v@.subrange(ls@[k].0 as int, ls@[k].1 as int) == lv[k],
            listing_over(start, lv.take(i as int)) == (ListingState {
                rules: rules_view(rules@),
                current: current@,
                in_rule,
            }),
        decreases ls@.len() - i,
    {
        let (lo, hi) = ls[i];
        assert(lv.take(i + 1).drop_last() =~= lv.take(i as int));
        assert(lv.take(i + 1).last() == lv[i as int]);
        let ghost before = ListingState { rules: rules_view(rules@), current: current@, in_rule };
        let ghost line = lv[i as int];
        let (ta, tb) = trim_range(&v, lo, hi);
        assert(v@.subrange(ta as int, tb as int) == trim(line));
        if ta < tb && !range_starts_with(&v, ta, tb, &dashes) {
            match key_value_range(&v, ta, tb) {
                None => {},
                Some(((ka, kb), (va, vb))) => {
                    let ghost k = v@.subrange(ka as int, kb as int);
                    let ghost x = v@.subrange(va as int, vb as int);
                    assert(key_value_trimmed(trim(line)) == Some((k, x)));
                    let kl = lowercase_range(&v, ka, kb);
                    if rule_name_key(&kl) {
                        if in_rule && !current.name.as_str().is_empty() {
                            let d = current.duplicate();
                            proof {
                                lemma_rules_view_push(rules@, d);
                            }
                            rules.push(d);
                            assert(rules_view(rules@) == finish_listing(before));
                        } else {
                            assert(rules_view(rules@) == finish_listing(before));
                        }
                        in_rule = true;
                        current = FirewallRule {
                            name: string_of(&v, va, vb),
                            src: "any".to_string(),
                            dest: "any".to_string(),
                            proto: "any".to_string(),
                            port: 0,
                            enabled: false,
                        };
                        assert(current@ == initial_details(x));
                    } else if in_rule {
                        if eq_lit(&kl, "enabled") || contains_lit(&kl, "已启用") {
                            let vl = lowercase_range(&v, va, vb);
                            current.enabled = yes_value(&vl);
                        } else if protocol_key(&kl) {
                            current.proto = string_of(&v, va, vb);
                        } else if local_port_key(&kl) {
                            current.port = port_of(&v, va, vb);
                        } else if remote_ip_key(&kl) {
                            current.src = string_of(&v, va, vb);
                        } else if local_ip_key(&kl) {
                            current.dest = string_of(&v, va, vb);
                        }
                    }
                },
            }
        }
        assert(listing_step(before, lv[i as int]) == (ListingState {
            rules: rules_view(rules@),
            current: current@,
            in_rule,
        }));
        i = i + 1;
    }
    assert(lv.take(i as int) =~= lv);
    if in_rule && !current.name.as_str().is_empty() {
        proof {
            lemma_rules_view_push(rules@, current);
        }
        rules.push(current);
    }
    rules
}

} // verus!
