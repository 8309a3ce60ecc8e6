//! The Windows firewall back end, which drives `netsh advfirewall`.
//!
//! Address matching and the parsing of `netsh` output are verified here; the back end
//! keeps the rules it could not hand to `netsh` in a fallback list of its own.
use vstd::prelude::*;
use crate::text::{
    chars_of, join, join_strings, lemma_split_nonempty, lowercase, parse_u8, parse_unsigned_range,
    range_ends_with, range_eq, range_has_char, range_starts_with, ranges_eq, spec_to_lowercase,
    split, split_range, starts_with, str_eq, string_of, strings_view, strip_suffix_or_keep, trim,
    trim_range,
};
use crate::firewall::{
    ErrorView, FirewallError, FirewallRule, FirewallStatus, RuleView, StatusView, count_enabled,
    duplicate_rules, enabled_count, has_rule, lemma_find_rule, lemma_without_name, position_of,
    remove_rules, replace_rule, rules_view, set_enabled, set_rule_enabled, without_name,
};
use crate::firewall::invocation::{
    RuleParams, RuleSettings, add_rule_args, add_rule_cmd, delete_args, delete_cmd,
    delete_dir_args, delete_dir_cmd, opt_string_view, params_args, params_cmd, set_enable_args,
    set_enable_cmd, show_all_args, show_all_cmd, show_rule_args, show_rule_cmd,
};
use crate::firewall::netsh::{
    FullInfoView, RuleFullInfo, full_info_of, parse_remote_ips, parse_rule_details,
    parse_rule_full_info, parse_rules_listing, remote_ips_of, rule_details_of, rules_of_listing,
};

verus! {

broadcast use vstd::string::group_string_axioms;

// ---------------------------------------------------------------------------
// Address matching
// ---------------------------------------------------------------------------

/// The values of those dotted pieces of an address that parse as bytes, in order;
/// pieces that do not parse are skipped.
pub open spec fn octets(pieces: Seq<Seq<char>>) -> Seq<u8>
    decreases pieces.len(),
{
    if pieces.len() == 0 {
        Seq::empty()
    } else {
        let init = octets(pieces.drop_last());
        match parse_u8(pieces.last()) {
            Some(b) => init.push(b),
            None => init,
        }
    }
}

/// The 32-bit value of four address bytes, most significant first; 0 for any other count.
pub open spec fn ip_value(parts: Seq<u8>) -> u32 {
    if parts.len() == 4 {
        (parts[0] as int * 0x1000000 + parts[1] as int * 0x10000 + parts[2] as int * 0x100
            + parts[3] as int) as u32
    } else {
        0
    }
}

/// The value of a dotted address: defined when exactly four of its pieces parse as bytes.
pub open spec fn ip_of(s: Seq<char>) -> Option<u32> {
    let o = octets(split(s, '.'));
    if o.len() == 4 {
        Some(ip_value(o))
    } else {
        None
    }
}

/// `a` and `b` agree in their first `bits` bits.
pub open spec fn prefix_eq(a: u32, b: u32, bits: u8) -> bool {
    bits == 0 || (a >> ((32 - bits) as u32)) == (b >> ((32 - bits) as u32))
}

/// `ip` lies in the network `cidr` (`a.b.c.d/bits`, with `bits` at most 32).
pub open spec fn cidr_matches(cidr: Seq<char>, ip: Seq<char>) -> bool {
    let parts = split(cidr, '/');
    parts.len() == 2 && match parse_u8(parts[1]) {
        Some(bits) => bits <= 32 && match (ip_of(parts[0]), ip_of(ip)) {
            (Some(n), Some(i)) => prefix_eq(n, i, bits),
            _ => false,
        },
        None => false,
    }
}

/// `ip` lies in the inclusive range `start-end`.
pub open spec fn range_matches(range: Seq<char>, ip: Seq<char>) -> bool {
    let parts = split(range, '-');
    parts.len() == 2 && match (ip_of(ip), ip_of(trim(parts[0])), ip_of(trim(parts[1]))) {
        (Some(x), Some(a), Some(b)) => a <= x && x <= b,
        _ => false,
    }
}

/// Each of the four dotted pieces of `pattern` is `*` or equals that piece of `ip`.
pub open spec fn wildcard_matches(pattern: Seq<char>, ip: Seq<char>) -> bool {
    let pp = split(pattern, '.');
    let ipp = split(ip, '.');
    pp.len() == 4 && ipp.len() == 4 && forall|k: int| 0 <= k < 4 ==> #[trigger] piece_fits(pp[k], ipp[k])
}

/// A pattern piece `*` fits any piece; any other fits itself only.
pub open spec fn piece_fits(p: Seq<char>, i: Seq<char>) -> bool {
    p == "*"@ || p == i
}

/// Matching of one expected address form (exact, network, range, wildcard) against `c`.
pub open spec fn single_matches(e: Seq<char>, c: Seq<char>) -> bool {
    if e == c {
        true
    } else if e.contains('/') {
        cidr_matches(e, c)
    } else if e.contains('-') {
        range_matches(e, c)
    } else if e.contains('*') {
        wildcard_matches(e, c)
    } else {
        false
    }
}

/// Matching of an expected address form against `c`: a single form, or a
/// comma-separated list of forms of which one matches.
pub open spec fn ip_matches(e: Seq<char>, c: Seq<char>) -> bool {
    if e == c {
        true
    } else if e.contains('/') {
        cidr_matches(e, c)
    } else if e.contains('-') {
        range_matches(e, c)
    } else if e.contains('*') {
        wildcard_matches(e, c)
    } else if e.contains(',') {
        exists|k: int|
            0 <= k < split(e, ',').len() && single_matches(trim(#[trigger] split(e, ',')[k]), c)
    } else {
        false
    }
}

/// `expected` is `any` or `*` and the list is not empty, or it matches one of the list.
pub open spec fn ip_matched_in(expected: Seq<char>, current: Seq<Seq<char>>) -> bool {
    if expected == "any"@ || expected == "*"@ {
        current.len() > 0
    } else {
        exists|k: int| 0 <= k < current.len() && ip_matches(expected, #[trigger] current[k])
    }
}

/// Some form in `list` matches `ip`.
pub open spec fn ip_in_list(ip: Seq<char>, list: Seq<Seq<char>>) -> bool {
    exists|k: int| 0 <= k < list.len() && ip_matches(#[trigger] list[k], ip)
}

/// Two lists describe the same addresses: both are empty, or neither is and each
/// expected form is found in `actual` and each actual address is matched by some
/// expected form.
pub open spec fn ip_lists_agree(expected: Seq<Seq<char>>, actual: Seq<Seq<char>>) -> bool {
    if expected.len() == 0 && actual.len() == 0 {
        true
    } else if expected.len() == 0 || actual.len() == 0 {
        false
    } else {
        (forall|i: int| 0 <= i < expected.len() ==> ip_matched_in(#[trigger] expected[i], actual))
            && (forall|j: int| 0 <= j < actual.len() ==> ip_in_list(#[trigger] actual[j], expected))
    }
}

/// An address with its surrounding white space and a `/32` suffix removed.
pub open spec fn normalized_ip(ip: Seq<char>) -> Seq<char> {
    strip_suffix_or_keep(trim(ip), "/32"@)
}

/// The address part of a rule entry: before any `/`, trimmed.
pub open spec fn bare_ip(ip: Seq<char>) -> Seq<char> {
    trim(split(ip, '/')[0])
}

/// A rule entry `current` is selected by `pattern` (exact, network, wildcard, range, or
/// a prefix of the address); an empty pattern selects nothing.
pub open spec fn pattern_selects(current: Seq<char>, pattern: Seq<char>) -> bool {
    let p = trim(pattern);
    let bare = bare_ip(current);
    if p.len() == 0 {
        false
    } else if p == current || p == bare {
        true
    } else if p.contains('/') {
        cidr_matches(p, bare)
    } else if p.contains('*') {
        wildcard_matches(p, bare)
    } else if p.contains('-') {
        range_matches(p, bare)
    } else {
        starts_with(bare, p)
    }
}

/// The lowercase form of `s` (`str::to_lowercase`), named by the trusted item
/// [`crate::text::lowercase`].
pub open spec fn any_value(s: Seq<char>) -> bool {
    let l = spec_to_lowercase(trim(s));
    l.len() == 0 || l == "any"@ || l == "*"@ || l == "任何"@
}

proof fn lemma_ip_value_bits(a: u32, b: u32, c: u32, d: u32)
    requires
        a < 256,
        b < 256,
        c < 256,
        d < 256,
    ensures
        (a << 24u32) | (b << 16u32) | (c << 8u32) | d == a * 0x1000000 + b * 0x10000 + c * 0x100
            + d,
{
    assert((a << 24u32) | (b << 16u32) | (c << 8u32) | d == a * 0x1000000 + b * 0x10000 + c
        * 0x100 + d) by (bit_vector)
        requires
            a < 256,
            b < 256,
            c < 256,
            d < 256,
    ;
}

proof fn lemma_mask(a: u32, b: u32, s: u32)
    requires
        s < 32,
    ensures
        (1u32 << s) >= 1,
        ((a & !(((1u32 << s) - 1) as u32)) == (b & !(((1u32 << s) - 1) as u32))) == ((a >> s) == (
        b >> s)),
{
    assert((1u32 << s) >= 1) by (bit_vector)
        requires
            s < 32,
    ;
    assert(((a & !(((1u32 << s) - 1) as u32)) == (b & !(((1u32 << s) - 1) as u32))) == ((a >> s)
        == (b >> s))) by (bit_vector)
        requires
            s < 32,
    ;
}

/// The bytes of the dotted pieces of `v[lo..hi]` that parse.
fn octets_of(v: &Vec<char>, lo: usize, hi: usize) -> (r: Vec<u8>)
    requires
        lo <= hi <= v@.len(),
    ensures
        r@ == octets(split(v@.subrange(lo as int, hi as int), '.')),
{
    let ghost pieces = split(v@.subrange(lo as int, hi as int), '.');
    let ranges = split_range(v, lo, hi, '.');
    let mut r: Vec<u8> = Vec::new();
    let mut k: usize = 0;
    while k < ranges.len()
        invariant
            k <= ranges@.len(),
            ranges@.len() == pieces.len(),
            lo <= hi <= v@.len(),
            forall|j: int|
                0 <= j < ranges@.len() ==> lo <= (#[trigger] ranges@[j]).0 <= ranges@[j].1 <= hi
                    && v@.subrange(ranges@[j].0 as int, ranges@[j].1 as int) == pieces[j],
            r@ == octets(pieces.take(k as int)),
        decreases ranges@.len() - k,
    {
        let (a, b) = ranges[k];
        let parsed = parse_unsigned_range(v, a, b, 255);
        assert(pieces.take(k + 1).drop_last() =~= pieces.take(k as int));
        assert(pieces.take(k + 1).last() == pieces[k as int]);
        match parsed {
            Some(x) => {
                r.push(x as u8);
            },
            None => {},
        }
        k = k + 1;
    }
    assert(pieces.take(k as int) =~= pieces);
    r
}

/// The value of the dotted address `v[lo..hi]`.
fn ip_value_of(v: &Vec<char>, lo: usize, hi: usize) -> (r: Option<u32>)
    requires
        lo <= hi <= v@.len(),
    ensures
        r == ip_of(v@.subrange(lo as int, hi as int)),
{
    let parts = octets_of(v, lo, hi);
    if parts.len() == 4 {
        Some(bytes_value(&parts))
    } else {
        None
    }
}

/// The 32-bit value of four address bytes, most significant first; 0 for any other count.
fn bytes_value(parts: &[u8]) -> (r: u32)
    ensures
        r == ip_value(parts@),
{
    if parts.len() != 4 {
        return 0;
    }
    let a = parts[0] as u32;
    let b = parts[1] as u32;
    let c = parts[2] as u32;
    let d = parts[3] as u32;
    proof {
        lemma_ip_value_bits(a, b, c, d);
    }
    (a << 24) | (b << 16) | (c << 8) | d
}

fn cidr_in(e: &Vec<char>, elo: usize, ehi: usize, c: &Vec<char>, clo: usize, chi: usize) -> (r:
    bool)
    requires
        elo <= ehi <= e@.len(),
        clo <= chi <= c@.len(),
    ensures
        r == cidr_matches(e@.subrange(elo as int, ehi as int), c@.subrange(clo as int, chi as int)),
{
    let ghost parts = split(e@.subrange(elo as int, ehi as int), '/');
    let ranges = split_range(e, elo, ehi, '/');
    if ranges.len() != 2 {
        return false;
    }
    let (na, nb) = ranges[0];
    let (ma, mb) = ranges[1];
    let bits = match parse_unsigned_range(e, ma, mb, 255) {
        Some(m) => m,
        None => return false,
    };
    if bits > 32 {
        return false;
    }
    let network = match ip_value_of(e, na, nb) {
        Some(n) => n,
        None => return false,
    };
    let ip = match ip_value_of(c, clo, chi) {
        Some(n) => n,
        None => return false,
    };
    if bits == 0 {
        return true;
    }
    let s: u32 = 32 - bits;
    proof {
        lemma_mask(network, ip, s);
    }
    let mask: u32 = !((1u32 << s) - 1);
    (network & mask) == (ip & mask)
}

fn range_in(e: &Vec<char>, elo: usize, ehi: usize, c: &Vec<char>, clo: usize, chi: usize) -> (r:
    bool)
    requires
        elo <= ehi <= e@.len(),
        clo <= chi <= c@.len(),
    ensures
        r == range_matches(e@.subrange(elo as int, ehi as int), c@.subrange(clo as int, chi as int)),
{
    let ranges = split_range(e, elo, ehi, '-');
    if ranges.len() != 2 {
        return false;
    }
    let (sa, sb) = ranges[0];
    let (ta, tb) = ranges[1];
    let (sa, sb) = trim_range(e, sa, sb);
    let (ta, tb) = trim_range(e, ta, tb);
    let ip = match ip_value_of(c, clo, chi) {
        Some(n) => n,
        None => return false,
    };
    let start = match ip_value_of(e, sa, sb) {
        Some(n) => n,
        None => return false,
    };
    let end = match ip_value_of(e, ta, tb) {
        Some(n) => n,
        None => return false,
    };
    ip >= start && ip <= end
}

fn wildcard_in(e: &Vec<char>, elo: usize, ehi: usize, c: &Vec<char>, clo: usize, chi: usize) -> (r:
    bool)
    requires
        elo <= ehi <= e@.len(),
        clo <= chi <= c@.len(),
    ensures
        r == wildcard_matches(
            e@.subrange(elo as int, ehi as int),
            c@.subrange(clo as int, chi as int),
        ),
{
    let ghost pp = split(e@.subrange(elo as int, ehi as int), '.');
    let ghost ipp = split(c@.subrange(clo as int, chi as int), '.');
    let pr = split_range(e, elo, ehi, '.');
    let ir = split_range(c, clo, chi, '.');
    if pr.len() != 4 || ir.len() != 4 {
        return false;
    }
    let star = chars_of("*");
    let mut k: usize = 0;
    while k < 4
        invariant
            k <= 4,
            pr@.len() == 4,
            ir@.len() == 4,
            pp == split(e@.subrange(elo as int, ehi as int), '.'),
            ipp == split(c@.subrange(clo as int, chi as int), '.'),
            pp.len() == 4,
            ipp.len() == 4,
            star@ == "*"@,
            forall|j: int|
                0 <= j < 4 ==> elo <= (#[trigger] pr@[j]).0 <= pr@[j].1 <= ehi && e@.subrange(
                    pr@[j].0 as int,
                    pr@[j].1 as int,
                ) == pp[j],
            forall|j: int|
                0 <= j < 4 ==> clo <= (#[trigger] ir@[j]).0 <= ir@[j].1 <= chi && c@.subrange(
                    ir@[j].0 as int,
                    ir@[j].1 as int,
                ) == ipp[j],
            ehi <= e@.len(),
            chi <= c@.len(),
            forall|j: int| 0 <= j < k ==> #[trigger] piece_fits(pp[j], ipp[j]),
        decreases 4 - k,
    {
        let (a, b) = pr[k];
        let (x, y) = ir[k];
        if !range_eq(e, a, b, &star) && !ranges_eq(e, a, b, c, x, y) {
            assert(!piece_fits(pp[k as int], ipp[k as int]));
            return false;
        }
        assert(piece_fits(pp[k as int], ipp[k as int]));
        k = k + 1;
    }
    true
}

fn single_in(e: &Vec<char>, elo: usize, ehi: usize, c: &Vec<char>, clo: usize, chi: usize) -> (r:
    bool)
    requires
        elo <= ehi <= e@.len(),
        clo <= chi <= c@.len(),
    ensures
        r == single_matches(e@.subrange(elo as int, ehi as int), c@.subrange(clo as int, chi as int)),
{
    if ranges_eq(e, elo, ehi, c, clo, chi) {
        true
    } else if range_has_char(e, elo, ehi, '/') {
        cidr_in(e, elo, ehi, c, clo, chi)
    } else if range_has_char(e, elo, ehi, '-') {
        range_in(e, elo, ehi, c, clo, chi)
    } else if range_has_char(e, elo, ehi, '*') {
        wildcard_in(e, elo, ehi, c, clo, chi)
    } else {
        false
    }
}

fn ip_match_in(e: &Vec<char>, c: &Vec<char>, clo: usize, chi: usize) -> (r: bool)
    requires
        clo <= chi <= c@.len(),
    ensures
        r == ip_matches(e@, c@.subrange(clo as int, chi as int)),
{
    let n = e.len();
    assert(e@.subrange(0, n as int) =~= e@);
    if !range_has_char(e, 0, n, ',') || range_has_char(e, 0, n, '/') || range_has_char(e, 0, n, '-')
        || range_has_char(e, 0, n, '*') || ranges_eq(e, 0, n, c, clo, chi) {
        return single_in(e, 0, n, c, clo, chi);
    }
    let ghost pieces = split(e@, ',');
    let ranges = split_range(e, 0, n, ',');
    let mut k: usize = 0;
    while k < ranges.len()
        invariant
            k <= ranges@.len(),
            ranges@.len() == pieces.len(),
            pieces == split(e@, ','),
            n == e@.len(),
            clo <= chi <= c@.len(),
            e@.contains(','),
            !e@.contains('/'),
            !e@.contains('-'),
            !e@.contains('*'),
            e@ != c@.subrange(clo as int, chi as int),
            forall|j: int|
                0 <= j < ranges@.len() ==> 0 <= (#[trigger] ranges@[j]).0 <= ranges@[j].1 <= n
                    && e@.subrange(ranges@[j].0 as int, ranges@[j].1 as int) == pieces[j],
            forall|j: int|
                0 <= j < k ==> !single_matches(
                    trim(#[trigger] pieces[j]),
                    c@.subrange(clo as int, chi as int),
                ),
        decreases ranges@.len() - k,
    {
        let (a, b) = ranges[k];
        let (ta, tb) = trim_range(e, a, b);
        if single_in(e, ta, tb, c, clo, chi) {
            assert(single_matches(trim(pieces[k as int]), c@.subrange(clo as int, chi as int)));
            return true;
        }
        k = k + 1;
    }
    false
}


// ---------------------------------------------------------------------------
// Driving netsh
// ---------------------------------------------------------------------------

/// The next thing an operation of the back end needs.
pub enum NetshStep<T> {
    /// Run `netsh` with these arguments, then call the operation again with the outcome
    /// appended to the outcomes so far.
    Run(Vec<String>),
    /// The operation is over, with this result.
    Done(Result<T, FirewallError>),
}

/// The contents of a [`NetshStep`].
pub enum StepView<V> {
    Run(Seq<Seq<char>>),
    Done(Result<V, ErrorView>),
}

impl<T: View> View for NetshStep<T> {
    type V = StepView<T::V>;

    open spec fn view(&self) -> StepView<T::V> {
        match self {
            NetshStep::Run(a) => StepView::Run(strings_view(a@)),
            NetshStep::Done(Ok(x)) => StepView::Done(Ok(x@)),
            NetshStep::Done(Err(e)) => StepView::Done(Err(e@)),
        }
    }
}

/// The contents of what one run of `netsh` gave.
pub open spec fn outcome_view(o: Result<String, FirewallError>) -> Result<Seq<char>, ErrorView> {
    match o {
        Ok(s) => Ok(s@),
        Err(e) => Err(e@),
    }
}

/// The contents of the outcomes so far.
pub open spec fn outcomes_view(o: Seq<Result<String, FirewallError>>) -> Seq<
    Result<Seq<char>, ErrorView>,
> {
    o.map_values(|x: Result<String, FirewallError>| outcome_view(x))
}

/// The direction given, or `in`.
pub open spec fn dir_or_in(direction: Option<&str>) -> Seq<char> {
    match direction {
        Some(d) => d@,
        None => "in"@,
    }
}

/// The contents of an optional string.
pub open spec fn opt_view(o: Option<&str>) -> Option<Seq<char>> {
    match o {
        Some(s) => Some(s@),
        None => None,
    }
}

/// The rule kept in the fallback list when `netsh` does not take a rule.
pub open spec fn params_fallback_rule(p: RuleParams) -> RuleView {
    RuleView {
        name: p.name,
        src: p.remote_ip,
        dest: match p.local_addr {
            Some(a) => a,
            None => "any"@,
        },
        proto: p.protocol,
        port: match p.local_port {
            Some(n) => n,
            None => 0,
        },
        enabled: match p.enabled {
            Some(e) => e,
            None => true,
        },
    }
}

/// The rule that `create_rule` keeps in the fallback list when `netsh` does not take it.
pub open spec fn created_fallback_rule(
    name: Seq<char>,
    src: Seq<char>,
    dest: Seq<char>,
    proto: Seq<char>,
    port: u16,
) -> RuleView {
    RuleView { name, src, dest, proto, port, enabled: true }
}

/// The current entries that `pattern` does not select, normalized, in order.
pub open spec fn kept_ips(current: Seq<Seq<char>>, pattern: Seq<char>) -> Seq<Seq<char>>
    decreases current.len(),
{
    if current.len() == 0 {
        Seq::empty()
    } else {
        let init = kept_ips(current.drop_last(), pattern);
        if pattern_selects(current.last(), pattern) {
            init
        } else {
            init.push(normalized_ip(current.last()))
        }
    }
}

/// The entries after an update: those kept, and the new address unless already kept.
pub open spec fn planned_ips(current: Seq<Seq<char>>, pattern: Seq<char>, new_ip: Seq<char>) -> Seq<
    Seq<char>,
> {
    let kept = kept_ips(current, pattern);
    let n = normalized_ip(new_ip);
    if kept.contains(n) {
        kept
    } else {
        kept.push(n)
    }
}

/// An update changes nothing: the new address is among the kept entries and no entry
/// was selected for removal.
pub open spec fn update_unchanged(current: Seq<Seq<char>>, pattern: Seq<char>, new_ip: Seq<char>) -> bool {
    let kept = kept_ips(current, pattern);
    kept.contains(normalized_ip(new_ip)) && kept.len() == current.len()
}

/// Every setting that an update gives already holds of the rule as `show rule` reads
/// it: an "any" local address matches an "any" one.
pub open spec fn settings_kept(
    old: FullInfoView,
    action: Option<Seq<char>>,
    protocol: Option<Seq<char>>,
    local_port: Option<u16>,
    remote_port: Option<u16>,
    local_addr: Option<Seq<char>>,
    description: Option<Seq<char>>,
    enabled: Option<bool>,
) -> bool {
    &&& (action matches Some(a) ==> a == old.action)
    &&& (protocol matches Some(p) ==> p == old.protocol)
    &&& (local_port matches Some(n) ==> old.local_port == Some(n))
    &&& (remote_port matches Some(n) ==> old.remote_port == Some(n))
    &&& (local_addr matches Some(a) ==> if any_value(a) {
        any_value(old.local_ip)
    } else {
        a == old.local_ip
    })
    &&& (description matches Some(d) ==> d == old.description)
    &&& (enabled matches Some(e) ==> e == old.enabled)
}

/// The remote-address value of the rule after an update.
pub open spec fn planned_remote_ip(current: Seq<Seq<char>>, pattern: Seq<char>, new_ip: Seq<char>) -> Seq<
    char,
> {
    let p = planned_ips(current, pattern, new_ip);
    if p.len() == 0 {
        "any"@
    } else {
        join(p, ","@)
    }
}

/// The first option when given, else the second.
pub open spec fn or_opt<A>(a: Option<A>, b: Option<A>) -> Option<A> {
    match a {
        Some(x) => Some(x),
        None => b,
    }
}

/// The rule a replacement recreates: given settings win, absent ones come from the old rule.
pub open spec fn replacement_params(
    name: Seq<char>,
    dir: Seq<char>,
    remote_ip: Seq<char>,
    old: FullInfoView,
    action: Option<Seq<char>>,
    protocol: Option<Seq<char>>,
    local_port: Option<u16>,
    remote_port: Option<u16>,
    local_addr: Option<Seq<char>>,
    description: Option<Seq<char>>,
    enabled: Option<bool>,
) -> RuleParams {
    RuleParams {
        name,
        dir,
        remote_ip,
        action: match action {
            Some(a) if a.len() > 0 => a,
            _ => if old.action.len() == 0 {
                "allow"@
            } else {
                old.action
            },
        },
        protocol: match protocol {
            Some(a) if a.len() > 0 => a,
            _ => if old.protocol.len() == 0 {
                "any"@
            } else {
                old.protocol
            },
        },
        local_port: or_opt(local_port, old.local_port),
        remote_port: or_opt(remote_port, old.remote_port),
        local_addr: match local_addr {
            Some(a) => if any_value(a) {
                None
            } else {
                Some(a)
            },
            None => if any_value(old.local_ip) {
                None
            } else {
                Some(old.local_ip)
            },
        },
        description: match description {
            Some(d) => if d.len() == 0 {
                None
            } else {
                Some(d)
            },
            None => if old.description.len() == 0 {
                None
            } else {
                Some(old.description)
            },
        },
        enabled: Some(
            match enabled {
                Some(e) => e,
                None => old.enabled,
            },
        ),
    }
}

/// The rule an update creates when none of that name exists.
pub open spec fn creation_params(
    name: Seq<char>,
    dir: Seq<char>,
    new_ip: Seq<char>,
    action: Option<Seq<char>>,
    protocol: Option<Seq<char>>,
    local_port: Option<u16>,
    remote_port: Option<u16>,
    local_addr: Option<Seq<char>>,
    description: Option<Seq<char>>,
    enabled: Option<bool>,
) -> RuleParams {
    RuleParams {
        name,
        dir,
        remote_ip: new_ip,
        action: match action {
            Some(a) => a,
            None => "allow"@,
        },
        protocol: match protocol {
            Some(p) => p,
            None => "any"@,
        },
        local_port,
        remote_port,
        local_addr,
        description,
        enabled,
    }
}

/// The outcome is a failure that says the rule does not exist.
pub open spec fn is_not_found(o: Result<Seq<char>, ErrorView>) -> bool {
    o matches Err(ErrorView::RuleNotFound(_))
}

/// The step and fallback list of a rule update, given the outcomes so far.
pub open spec fn update_rule_step(
    fallback: Seq<RuleView>,
    name: Seq<char>,
    dir: Seq<char>,
    old_ip_pattern: Seq<char>,
    new_ip: Seq<char>,
    action: Option<Seq<char>>,
    protocol: Option<Seq<char>>,
    local_port: Option<u16>,
    remote_port: Option<u16>,
    local_addr: Option<Seq<char>>,
    description: Option<Seq<char>>,
    enabled: Option<bool>,
    o: Seq<Result<Seq<char>, ErrorView>>,
) -> (StepView<bool>, Seq<RuleView>) {
    if name.len() == 0 {
        (StepView::Done(Err(ErrorView::InvalidParameter("规则名称不能为空"@))), fallback)
    } else if new_ip.len() == 0 {
        (StepView::Done(Err(ErrorView::InvalidParameter("IP地址不能为空"@))), fallback)
    } else if o.len() == 0 {
        (StepView::Run(show_rule_args(name, dir)), fallback)
    } else if is_not_found(o[0]) {
        let p = creation_params(
            name,
            dir,
            new_ip,
            action,
            protocol,
            local_port,
            remote_port,
            local_addr,
            description,
            enabled,
        );
        if o.len() == 1 {
            (StepView::Run(params_args(p)), fallback)
        } else {
            match o[1] {
                Ok(_) => (StepView::Done(Ok(true)), fallback),
                Err(e) => (
                    StepView::Done(Err(e)),
                    without_name(fallback, name).push(params_fallback_rule(p)),
                ),
            }
        }
    } else {
        match o[0] {
            Err(e) => (StepView::Done(Err(e)), fallback),
            Ok(shown) => if o.len() == 1 {
                (StepView::Run(show_rule_args(name, dir)), fallback)
            } else {
                match o[1] {
                    Err(e) => (StepView::Done(Err(e)), fallback),
                    Ok(listed) => {
                        let current = remote_ips_of(listed);
                        if update_unchanged(current, old_ip_pattern, new_ip) && settings_kept(
                            full_info_of(name, shown),
                            action,
                            protocol,
                            local_port,
                            remote_port,
                            local_addr,
                            description,
                            enabled,
                        ) {
                            (StepView::Done(Ok(false)), fallback)
                        } else if o.len() == 2 {
                            (StepView::Run(delete_dir_args(name, dir)), fallback)
                        } else {
                            match o[2] {
                                Err(e) => (StepView::Done(Err(e)), fallback),
                                Ok(_) => {
                                    let p = replacement_params(
                                        name,
                                        dir,
                                        planned_remote_ip(current, old_ip_pattern, new_ip),
                                        full_info_of(name, shown),
                                        action,
                                        protocol,
                                        local_port,
                                        remote_port,
                                        local_addr,
                                        description,
                                        enabled,
                                    );
                                    if o.len() == 3 {
                                        (StepView::Run(params_args(p)), fallback)
                                    } else {
                                        match o[3] {
                                            Ok(_) => (StepView::Done(Ok(true)), fallback),
                                            Err(e) => (
                                                StepView::Done(Err(e)),
                                                without_name(fallback, name).push(
                                                    params_fallback_rule(p),
                                                ),
                                            ),
                                        }
                                    }
                                },
                            }
                        }
                    },
                }
            },
        }
    }
}

/// The step of an update that gives several new addresses at once.
pub open spec fn update_many_step(
    fallback: Seq<RuleView>,
    name: Seq<char>,
    dir: Seq<char>,
    old_ip_pattern: Seq<char>,
    new_ips: Seq<Seq<char>>,
    action: Option<Seq<char>>,
    protocol: Option<Seq<char>>,
    local_port: Option<u16>,
    remote_port: Option<u16>,
    local_addr: Option<Seq<char>>,
    description: Option<Seq<char>>,
    enabled: Option<bool>,
    o: Seq<Result<Seq<char>, ErrorView>>,
) -> (StepView<bool>, Seq<RuleView>) {
    if new_ips.len() == 0 {
        (StepView::Done(Err(ErrorView::InvalidParameter("IP列表不能为空"@))), fallback)
    } else {
        update_rule_step(
            fallback,
            name,
            dir,
            old_ip_pattern,
            join(new_ips, ","@),
            action,
            protocol,
            local_port,
            remote_port,
            local_addr,
            description,
            enabled,
            o,
        )
    }
}

/// The step of an update of the addresses alone: the rule's settings are read first and
/// handed on unchanged (action, protocol, ports, local address, description, enabled
/// flag), so that only the remote addresses change.
pub open spec fn update_ip_only_step(
    fallback: Seq<RuleView>,
    name: Seq<char>,
    dir: Seq<char>,
    old_ip_pattern: Seq<char>,
    new_ip: Seq<char>,
    o: Seq<Result<Seq<char>, ErrorView>>,
) -> (StepView<bool>, Seq<RuleView>) {
    if o.len() == 0 {
        (StepView::Run(show_rule_args(name, dir)), fallback)
    } else {
        match o[0] {
            Err(e) => (StepView::Done(Err(e)), fallback),
            Ok(out) => {
                let rule = full_info_of(name, out);
                update_rule_step(
                    fallback,
                    name,
                    dir,
                    old_ip_pattern,
                    new_ip,
                    Some(rule.action),
                    Some(rule.protocol),
                    rule.local_port,
                    rule.remote_port,
                    Some(rule.local_ip),
                    Some(rule.description),
                    Some(rule.enabled),
                    o.drop_first(),
                )
            },
        }
    }
}

/// Handing an update the settings that `show rule` read of the rule recreates it as
/// giving no setting would, so every setting is kept; and those settings already hold,
/// so only the addresses decide whether the rule changes.
pub proof fn lemma_own_settings_keep_the_rule(
    name: Seq<char>,
    dir: Seq<char>,
    remote_ip: Seq<char>,
    old: FullInfoView,
)
    ensures
        replacement_params(
            name,
            dir,
            remote_ip,
            old,
            Some(old.action),
            Some(old.protocol),
            old.local_port,
            old.remote_port,
            Some(old.local_ip),
            Some(old.description),
            Some(old.enabled),
        ) == replacement_params(name, dir, remote_ip, old, None, None, None, None, None, None, None),
        settings_kept(
            old,
            Some(old.action),
            Some(old.protocol),
            old.local_port,
            old.remote_port,
            Some(old.local_ip),
            Some(old.description),
            Some(old.enabled),
        ),
{
}

/// Every expected form is found among the current addresses.
pub open spec fn all_expected_found(expected: Seq<Seq<char>>, current: Seq<Seq<char>>) -> bool {
    forall|i: int| 0 <= i < expected.len() ==> ip_matched_in(#[trigger] expected[i], current)
}

/// Every current address is matched by an expected form.
pub open spec fn all_current_expected(current: Seq<Seq<char>>, expected: Seq<Seq<char>>) -> bool {
    forall|j: int| 0 <= j < current.len() ==> ip_in_list(#[trigger] current[j], expected)
}

/// The step of checking a rule: it exists and admits every expected address (in strict
/// mode, no others); with no expected address, that it exists. A rule that does not
/// exist gives `false`.
pub open spec fn verify_rule_step(
    name: Seq<char>,
    dir: Seq<char>,
    expected: Seq<Seq<char>>,
    strict_mode: bool,
    o: Seq<Result<Seq<char>, ErrorView>>,
) -> StepView<bool> {
    if o.len() == 0 {
        StepView::Run(show_rule_args(name, dir))
    } else {
        match o[0] {
            Err(e) => if e is RuleNotFound {
                StepView::Done(Ok(false))
            } else {
                StepView::Done(Err(e))
            },
            Ok(_) => if o.len() == 1 {
                StepView::Run(show_rule_args(name, dir))
            } else {
                match o[1] {
                    Err(e) => StepView::Done(Err(e)),
                    Ok(listed) => {
                        let current = remote_ips_of(listed);
                        if expected.len() == 0 {
                            StepView::Done(Ok(true))
                        } else if !all_expected_found(expected, current) {
                            StepView::Done(Ok(false))
                        } else if strict_mode {
                            StepView::Done(Ok(all_current_expected(current, expected)))
                        } else {
                            StepView::Done(Ok(true))
                        }
                    },
                }
            },
        }
    }
}

/// The step of checking that a rule exists, is enabled and admits one expected address.
pub open spec fn verify_simple_step(
    name: Seq<char>,
    dir: Seq<char>,
    expected_ip: Seq<char>,
    o: Seq<Result<Seq<char>, ErrorView>>,
) -> StepView<bool> {
    if o.len() == 0 {
        StepView::Run(show_rule_args(name, dir))
    } else {
        match o[0] {
            Err(e) => if e is RuleNotFound {
                StepView::Done(Ok(false))
            } else {
                StepView::Done(Err(e))
            },
            Ok(out) => {
                let rule = rule_details_of(name, out);
                if o.len() == 1 {
                    StepView::Run(show_rule_args(name, dir))
                } else {
                    match o[1] {
                        Err(e) => StepView::Done(Err(e)),
                        Ok(listed) => StepView::Done(
                            Ok(ip_matched_in(expected_ip, remote_ips_of(listed)) && rule.enabled),
                        ),
                    }
                }
            },
        }
    }
}

/// The step of reading the settings of a rule.
pub open spec fn rule_info_step(name: Seq<char>, dir: Seq<char>, o: Seq<Result<Seq<char>, ErrorView>>) -> StepView<RuleView> {
    if o.len() == 0 {
        StepView::Run(show_rule_args(name, dir))
    } else {
        match o[0] {
            Ok(out) => StepView::Done(Ok(rule_details_of(name, out))),
            Err(e) => StepView::Done(Err(e)),
        }
    }
}

/// The step of asking whether a rule exists.
pub open spec fn rule_exists_step(name: Seq<char>, dir: Seq<char>, o: Seq<Result<Seq<char>, ErrorView>>) -> StepView<bool> {
    if o.len() == 0 {
        StepView::Run(show_rule_args(name, dir))
    } else {
        match o[0] {
            Ok(_) => StepView::Done(Ok(true)),
            Err(e) => if e is RuleNotFound {
                StepView::Done(Ok(false))
            } else {
                StepView::Done(Err(e))
            },
        }
    }
}

/// The step of reading the remote addresses of a rule.
pub open spec fn remote_ips_step(name: Seq<char>, dir: Seq<char>, o: Seq<Result<Seq<char>, ErrorView>>) -> StepView<Seq<Seq<char>>> {
    if o.len() == 0 {
        StepView::Run(show_rule_args(name, dir))
    } else {
        match o[0] {
            Ok(out) => StepView::Done(Ok(remote_ips_of(out))),
            Err(e) => StepView::Done(Err(e)),
        }
    }
}

/// The step of listing the rules: those `netsh` lists, or the fallback list when it lists
/// none or fails.
pub open spec fn list_rules_step(fallback: Seq<RuleView>, o: Seq<Result<Seq<char>, ErrorView>>) -> StepView<Seq<RuleView>> {
    if o.len() == 0 {
        StepView::Run(show_all_args())
    } else {
        match o[0] {
            Ok(out) => if rules_of_listing(out).len() > 0 {
                StepView::Done(Ok(rules_of_listing(out)))
            } else {
                StepView::Done(Ok(fallback))
            },
            Err(_) => StepView::Done(Ok(fallback)),
        }
    }
}

/// The state of the firewall with these rules.
pub open spec fn status_of(rules: Seq<RuleView>) -> StatusView {
    StatusView {
        active: true,
        platform: "Windows Firewall"@,
        total_rules: rules.len(),
        active_rules: count_enabled(rules),
    }
}

/// The step of reporting the state of the firewall, from the rules that a listing gives.
pub open spec fn status_step(fallback: Seq<RuleView>, o: Seq<Result<Seq<char>, ErrorView>>) -> StepView<StatusView> {
    match list_rules_step(fallback, o) {
        StepView::Run(a) => StepView::Run(a),
        StepView::Done(Ok(rules)) => StepView::Done(Ok(status_of(rules))),
        StepView::Done(Err(_)) => StepView::Done(Ok(status_of(Seq::empty()))),
    }
}

/// The step of enabling or disabling a rule; when `netsh` fails, a rule of that name in
/// the fallback list is changed instead.
pub open spec fn set_enabled_step(
    fallback: Seq<RuleView>,
    name: Seq<char>,
    dir: Seq<char>,
    enable: bool,
    o: Seq<Result<Seq<char>, ErrorView>>,
) -> (StepView<()>, Seq<RuleView>) {
    if o.len() == 0 {
        (StepView::Run(set_enable_args(name, dir, enable)), fallback)
    } else {
        match o[0] {
            Ok(_) => (StepView::Done(Ok(())), fallback),
            Err(e) => if has_rule(fallback, name) {
                (StepView::Done(Ok(())), set_enabled(fallback, name, enable))
            } else {
                (StepView::Done(Err(e)), fallback)
            },
        }
    }
}

/// The step of creating a rule; when `netsh` fails, the rule goes to the fallback list,
/// replacing any of that name, and the creation still succeeds.
pub open spec fn create_step(
    fallback: Seq<RuleView>,
    name: Seq<char>,
    src: Seq<char>,
    dest: Seq<char>,
    proto: Seq<char>,
    port: u16,
    dir: Seq<char>,
    o: Seq<Result<Seq<char>, ErrorView>>,
) -> (StepView<()>, Seq<RuleView>) {
    if o.len() == 0 {
        (StepView::Run(add_rule_args(name, dir, proto, port, src)), fallback)
    } else {
        match o[0] {
            Ok(_) => (StepView::Done(Ok(())), fallback),
            Err(_) => (
                StepView::Done(Ok(())),
                without_name(fallback, name).push(created_fallback_rule(name, src, dest, proto, port)),
            ),
        }
    }
}

/// The step of deleting a rule; when `netsh` fails, the rules of that name leave the
/// fallback list, and the deletion succeeds when there was one.
pub open spec fn delete_step(
    fallback: Seq<RuleView>,
    name: Seq<char>,
    o: Seq<Result<Seq<char>, ErrorView>>,
) -> (StepView<()>, Seq<RuleView>) {
    if o.len() == 0 {
        (StepView::Run(delete_args(name)), fallback)
    } else {
        match o[0] {
            Ok(_) => (StepView::Done(Ok(())), fallback),
            Err(e) => if has_rule(fallback, name) {
                (StepView::Done(Ok(())), without_name(fallback, name))
            } else {
                (StepView::Done(Err(e)), fallback)
            },
        }
    }
}

/// The contents of a step whose result is a list of rules.
pub open spec fn rules_step_view(s: NetshStep<Vec<FirewallRule>>) -> StepView<Seq<RuleView>> {
    match s {
        NetshStep::Run(a) => StepView::Run(strings_view(a@)),
        NetshStep::Done(Ok(v)) => StepView::Done(Ok(rules_view(v@))),
        NetshStep::Done(Err(e)) => StepView::Done(Err(e@)),
    }
}

/// The contents of a step whose result is a list of strings.
pub open spec fn strings_step_view(s: NetshStep<Vec<String>>) -> StepView<Seq<Seq<char>>> {
    match s {
        NetshStep::Run(a) => StepView::Run(strings_view(a@)),
        NetshStep::Done(Ok(v)) => StepView::Done(Ok(strings_view(v@))),
        NetshStep::Done(Err(e)) => StepView::Done(Err(e@)),
    }
}

/// The Windows firewall back end. Rules that `netsh` could not take are kept in a
/// fallback list, which the back end then manages itself.
pub struct WindowsFirewall {
    fallback_rules: Vec<FirewallRule>,
}

impl WindowsFirewall {
    /// The rules of the fallback list.
    pub closed spec fn fallback(&self) -> Seq<RuleView> {
        rules_view(self.fallback_rules@)
    }

    /// A back end with an empty fallback list.
    pub fn new() -> (r: Self)
        ensures
            r.fallback() == Seq::<RuleView>::empty(),
    {
        let r = WindowsFirewall { fallback_rules: Vec::new() };
        assert(r.fallback() =~= Seq::<RuleView>::empty());
        r
    }

    /// The 32-bit value of four address bytes, most significant first; 0 for any other count.
    pub fn ip_to_u32(&self, parts: &[u8]) -> (r: u32)
        ensures
            r == ip_value(parts@),
    {
        bytes_value(parts)
    }

    /// The value of a dotted address, when exactly four of its pieces parse as bytes.
    pub fn ip_str_to_u32(&self, ip: &str) -> (r: Option<u32>)
        ensures
            r == ip_of(ip@),
    {
        let v = chars_of(ip);
        assert(v@.subrange(0, v@.len() as int) =~= v@);
        ip_value_of(&v, 0, v.len())
    }

    /// Whether `ip` lies in the network `cidr`.
    pub fn cidr_match(&self, cidr: &str, ip: &str) -> (r: bool)
        ensures
            r == cidr_matches(cidr@, ip@),
    {
        let e = chars_of(cidr);
        let c = chars_of(ip);
        assert(e@.subrange(0, e@.len() as int) =~= e@);
        assert(c@.subrange(0, c@.len() as int) =~= c@);
        cidr_in(&e, 0, e.len(), &c, 0, c.len())
    }

    /// Whether `ip` lies in the inclusive range `start-end`.
    pub fn range_match(&self, range: &str, ip: &str) -> (r: bool)
        ensures
            r == range_matches(range@, ip@),
    {
        let e = chars_of(range);
        let c = chars_of(ip);
        assert(e@.subrange(0, e@.len() as int) =~= e@);
        assert(c@.subrange(0, c@.len() as int) =~= c@);
        range_in(&e, 0, e.len(), &c, 0, c.len())
    }

    /// Whether `ip` fits a dotted pattern in which `*` stands for any piece.
    pub fn wildcard_match(&self, pattern: &str, ip: &str) -> (r: bool)
        ensures
            r == wildcard_matches(pattern@, ip@),
    {
        let e = chars_of(pattern);
        let c = chars_of(ip);
        assert(e@.subrange(0, e@.len() as int) =~= e@);
        assert(c@.subrange(0, c@.len() as int) =~= c@);
        wildcard_in(&e, 0, e.len(), &c, 0, c.len())
    }

    /// Whether the expected address form matches `current`.
    pub fn ip_match(&self, expected: &str, current: &str) -> (r: bool)
        ensures
            r == ip_matches(expected@, current@),
    {
        let e = chars_of(expected);
        let c = chars_of(current);
        assert(c@.subrange(0, c@.len() as int) =~= c@);
        ip_match_in(&e, &c, 0, c.len())
    }

    /// Whether `expected` matches one of the current addresses (`any` and `*` match any
    /// non-empty list).
    pub fn is_ip_matched(&self, expected: &str, current_ips: &[String]) -> (r: bool)
        ensures
            r == ip_matched_in(expected@, strings_view(current_ips@)),
    {
        let e = chars_of(expected);
        let any = chars_of("any");
        let star = chars_of("*");
        if range_eq(&e, 0, e.len(), &any) || range_eq(&e, 0, e.len(), &star) {
            assert(e@.subrange(0, e@.len() as int) =~= e@);
            return current_ips.len() > 0;
        }
        assert(e@.subrange(0, e@.len() as int) =~= e@);
        let mut k: usize = 0;
        while k < current_ips.len()
            invariant
                k <= current_ips@.len(),
                e@ == expected@,
                forall|j: int| 0 <= j < k ==> !ip_matches(expected@, (#[trigger] current_ips@[j])@),
            decreases current_ips@.len() - k,
        {
            let c = chars_of(current_ips[k].as_str());
            assert(c@.subrange(0, c@.len() as int) =~= c@);
            if ip_match_in(&e, &c, 0, c.len()) {
                assert(strings_view(current_ips@)[k as int] == current_ips@[k as int]@);
                return true;
            }
            k = k + 1;
        }
        assert forall|j: int| 0 <= j < strings_view(current_ips@).len() implies !ip_matches(
            expected@,
            #[trigger] strings_view(current_ips@)[j],
        ) by {
            assert(strings_view(current_ips@)[j] == current_ips@[j]@);
        }
        false
    }

    /// Whether some form of `ip_list` matches `ip`.
    pub fn is_ip_in_list(&self, ip: &str, ip_list: &[String]) -> (r: bool)
        ensures
            r == ip_in_list(ip@, strings_view(ip_list@)),
    {
        let c = chars_of(ip);
        assert(c@.subrange(0, c@.len() as int) =~= c@);
        let mut k: usize = 0;
        while k < ip_list.len()
            invariant
                k <= ip_list@.len(),
                c@ == ip@,
                c@.subrange(0, c@.len() as int) == c@,
                forall|j: int| 0 <= j < k ==> !ip_matches((#[trigger] ip_list@[j])@, ip@),
            decreases ip_list@.len() - k,
        {
            let e = chars_of(ip_list[k].as_str());
            if ip_match_in(&e, &c, 0, c.len()) {
                assert(strings_view(ip_list@)[k as int] == ip_list@[k as int]@);
                return true;
            }
            k = k + 1;
        }
        assert forall|j: int| 0 <= j < strings_view(ip_list@).len() implies !ip_matches(
            #[trigger] strings_view(ip_list@)[j],
            ip@,
        ) by {
            assert(strings_view(ip_list@)[j] == ip_list@[j]@);
        }
        false
    }

    /// Whether two address lists describe the same addresses.
    pub fn compare_ip_lists(&self, expected: &[String], actual: &[String]) -> (r: bool)
        ensures
            r == ip_lists_agree(strings_view(expected@), strings_view(actual@)),
    {
        if expected.len() == 0 && actual.len() == 0 {
            return true;
        }
        if expected.len() == 0 || actual.len() == 0 {
            return false;
        }
        let ghost ev = strings_view(expected@);
        let ghost av = strings_view(actual@);
        let mut all_expected = true;
        let mut i: usize = 0;
        while i < expected.len()
            invariant
                i <= expected@.len(),
                ev == strings_view(expected@),
                av == strings_view(actual@),
                all_expected == forall|j: int| 0 <= j < i ==> ip_matched_in(#[trigger] ev[j], av),
            decreases expected@.len() - i,
        {
            let m = self.is_ip_matched(expected[i].as_str(), actual);
            assert(ev[i as int] == expected@[i as int]@);
            all_expected = all_expected && m;
            i = i + 1;
        }
        let mut all_actual = true;
        let mut j: usize = 0;
        while j < actual.len()
            invariant
                j <= actual@.len(),
                ev == strings_view(expected@),
                av == strings_view(actual@),
                all_actual == forall|k: int| 0 <= k < j ==> ip_in_list(#[trigger] av[k], ev),
            decreases actual@.len() - j,
        {
            let m = self.is_ip_in_list(actual[j].as_str(), expected);
            assert(av[j as int] == actual@[j as int]@);
            all_actual = all_actual && m;
            j = j + 1;
        }
        all_expected && all_actual
    }

    /// An address trimmed and without a `/32` suffix; networks keep their suffix.
    pub fn normalize_single_ip(&self, ip: &str) -> (r: String)
        ensures
            r@ == normalized_ip(ip@),
    {
        let v = chars_of(ip);
        assert(v@.subrange(0, v@.len() as int) =~= v@);
        let (a, b) = trim_range(&v, 0, v.len());
        let suffix = chars_of("/32");
        proof {
            reveal_strlit("/32");
        }
        if range_ends_with(&v, a, b, &suffix) {
            assert(v@.subrange(a as int, b as int).subrange(0, (b - a) - 3) =~= v@.subrange(
                a as int,
                b - 3,
            ));
            string_of(&v, a, b - 3)
        } else {
            string_of(&v, a, b)
        }
    }

    /// Whether a rule entry (possibly with a `/bits` suffix) is selected by `pattern`.
    pub fn ip_matches_pattern(&self, current_ip: &str, pattern: &str) -> (r: bool)
        ensures
            r == pattern_selects(current_ip@, pattern@),
    {
        let pv = chars_of(pattern);
        let cv = chars_of(current_ip);
        assert(pv@.subrange(0, pv@.len() as int) =~= pv@);
        assert(cv@.subrange(0, cv@.len() as int) =~= cv@);
        let (pa, pb) = trim_range(&pv, 0, pv.len());
        if pa == pb {
            return false;
        }
        let pieces = split_range(&cv, 0, cv.len(), '/');
        proof {
            lemma_split_nonempty(cv@, '/');
        }
        let (ba, bb) = pieces[0];
        let (ba, bb) = trim_range(&cv, ba, bb);
        if ranges_eq(&pv, pa, pb, &cv, 0, cv.len()) || ranges_eq(&pv, pa, pb, &cv, ba, bb) {
            return true;
        }
        if range_has_char(&pv, pa, pb, '/') {
            return cidr_in(&pv, pa, pb, &cv, ba, bb);
        }
        if range_has_char(&pv, pa, pb, '*') {
            return wildcard_in(&pv, pa, pb, &cv, ba, bb);
        }
        if range_has_char(&pv, pa, pb, '-') {
            return range_in(&pv, pa, pb, &cv, ba, bb);
        }
        let prefix = string_of(&pv, pa, pb);
        let pc = chars_of(prefix.as_str());
        range_starts_with(&cv, ba, bb, &pc)
    }

    /// Whether a value stands for any address: empty, `any`, `*` or `任何`, ignoring case
    /// and surrounding white space.
    pub fn is_any_value(&self, s: &str) -> (r: bool)
        ensures
            r == any_value(s@),
    {
        let v = chars_of(s);
        assert(v@.subrange(0, v@.len() as int) =~= v@);
        let (a, b) = trim_range(&v, 0, v.len());
        let t = string_of(&v, a, b);
        let l = lowercase(t.as_str());
        let lv = chars_of(l.as_str());
        let any = chars_of("any");
        let star = chars_of("*");
        let zh = chars_of("任何");
        assert(lv@.subrange(0, lv@.len() as int) =~= lv@);
        lv.len() == 0 || range_eq(&lv, 0, lv.len(), &any) || range_eq(&lv, 0, lv.len(), &star)
            || range_eq(&lv, 0, lv.len(), &zh)
    }
}

impl Default for WindowsFirewall {
    /// A back end with an empty fallback list.
    fn default() -> (r: Self)
        ensures
            r.fallback() == Seq::<RuleView>::empty(),
    {
        WindowsFirewall::new()
    }
}

/// A copy of an error with the same contents.
fn copy_error(e: &FirewallError) -> (r: FirewallError)
    ensures
        r@ == e@,
{
    e.duplicate()
}

/// An optional string as an owned one.
fn owned(o: Option<&str>) -> (r: Option<String>)
    ensures
        opt_string_view(r) == opt_view(o),
{
    match o {
        Some(s) => Some(s.to_string()),
        None => None,
    }
}

/// The settings of a rule that an update creates when none of that name exists.
fn creation_settings(
    name: &str,
    dir: &str,
    new_ip: &str,
    action: Option<&str>,
    protocol: Option<&str>,
    local_port: Option<u16>,
    remote_port: Option<u16>,
    local_addr: Option<&str>,
    description: Option<&str>,
    enabled: Option<bool>,
) -> (r: RuleSettings)
    ensures
        r@ == creation_params(
            name@,
            dir@,
            new_ip@,
            opt_view(action),
            opt_view(protocol),
            local_port,
            remote_port,
            opt_view(local_addr),
            opt_view(description),
            enabled,
        ),
{
    RuleSettings {
        name: name.to_string(),
        dir: dir.to_string(),
        remote_ip: new_ip.to_string(),
        action: match action {
            Some(a) => a.to_string(),
            None => "allow".to_string(),
        },
        protocol: match protocol {
            Some(p) => p.to_string(),
            None => "any".to_string(),
        },
        local_port,
        remote_port,
        local_addr: owned(local_addr),
        description: owned(description),
        enabled,
    }
}

/// The rule kept in the fallback list when `netsh` does not take these settings.
fn settings_fallback(p: &RuleSettings) -> (r: FirewallRule)
    ensures
        r@ == params_fallback_rule(p@),
{
    FirewallRule {
        name: p.name.clone(),
        src: p.remote_ip.clone(),
        dest: match &p.local_addr {
            Some(a) => a.clone(),
            None => "any".to_string(),
        },
        proto: p.protocol.clone(),
        port: match p.local_port {
            Some(n) => n,
            None => 0,
        },
        enabled: match p.enabled {
            Some(e) => e,
            None => true,
        },
    }
}

/// The outcome of the `k`-th run, as the operation reads it.
fn outcome_at(outcomes: &[Result<String, FirewallError>], k: usize) -> (r: &Result<
    String,
    FirewallError,
>)
    requires
        k < outcomes@.len(),
    ensures
        outcome_view(*r) == outcomes_view(outcomes@)[k as int],
{
    &outcomes[k]
}

impl WindowsFirewall {
    /// The settings of the rule that replaces an existing one: given settings win,
    /// absent ones come from the old rule.
    /// Whether every given setting already holds of `old`.
    fn settings_match(
        &self,
        old: &RuleFullInfo,
        action: Option<&str>,
        protocol: Option<&str>,
        local_port: Option<u16>,
        remote_port: Option<u16>,
        local_addr: Option<&str>,
        description: Option<&str>,
        enabled: Option<bool>,
    ) -> (r: bool)
        ensures
            r == settings_kept(
                old@,
                opt_view(action),
                opt_view(protocol),
                local_port,
                remote_port,
                opt_view(local_addr),
                opt_view(description),
                enabled,
            ),
    {
        let action_ok = match action {
            Some(a) => str_eq(a, old.action.as_str()),
            None => true,
        };
        let protocol_ok = match protocol {
            Some(p) => str_eq(p, old.protocol.as_str()),
            None => true,
        };
        let local_port_ok = match local_port {
            Some(n) => match old.local_port {
                Some(m) => n == m,
                None => false,
            },
            None => true,
        };
        let remote_port_ok = match remote_port {
            Some(n) => match old.remote_port {
                Some(m) => n == m,
                None => false,
            },
            None => true,
        };
        let local_addr_ok = match local_addr {
            Some(a) => if self.is_any_value(a) {
                self.is_any_value(old.local_ip.as_str())
            } else {
                str_eq(a, old.local_ip.as_str())
            },
            None => true,
        };
        let description_ok = match description {
            Some(d) => str_eq(d, old.description.as_str()),
            None => true,
        };
        let enabled_ok = match enabled {
            Some(e) => e == old.enabled,
            None => true,
        };
        action_ok && protocol_ok && local_port_ok && remote_port_ok && local_addr_ok
            && description_ok && enabled_ok
    }

    fn replacement_settings(
        &self,
        name: &str,
        dir: &str,
        remote_ip: String,
        old: &RuleFullInfo,
        action: Option<&str>,
        protocol: Option<&str>,
        local_port: Option<u16>,
        remote_port: Option<u16>,
        local_addr: Option<&str>,
        description: Option<&str>,
        enabled: Option<bool>,
    ) -> (r: RuleSettings)
        ensures
            r@ == replacement_params(
                name@,
                dir@,
                remote_ip@,
                old@,
                opt_view(action),
                opt_view(protocol),
                local_port,
                remote_port,
                opt_view(local_addr),
                opt_view(description),
                enabled,
            ),
    {
        let eff_action = match action {
            Some(a) if !a.is_empty() => a.to_string(),
            _ => if old.action.as_str().is_empty() {
                "allow".to_string()
            } else {
                old.action.clone()
            },
        };
        let eff_protocol = match protocol {
            Some(p) if !p.is_empty() => p.to_string(),
            _ => if old.protocol.as_str().is_empty() {
                "any".to_string()
            } else {
                old.protocol.clone()
            },
        };
        let eff_local_port = match local_port {
            Some(n) => Some(n),
            None => old.local_port,
        };
        let eff_remote_port = match remote_port {
            Some(n) => Some(n),
            None => old.remote_port,
        };
        let eff_local_addr = match local_addr {
            Some(a) => if self.is_any_value(a) {
                None
            } else {
                Some(a.to_string())
            },
            None => if self.is_any_value(old.local_ip.as_str()) {
                None
            } else {
                Some(old.local_ip.clone())
            },
        };
        let eff_description = match description {
            Some(d) => if d.is_empty() {
                None
            } else {
                Some(d.to_string())
            },
            None => if old.description.as_str().is_empty() {
                None
            } else {
                Some(old.description.clone())
            },
        };
        let eff_enabled = match enabled {
            Some(e) => e,
            None => old.enabled,
        };
        RuleSettings {
            name: name.to_string(),
            dir: dir.to_string(),
            remote_ip,
            action: eff_action,
            protocol: eff_protocol,
            local_port: eff_local_port,
            remote_port: eff_remote_port,
            local_addr: eff_local_addr,
            description: eff_description,
            enabled: Some(eff_enabled),
        }
    }

    /// The entries after an update, and whether the update changes nothing.
    fn plan(&self, current: &Vec<String>, pattern: &str, new_ip: &str) -> (r: (Vec<String>, bool))
        ensures
            strings_view(r.0@) == planned_ips(strings_view(current@), pattern@, new_ip@),
            r.1 == update_unchanged(strings_view(current@), pattern@, new_ip@),
    {
        let ghost cv = strings_view(current@);
        let mut kept: Vec<String> = Vec::new();
        let mut i: usize = 0;
        while i < current.len()
            invariant
                i <= current@.len(),
                cv == strings_view(current@),
                strings_view(kept@) == kept_ips(cv.take(i as int), pattern@),
            decreases current@.len() - i,
        {
            assert(cv.take(i + 1).drop_last() =~= cv.take(i as int));
            assert(cv.take(i + 1).last() == current@[i as int]@);
            if !self.ip_matches_pattern(current[i].as_str(), pattern) {
                let n = self.normalize_single_ip(current[i].as_str());
                kept.push(n);
                assert(strings_view(kept@) =~= kept_ips(cv.take(i + 1), pattern@));
            }
            i = i + 1;
        }
        assert(cv.take(i as int) =~= cv);
        let n = self.normalize_single_ip(new_ip);
        let ghost kv = strings_view(kept@);
        let mut found = false;
        let mut j: usize = 0;
        while j < kept.len()
            invariant
                j <= kept@.len(),
                kv == strings_view(kept@),
                found == exists|k: int| 0 <= k < j && kv[k] == n@,
            decreases kept@.len() - j,
        {
            assert(kv[j as int] == kept@[j as int]@);
            if crate::text::str_eq(kept[j].as_str(), n.as_str()) {
                found = true;
            }
            j = j + 1;
        }
        assert(found == kv.contains(n@));
        let unchanged = found && kept.len() == current.len();
        if !found {
            kept.push(n);
            assert(strings_view(kept@) =~= kv.push(n@));
        }
        (kept, unchanged)
    }

    /// Replaces the remote addresses of a rule that `old_ip_pattern` selects by
    /// `new_ip`, keeping the other settings unless given; creates the rule when none of
    /// that name exists. Done with `true` when the rule was changed or created, `false`
    /// when it already had the address, nothing was selected and every given setting
    /// already holds of it.
    pub fn update_rule(
        &mut self,
        name: &str,
        direction: Option<&str>,
        old_ip_pattern: &str,
        new_ip: &str,
        action: Option<&str>,
        protocol: Option<&str>,
        local_port: Option<u16>,
        remote_port: Option<u16>,
        local_addr: Option<&str>,
        description: Option<&str>,
        enabled: Option<bool>,
        outcomes: &[Result<String, FirewallError>],
    ) -> (r: NetshStep<bool>)
        ensures
            ({
                let (s, f) = update_rule_step(
                    old(self).fallback(),
                    name@,
                    dir_or_in(direction),
                    old_ip_pattern@,
                    new_ip@,
                    opt_view(action),
                    opt_view(protocol),
                    local_port,
                    remote_port,
                    opt_view(local_addr),
                    opt_view(description),
                    enabled,
                    outcomes_view(outcomes@),
                );
                r@ == s && final(self).fallback() == f
            }),
    {
        let dir: &str = match direction {
            Some(d) => d,
            None => "in",
        };
        let ghost o = outcomes_view(outcomes@);
        if name.is_empty() {
            return NetshStep::Done(
                Err(FirewallError::InvalidParameter("规则名称不能为空".to_string())),
            );
        }
        if new_ip.is_empty() {
            return NetshStep::Done(Err(FirewallError::InvalidParameter("IP地址不能为空".to_string())));
        }
        if outcomes.len() == 0 {
            return NetshStep::Run(show_rule_cmd(name, dir));
        }
        match outcome_at(outcomes, 0) {
            Err(FirewallError::RuleNotFound(_)) => {
                let p = creation_settings(
                    name,
                    dir,
                    new_ip,
                    action,
                    protocol,
                    local_port,
                    remote_port,
                    local_addr,
                    description,
                    enabled,
                );
                if outcomes.len() == 1 {
                    return NetshStep::Run(params_cmd(&p));
                }
                match outcome_at(outcomes, 1) {
                    Ok(_) => NetshStep::Done(Ok(true)),
                    Err(e) => {
                        let rule = settings_fallback(&p);
                        replace_rule(&mut self.fallback_rules, rule);
                        NetshStep::Done(Err(copy_error(e)))
                    },
                }
            },
            Err(e) => NetshStep::Done(Err(copy_error(e))),
            Ok(shown) => {
                if outcomes.len() == 1 {
                    return NetshStep::Run(show_rule_cmd(name, dir));
                }
                let listed = match outcome_at(outcomes, 1) {
                    Err(e) => return NetshStep::Done(Err(copy_error(e))),
                    Ok(l) => l,
                };
                let current = parse_remote_ips(listed.as_str());
                let (planned, unchanged) = self.plan(&current, old_ip_pattern, new_ip);
                let old_rule = parse_rule_full_info(name, shown.as_str());
                if unchanged && self.settings_match(
                    &old_rule,
                    action,
                    protocol,
                    local_port,
                    remote_port,
                    local_addr,
                    description,
                    enabled,
                ) {
                    return NetshStep::Done(Ok(false));
                }
                if outcomes.len() == 2 {
                    return NetshStep::Run(delete_dir_cmd(name, dir));
                }
                match outcome_at(outcomes, 2) {
                    Err(e) => return NetshStep::Done(Err(copy_error(e))),
                    Ok(_) => {},
                }
                let remote = if planned.len() == 0 {
                    "any".to_string()
                } else {
                    join_strings(planned.as_slice(), ",")
                };
                let p = self.replacement_settings(
                    name,
                    dir,
                    remote,
                    &old_rule,
                    action,
                    protocol,
                    local_port,
                    remote_port,
                    local_addr,
                    description,
                    enabled,
                );
                if outcomes.len() == 3 {
                    return NetshStep::Run(params_cmd(&p));
                }
                match outcome_at(outcomes, 3) {
                    Ok(_) => NetshStep::Done(Ok(true)),
                    Err(e) => {
                        let rule = settings_fallback(&p);
                        replace_rule(&mut self.fallback_rules, rule);
                        NetshStep::Done(Err(copy_error(e)))
                    },
                }
            },
        }
    }
}

impl WindowsFirewall {
    /// [`WindowsFirewall::update_rule`] with several new addresses, joined by commas;
    /// an empty list is refused.
    pub fn update_rule_with_multiple_ips(
        &mut self,
        name: &str,
        direction: Option<&str>,
        old_ip_pattern: &str,
        new_ips: &[String],
        action: Option<&str>,
        protocol: Option<&str>,
        local_port: Option<u16>,
        remote_port: Option<u16>,
        local_addr: Option<&str>,
        description: Option<&str>,
        enabled: Option<bool>,
        outcomes: &[Result<String, FirewallError>],
    ) -> (r: NetshStep<bool>)
        ensures
            ({
                let (s, f) = update_many_step(
                    old(self).fallback(),
                    name@,
                    dir_or_in(direction),
                    old_ip_pattern@,
                    strings_view(new_ips@),
                    opt_view(action),
                    opt_view(protocol),
                    local_port,
                    remote_port,
                    opt_view(local_addr),
                    opt_view(description),
                    enabled,
                    outcomes_view(outcomes@),
                );
                r@ == s && final(self).fallback() == f
            }),
    {
        if new_ips.len() == 0 {
            return NetshStep::Done(Err(FirewallError::InvalidParameter("IP列表不能为空".to_string())));
        }
        let dir: &str = match direction {
            Some(d) => d,
            None => "in",
        };
        let ip_list = join_strings(new_ips, ",");
        self.update_rule(
            name,
            Some(dir),
            old_ip_pattern,
            ip_list.as_str(),
            action,
            protocol,
            local_port,
            remote_port,
            local_addr,
            description,
            enabled,
            outcomes,
        )
    }

    /// Replaces the remote addresses of a rule, handing its current settings on to
    /// [`WindowsFirewall::update_rule`].
    pub fn update_rule_ip_only(
        &mut self,
        name: &str,
        direction: Option<&str>,
        old_ip_pattern: &str,
        new_ip: &str,
        outcomes: &[Result<String, FirewallError>],
    ) -> (r: NetshStep<bool>)
        ensures
            ({
                let (s, f) = update_ip_only_step(
                    old(self).fallback(),
                    name@,
                    dir_or_in(direction),
                    old_ip_pattern@,
                    new_ip@,
                    outcomes_view(outcomes@),
                );
                r@ == s && final(self).fallback() == f
            }),
    {
        let dir: &str = match direction {
            Some(d) => d,
            None => "in",
        };
        if outcomes.len() == 0 {
            return NetshStep::Run(show_rule_cmd(name, dir));
        }
        let shown = match outcome_at(outcomes, 0) {
            Err(e) => return NetshStep::Done(Err(copy_error(e))),
            Ok(s) => s,
        };
        let current_rule = parse_rule_full_info(name, shown.as_str());
        let rest = outcomes_after_first(outcomes);
        self.update_rule(
            name,
            Some(dir),
            old_ip_pattern,
            new_ip,
            Some(current_rule.action.as_str()),
            Some(current_rule.protocol.as_str()),
            current_rule.local_port,
            current_rule.remote_port,
            Some(current_rule.local_ip.as_str()),
            Some(current_rule.description.as_str()),
            Some(current_rule.enabled),
            rest.as_slice(),
        )
    }

    /// Whether a rule exists and admits every expected address (in strict mode, and no
    /// others); `false` for a rule that does not exist.
    pub fn verify_rule(
        &self,
        name: &str,
        direction: Option<&str>,
        expected_ips: &[String],
        strict_mode: bool,
        outcomes: &[Result<String, FirewallError>],
    ) -> (r: NetshStep<bool>)
        ensures
            r@ == verify_rule_step(
                name@,
                dir_or_in(direction),
                strings_view(expected_ips@),
                strict_mode,
                outcomes_view(outcomes@),
            ),
    {
        let dir: &str = match direction {
            Some(d) => d,
            None => "in",
        };
        if outcomes.len() == 0 {
            return NetshStep::Run(show_rule_cmd(name, dir));
        }
        match outcome_at(outcomes, 0) {
            Err(FirewallError::RuleNotFound(_)) => return NetshStep::Done(Ok(false)),
            Err(e) => return NetshStep::Done(Err(copy_error(e))),
            Ok(_) => {},
        }
        if outcomes.len() == 1 {
            return NetshStep::Run(show_rule_cmd(name, dir));
        }
        let listed = match outcome_at(outcomes, 1) {
            Err(e) => return NetshStep::Done(Err(copy_error(e))),
            Ok(s) => s,
        };
        let current = parse_remote_ips(listed.as_str());
        let ghost ev = strings_view(expected_ips@);
        let ghost cv = strings_view(current@);
        if expected_ips.len() == 0 {
            return NetshStep::Done(Ok(true));
        }
        let mut all_expected = true;
        let mut i: usize = 0;
        while i < expected_ips.len()
            invariant
                i <= expected_ips@.len(),
                ev == strings_view(expected_ips@),
                cv == strings_view(current@),
                all_expected == forall|j: int| 0 <= j < i ==> ip_matched_in(#[trigger] ev[j], cv),
            decreases expected_ips@.len() - i,
        {
            let m = self.is_ip_matched(expected_ips[i].as_str(), current.as_slice());
            assert(ev[i as int] == expected_ips@[i as int]@);
            all_expected = all_expected && m;
            i = i + 1;
        }
        if !all_expected {
            return NetshStep::Done(Ok(false));
        }
        if strict_mode {
            let mut all_current = true;
            let mut j: usize = 0;
            while j < current.len()
                invariant
                    j <= current@.len(),
                    ev == strings_view(expected_ips@),
                    cv == strings_view(current@),
                    all_current == forall|k: int| 0 <= k < j ==> ip_in_list(#[trigger] cv[k], ev),
                decreases current@.len() - j,
            {
                let m = self.is_ip_in_list(current[j].as_str(), expected_ips);
                assert(cv[j as int] == current@[j as int]@);
                all_current = all_current && m;
                j = j + 1;
            }
            return NetshStep::Done(Ok(all_current));
        }
        NetshStep::Done(Ok(true))
    }

    /// Whether a rule exists, is enabled and admits one expected address; `false` for a
    /// rule that does not exist.
    pub fn verify_rule_simple(
        &self,
        name: &str,
        direction: Option<&str>,
        expected_ip: &str,
        outcomes: &[Result<String, FirewallError>],
    ) -> (r: NetshStep<bool>)
        ensures
            r@ == verify_simple_step(name@, dir_or_in(direction), expected_ip@, outcomes_view(outcomes@)),
    {
        let dir: &str = match direction {
            Some(d) => d,
            None => "in",
        };
        if outcomes.len() == 0 {
            return NetshStep::Run(show_rule_cmd(name, dir));
        }
        let shown = match outcome_at(outcomes, 0) {
            Err(FirewallError::RuleNotFound(_)) => return NetshStep::Done(Ok(false)),
            Err(e) => return NetshStep::Done(Err(copy_error(e))),
            Ok(s) => s,
        };
        let rule = parse_rule_details(name, shown.as_str());
        if outcomes.len() == 1 {
            return NetshStep::Run(show_rule_cmd(name, dir));
        }
        let listed = match outcome_at(outcomes, 1) {
            Err(e) => return NetshStep::Done(Err(copy_error(e))),
            Ok(s) => s,
        };
        let current = parse_remote_ips(listed.as_str());
        let matched = self.is_ip_matched(expected_ip, current.as_slice());
        NetshStep::Done(Ok(matched && rule.enabled))
    }

    /// The settings of a rule, as `netsh` shows them.
    pub fn get_rule_info(
        &self,
        name: &str,
        direction: Option<&str>,
        outcomes: &[Result<String, FirewallError>],
    ) -> (r: NetshStep<FirewallRule>)
        ensures
            r@ == rule_info_step(name@, dir_or_in(direction), outcomes_view(outcomes@)),
    {
        let dir: &str = match direction {
            Some(d) => d,
            None => "in",
        };
        if outcomes.len() == 0 {
            return NetshStep::Run(show_rule_cmd(name, dir));
        }
        match outcome_at(outcomes, 0) {
            Ok(s) => NetshStep::Done(Ok(parse_rule_details(name, s.as_str()))),
            Err(e) => NetshStep::Done(Err(copy_error(e))),
        }
    }

    /// Whether a rule of that name exists in that direction.
    pub fn rule_exists(
        &self,
        name: &str,
        direction: Option<&str>,
        outcomes: &[Result<String, FirewallError>],
    ) -> (r: NetshStep<bool>)
        ensures
            r@ == rule_exists_step(name@, dir_or_in(direction), outcomes_view(outcomes@)),
    {
        let dir: &str = match direction {
            Some(d) => d,
            None => "in",
        };
        if outcomes.len() == 0 {
            return NetshStep::Run(show_rule_cmd(name, dir));
        }
        match outcome_at(outcomes, 0) {
            Ok(_) => NetshStep::Done(Ok(true)),
            Err(FirewallError::RuleNotFound(_)) => NetshStep::Done(Ok(false)),
            Err(e) => NetshStep::Done(Err(copy_error(e))),
        }
    }

    /// The remote addresses of a rule.
    pub fn get_remote_ips(
        &self,
        name: &str,
        direction: Option<&str>,
        outcomes: &[Result<String, FirewallError>],
    ) -> (r: NetshStep<Vec<String>>)
        ensures
            strings_step_view(r) == remote_ips_step(name@, dir_or_in(direction), outcomes_view(outcomes@)),
    {
        let dir: &str = match direction {
            Some(d) => d,
            None => "in",
        };
        if outcomes.len() == 0 {
            return NetshStep::Run(show_rule_cmd(name, dir));
        }
        match outcome_at(outcomes, 0) {
            Ok(s) => NetshStep::Done(Ok(parse_remote_ips(s.as_str()))),
            Err(e) => NetshStep::Done(Err(copy_error(e))),
        }
    }

    /// The rules `netsh` lists, or the fallback list when it lists none or fails.
    pub fn list_rules(&self, outcomes: &[Result<String, FirewallError>]) -> (r: NetshStep<
        Vec<FirewallRule>,
    >)
        ensures
            rules_step_view(r) == list_rules_step(self.fallback(), outcomes_view(outcomes@)),
    {
        if outcomes.len() == 0 {
            return NetshStep::Run(show_all_cmd());
        }
        match outcome_at(outcomes, 0) {
            Ok(s) => {
                let parsed = parse_rules_listing(s.as_str());
                if parsed.len() > 0 {
                    NetshStep::Done(Ok(parsed))
                } else {
                    NetshStep::Done(Ok(duplicate_rules(&self.fallback_rules)))
                }
            },
            Err(_) => NetshStep::Done(Ok(duplicate_rules(&self.fallback_rules))),
        }
    }

    /// The state of the firewall: the number of rules a listing gives, and of those
    /// enabled.
    pub fn get_status(&self, outcomes: &[Result<String, FirewallError>]) -> (r: NetshStep<
        FirewallStatus,
    >)
        ensures
            r@ == status_step(self.fallback(), outcomes_view(outcomes@)),
    {
        match self.list_rules(outcomes) {
            NetshStep::Run(a) => NetshStep::Run(a),
            NetshStep::Done(Ok(rules)) => {
                let active_count = enabled_count(&rules);
                NetshStep::Done(
                    Ok(
                        FirewallStatus {
                            active: true,
                            platform: "Windows Firewall".to_string(),
                            total_rules: rules.len(),
                            active_rules: active_count,
                        },
                    ),
                )
            },
            NetshStep::Done(Err(_)) => NetshStep::Done(
                Ok(
                    FirewallStatus {
                        active: true,
                        platform: "Windows Firewall".to_string(),
                        total_rules: 0,
                        active_rules: 0,
                    },
                ),
            ),
        }
    }

    /// Enables or disables a rule; when `netsh` fails, a rule of that name in the
    /// fallback list is changed instead.
    fn set_rule_state(
        &mut self,
        name: &str,
        dir: Option<&str>,
        enable: bool,
        outcomes: &[Result<String, FirewallError>],
    ) -> (r: NetshStep<()>)
        ensures
            ({
                let (s, f) = set_enabled_step(
                    old(self).fallback(),
                    name@,
                    dir_or_in(dir),
                    enable,
                    outcomes_view(outcomes@),
                );
                r@ == s && final(self).fallback() == f
            }),
    {
        let d: &str = match dir {
            Some(d) => d,
            None => "in",
        };
        if outcomes.len() == 0 {
            return NetshStep::Run(set_enable_cmd(name, d, enable));
        }
        match outcome_at(outcomes, 0) {
            Ok(_) => NetshStep::Done(Ok(())),
            Err(e) => {
                let before = position_of(&self.fallback_rules, name);
                proof {
                    lemma_find_rule(self.fallback(), name@);
                }
                if before < self.fallback_rules.len() {
                    let _ = set_rule_enabled(&mut self.fallback_rules, name, enable);
                    NetshStep::Done(Ok(()))
                } else {
                    NetshStep::Done(Err(copy_error(e)))
                }
            },
        }
    }

    /// Enables a rule.
    pub fn enable_rule(
        &mut self,
        name: &str,
        dir: Option<&str>,
        outcomes: &[Result<String, FirewallError>],
    ) -> (r: NetshStep<()>)
        ensures
            ({
                let (s, f) = set_enabled_step(
                    old(self).fallback(),
                    name@,
                    dir_or_in(dir),
                    true,
                    outcomes_view(outcomes@),
                );
                r@ == s && final(self).fallback() == f
            }),
    {
        self.set_rule_state(name, dir, true, outcomes)
    }

    /// Disables a rule.
    pub fn disable_rule(
        &mut self,
        name: &str,
        dir: Option<&str>,
        outcomes: &[Result<String, FirewallError>],
    ) -> (r: NetshStep<()>)
        ensures
            ({
                let (s, f) = set_enabled_step(
                    old(self).fallback(),
                    name@,
                    dir_or_in(dir),
                    false,
                    outcomes_view(outcomes@),
                );
                r@ == s && final(self).fallback() == f
            }),
    {
        self.set_rule_state(name, dir, false, outcomes)
    }

    /// Creates a rule that admits `proto` on `port` from `src`; when `netsh` fails, the
    /// rule goes to the fallback list instead.
    pub fn create_rule(
        &mut self,
        name: &str,
        src: &str,
        dest: &str,
        proto: &str,
        port: u16,
        dir: Option<&str>,
        outcomes: &[Result<String, FirewallError>],
    ) -> (r: NetshStep<()>)
        ensures
            ({
                let (s, f) = create_step(
                    old(self).fallback(),
                    name@,
                    src@,
                    dest@,
                    proto@,
                    port,
                    dir_or_in(dir),
                    outcomes_view(outcomes@),
                );
                r@ == s && final(self).fallback() == f
            }),
    {
        let d: &str = match dir {
            Some(d) => d,
            None => "in",
        };
        if outcomes.len() == 0 {
            return NetshStep::Run(add_rule_cmd(name, d, proto, port, src));
        }
        match outcome_at(outcomes, 0) {
            Ok(_) => NetshStep::Done(Ok(())),
            Err(_) => {
                let rule = FirewallRule {
                    name: name.to_string(),
                    src: src.to_string(),
                    dest: dest.to_string(),
                    proto: proto.to_string(),
                    port,
                    enabled: true,
                };
                replace_rule(&mut self.fallback_rules, rule);
                NetshStep::Done(Ok(()))
            },
        }
    }

    /// Deletes a rule; when `netsh` fails, the rules of that name leave the fallback
    /// list, and the deletion succeeds when there was one.
    pub fn delete_rule(&mut self, name: &str, outcomes: &[Result<String, FirewallError>]) -> (r:
        NetshStep<()>)
        ensures
            ({
                let (s, f) = delete_step(old(self).fallback(), name@, outcomes_view(outcomes@));
                r@ == s && final(self).fallback() == f
            }),
    {
        if outcomes.len() == 0 {
            return NetshStep::Run(delete_cmd(name));
        }
        match outcome_at(outcomes, 0) {
            Ok(_) => NetshStep::Done(Ok(())),
            Err(e) => {
                proof {
                    lemma_without_name(self.fallback(), name@);
                }
                match remove_rules(&mut self.fallback_rules, name) {
                    Ok(()) => NetshStep::Done(Ok(())),
                    Err(_) => NetshStep::Done(Err(copy_error(e))),
                }
            },
        }
    }
}

/// The outcomes after the first.
fn outcomes_after_first(outcomes: &[Result<String, FirewallError>]) -> (r: Vec<
    Result<String, FirewallError>,
>)
    requires
        outcomes@.len() >= 1,
    ensures
        outcomes_view(r@) == outcomes_view(outcomes@).drop_first(),
{
    let mut r: Vec<Result<String, FirewallError>> = Vec::new();
    let mut k: usize = 1;
    while k < outcomes.len()
        invariant
            1 <= k <= outcomes@.len(),
            outcomes_view(r@) == outcomes_view(outcomes@).subrange(1, k as int),
        decreases outcomes@.len() - k,
    {
        let copy = match outcome_at(outcomes, k) {
            Ok(s) => Ok(s.as_str().to_string()),
            Err(e) => Err(copy_error(e)),
        };
        assert(outcome_view(copy) == outcomes_view(outcomes@)[k as int]);
        let ghost before = r@;
        let ghost seen = outcome_view(copy);
        r.push(copy);
        assert(outcomes_view(r@) =~= outcomes_view(before).push(seen));
        assert(outcomes_view(r@) =~= outcomes_view(outcomes@).subrange(1, k + 1));
        k = k + 1;
    }
    assert(outcomes_view(outcomes@).subrange(1, k as int) =~= outcomes_view(outcomes@).drop_first());
    r
}

/// Every entry kept by an update is a current entry that the pattern does not select,
/// normalized.
pub proof fn lemma_kept_ips(current: Seq<Seq<char>>, pattern: Seq<char>)
    ensures
        kept_ips(current, pattern).len() <= current.len(),
        forall|k: int|
            0 <= k < kept_ips(current, pattern).len() ==> exists|j: int|
                0 <= j < current.len() && !pattern_selects(current[j], pattern)
                    && #[trigger] kept_ips(current, pattern)[k] == normalized_ip(current[j]),
    decreases current.len(),
{
    if current.len() > 0 {
        let init = current.drop_last();
        lemma_kept_ips(init, pattern);
        let kept = kept_ips(current, pattern);
        assert forall|k: int| 0 <= k < kept.len() implies exists|j: int|
            0 <= j < current.len() && !pattern_selects(current[j], pattern) && #[trigger] kept[k]
                == normalized_ip(current[j]) by {
            if k < kept_ips(init, pattern).len() {
                let j = choose|j: int|
                    0 <= j < init.len() && !pattern_selects(init[j], pattern)
                        && kept_ips(init, pattern)[k] == normalized_ip(init[j]);
                assert(current[j] == init[j]);
            } else {
                assert(current[current.len() - 1] == current.last());
            }
        }
    }
}

/// After an update the rule admits the new address, and every other address it keeps
/// is a current one that the pattern does not select.
pub proof fn lemma_planned_ips(current: Seq<Seq<char>>, pattern: Seq<char>, new_ip: Seq<char>)
    ensures
        planned_ips(current, pattern, new_ip).contains(normalized_ip(new_ip)),
        forall|k: int|
            0 <= k < planned_ips(current, pattern, new_ip).len() ==> #[trigger] planned_ips(
                current,
                pattern,
                new_ip,
            )[k] == normalized_ip(new_ip) || exists|j: int|
                0 <= j < current.len() && !pattern_selects(current[j], pattern)
                    && planned_ips(current, pattern, new_ip)[k] == normalized_ip(current[j]),
{
    lemma_kept_ips(current, pattern);
    let kept = kept_ips(current, pattern);
    let n = normalized_ip(new_ip);
    let p = planned_ips(current, pattern, new_ip);
    if !kept.contains(n) {
        assert(p[kept.len() as int] == n);
    }
    assert forall|k: int| 0 <= k < p.len() implies #[trigger] p[k] == n || exists|j: int|
        0 <= j < current.len() && !pattern_selects(current[j], pattern) && p[k] == normalized_ip(
            current[j],
        ) by {
        if k < kept.len() {
            assert(p[k] == kept[k]);
        }
    }
}

/// Every address form matches itself.
pub proof fn lemma_ip_matches_itself(e: Seq<char>)
    ensures
        ip_matches(e, e),
{
}

/// A list of addresses agrees with itself.
pub proof fn lemma_lists_agree_reflexive(l: Seq<Seq<char>>)
    ensures
        ip_lists_agree(l, l),
{
    if l.len() > 0 {
        assert forall|i: int| 0 <= i < l.len() implies ip_matched_in(#[trigger] l[i], l) by {
            assert(ip_matches(l[i], l[i]));
        }
        assert forall|j: int| 0 <= j < l.len() implies ip_in_list(#[trigger] l[j], l) by {
            assert(ip_matches(l[j], l[j]));
        }
    }
}

/// An address matches a range `start-end` exactly when the range has two ends, the
/// address and both (trimmed) ends read as dotted addresses, and the address's value
/// lies between the value of the start and that of the end, both included: an address
/// below the start, or above the end, never matches.
pub proof fn lemma_range_holds_between_its_ends(range: Seq<char>, ip: Seq<char>)
    ensures
        range_matches(range, ip) <==> {
            let parts = split(range, '-');
            &&& parts.len() == 2
            &&& ip_of(ip) is Some
            &&& ip_of(trim(parts[0])) is Some
            &&& ip_of(trim(parts[1])) is Some
            &&& ip_of(trim(parts[0]))->0 <= ip_of(ip)->0
            &&& ip_of(ip)->0 <= ip_of(trim(parts[1]))->0
        },
        ({
            let parts = split(range, '-');
            parts.len() == 2 && ip_of(ip) is Some && ip_of(trim(parts[0])) is Some
                && ip_of(ip)->0 < ip_of(trim(parts[0]))->0
        }) ==> !range_matches(range, ip),
{
}

} // verus!
