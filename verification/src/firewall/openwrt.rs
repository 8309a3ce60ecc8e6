//! The OpenWrt firewall back end, which drives `uci` and the firewall service.
use vstd::prelude::*;
use crate::error::{AppError, AppErrorView};
use crate::text::{
    chars_of, concat, contains, dec, find, find_sub_from, lemma_find_sub_from, line_ranges, lines,
    parse_unsigned, parse_usize_range, push_usize, range_find, range_find_sub, split_once,
    string_of, strings_view, trim, trim_range, range_split_once,
};

verus! {

broadcast use vstd::string::group_string_axioms;

/// The next thing an operation of the back end needs.
pub enum UciStep<T> {
    /// Run this program with these arguments, then call the operation again with the
    /// outcome appended to the outcomes so far.
    Run(String, Vec<String>),
    /// The operation is over, with this result.
    Done(Result<T, AppError>),
}

/// The contents of a [`UciStep`].
pub enum UciStepView<V> {
    Run(Seq<char>, Seq<Seq<char>>),
    Done(Result<V, AppErrorView>),
}

impl<T: View> View for UciStep<T> {
    type V = UciStepView<T::V>;

    open spec fn view(&self) -> UciStepView<T::V> {
        match self {
            UciStep::Run(p, a) => UciStepView::Run(p@, strings_view(a@)),
            UciStep::Done(Ok(x)) => UciStepView::Done(Ok(x@)),
            UciStep::Done(Err(e)) => UciStepView::Done(Err(e@)),
        }
    }
}

/// A program and its arguments.
pub type CommandLine = (Seq<char>, Seq<Seq<char>>);

/// The contents of what one run gave.
pub open spec fn outcome_view(o: Result<String, AppError>) -> Result<Seq<char>, AppErrorView> {
    match o {
        Ok(s) => Ok(s@),
        Err(e) => Err(e@),
    }
}

/// The contents of the outcomes so far.
pub open spec fn outcomes_view(o: Seq<Result<String, AppError>>) -> Seq<
    Result<Seq<char>, AppErrorView>,
> {
    o.map_values(|x: Result<String, AppError>| outcome_view(x))
}

/// The result of one run of `program`: its standard output on success, else a firewall
/// error that names the program and gives its trimmed standard error.
pub open spec fn run_result(program: Seq<char>, success: bool, stdout: Seq<char>, stderr: Seq<char>) -> Result<
    Seq<char>,
    AppErrorView,
> {
    if success {
        Ok(stdout)
    } else {
        Err(AppErrorView::Firewall(program + " failed: "@ + trim(stderr)))
    }
}

/// `uci show firewall`.
pub open spec fn show_cmd() -> CommandLine {
    ("uci"@, seq!["show"@, "firewall"@])
}

/// `uci commit firewall`.
pub open spec fn commit_cmd() -> CommandLine {
    ("uci"@, seq!["commit"@, "firewall"@])
}

/// `/etc/init.d/firewall reload`.
pub open spec fn reload_cmd() -> CommandLine {
    ("/etc/init.d/firewall"@, seq!["reload"@])
}

/// `uci set firewall.@rule[<index>].enabled=1` (or `=0`).
pub open spec fn set_enabled_cmd(index: usize, on: bool) -> CommandLine {
    (
        "uci"@,
        seq![
            "set"@,
            "firewall.@rule["@ + dec(index as nat) + "].enabled="@ + if on {
                "1"@
            } else {
                "0"@
            },
        ],
    )
}

/// `uci delete firewall.@rule[<index>]`.
pub open spec fn delete_cmd(index: usize) -> CommandLine {
    ("uci"@, seq!["delete"@, "firewall.@rule["@ + dec(index as nat) + "]"@])
}

/// `uci set firewall.@rule[-1].<option>=<value>`.
pub open spec fn set_last_cmd(option: Seq<char>, value: Seq<char>) -> CommandLine {
    ("uci"@, seq!["set"@, "firewall.@rule[-1]."@ + option + "="@ + value])
}

/// The commands that add a rule admitting `proto` to `dest` port `port` from `src`.
pub open spec fn create_cmds(
    name: Seq<char>,
    src: Seq<char>,
    dest: Seq<char>,
    proto: Seq<char>,
    port: Seq<char>,
) -> Seq<CommandLine> {
    seq![
        ("uci"@, seq!["add"@, "firewall"@, "rule"@]),
        set_last_cmd("name"@, name),
        set_last_cmd("src"@, src),
        set_last_cmd("dest"@, dest),
        set_last_cmd("proto"@, proto),
        set_last_cmd("dest_port"@, port),
        ("uci"@, seq!["set"@, "firewall.@rule[-1].target=ACCEPT"@]),
        commit_cmd(),
        reload_cmd(),
    ]
}

/// `/etc/init.d/firewall status`.
pub open spec fn service_status_cmd() -> CommandLine {
    ("/etc/init.d/firewall"@, seq!["status"@])
}

/// `fw4 print`.
pub open spec fn fw4_print_cmd() -> CommandLine {
    ("fw4"@, seq!["print"@])
}

/// Runs the commands in order, stopping at the first that fails.
pub open spec fn sequence_step(cmds: Seq<CommandLine>, o: Seq<Result<Seq<char>, AppErrorView>>) -> UciStepView<()>
    decreases cmds.len(),
{
    if cmds.len() == 0 {
        UciStepView::Done(Ok(()))
    } else if o.len() == 0 {
        UciStepView::Run(cmds[0].0, cmds[0].1)
    } else {
        match o[0] {
            Err(e) => UciStepView::Done(Err(e)),
            Ok(_) => sequence_step(cmds.drop_first(), o.drop_first()),
        }
    }
}

// ---------------------------------------------------------------------------
// Reading `uci show firewall`
// ---------------------------------------------------------------------------

/// What a line about the rule `name` holds: `.name='<name>'`.
pub open spec fn name_marker(name: Seq<char>) -> Seq<char> {
    ".name='"@ + name + "'"@
}

/// The text between `@rule[` and the next `]` of a line, when both occur.
pub open spec fn index_text(line: Seq<char>) -> Option<Seq<char>> {
    match find_sub_from(line, "@rule["@, 0) {
        None => None,
        Some(start) => {
            let rest = line.subrange(start + 6, line.len() as int);
            let end = find(rest, ']');
            if end < rest.len() {
                Some(rest.subrange(0, end))
            } else {
                None
            }
        },
    }
}

/// The index of the rule `name` from line `i` on: the first line that holds the name
/// marker and an index text decides, by whether that text reads as a number.
pub open spec fn rule_index_from(ls: Seq<Seq<char>>, name: Seq<char>, i: int) -> Result<usize, AppErrorView>
    decreases ls.len() - i,
{
    if i < 0 || i >= ls.len() {
        Err(AppErrorView::Firewall("Rule '"@ + name + "' not found"@))
    } else if contains(ls[i], name_marker(name)) && index_text(ls[i]) is Some {
        match parse_unsigned(index_text(ls[i])->0, usize::MAX as nat) {
            Some(n) => Ok(n as usize),
            None => Err(AppErrorView::Firewall("Cannot parse rule index for '"@ + name + "'"@)),
        }
    } else {
        rule_index_from(ls, name, i + 1)
    }
}

/// The index of the rule `name` in the output of `uci show firewall`.
pub open spec fn rule_index_of(output: Seq<char>, name: Seq<char>) -> Result<usize, AppErrorView> {
    rule_index_from(lines(output), name, 0)
}

/// A rule that `uci show firewall` names: its key and its name.
pub struct NamedRule {
    pub key: String,
    pub name: String,
}

/// The contents of a [`NamedRule`].
pub struct NamedRuleView {
    pub key: Seq<char>,
    pub name: Seq<char>,
}

impl View for NamedRule {
    type V = NamedRuleView;

    open spec fn view(&self) -> NamedRuleView {
        NamedRuleView { key: self.key@, name: self.name@ }
    }
}

/// `str::trim_matches('\'')` without its leading quotes.
pub open spec fn trim_quotes_left(s: Seq<char>) -> Seq<char>
    decreases s.len(),
{
    if s.len() > 0 && s[0] == '\'' {
        trim_quotes_left(s.drop_first())
    } else {
        s
    }
}

/// `s` without its trailing quotes.
pub open spec fn trim_quotes_right(s: Seq<char>) -> Seq<char>
    decreases s.len(),
{
    if s.len() > 0 && s.last() == '\'' {
        trim_quotes_right(s.drop_last())
    } else {
        s
    }
}

/// `str::trim_matches('\'')`: without leading and trailing quotes.
pub open spec fn trim_quotes(s: Seq<char>) -> Seq<char> {
    trim_quotes_right(trim_quotes_left(s))
}

/// The rule a line names: the part before the first `=` as key, the rest without its
/// surrounding quotes as name (empty without an `=`).
pub open spec fn named_rule_of(line: Seq<char>) -> NamedRuleView {
    match split_once(line, '=') {
        Some((k, v)) => NamedRuleView { key: k, name: trim_quotes(v) },
        None => NamedRuleView { key: line, name: Seq::empty() },
    }
}

/// The rules that the lines from `i` on name, in order: those lines that hold `.name=`.
pub open spec fn named_rules_from(ls: Seq<Seq<char>>) -> Seq<NamedRuleView>
    decreases ls.len(),
{
    if ls.len() == 0 {
        Seq::empty()
    } else {
        let init = named_rules_from(ls.drop_last());
        if contains(ls.last(), ".name="@) {
            init.push(named_rule_of(ls.last()))
        } else {
            init
        }
    }
}

/// The rules that the output of `uci show firewall` names.
pub open spec fn named_rules_of(output: Seq<char>) -> Seq<NamedRuleView> {
    named_rules_from(lines(output))
}

/// The contents of a list of named rules.
pub open spec fn named_view(v: Seq<NamedRule>) -> Seq<NamedRuleView> {
    v.map_values(|r: NamedRule| r@)
}

// ---------------------------------------------------------------------------
// Operations
// ---------------------------------------------------------------------------

/// Listing: the rules that `uci show firewall` names.
pub open spec fn list_step(o: Seq<Result<Seq<char>, AppErrorView>>) -> UciStepView<Seq<NamedRuleView>> {
    if o.len() == 0 {
        UciStepView::Run(show_cmd().0, show_cmd().1)
    } else {
        match o[0] {
            Ok(out) => UciStepView::Done(Ok(named_rules_of(out))),
            Err(e) => UciStepView::Done(Err(e)),
        }
    }
}

/// Enabling or disabling: find the rule's index, set its flag, commit, reload.
pub open spec fn switch_step(name: Seq<char>, on: bool, o: Seq<Result<Seq<char>, AppErrorView>>) -> UciStepView<()> {
    if o.len() == 0 {
        UciStepView::Run(show_cmd().0, show_cmd().1)
    } else {
        match o[0] {
            Err(e) => UciStepView::Done(Err(e)),
            Ok(out) => match rule_index_of(out, name) {
                Err(e) => UciStepView::Done(Err(e)),
                Ok(index) => sequence_step(
                    seq![set_enabled_cmd(index, on), commit_cmd(), reload_cmd()],
                    o.drop_first(),
                ),
            },
        }
    }
}

/// Deleting: find the rule's index, delete it, commit, reload.
pub open spec fn delete_step(name: Seq<char>, o: Seq<Result<Seq<char>, AppErrorView>>) -> UciStepView<()> {
    if o.len() == 0 {
        UciStepView::Run(show_cmd().0, show_cmd().1)
    } else {
        match o[0] {
            Err(e) => UciStepView::Done(Err(e)),
            Ok(out) => match rule_index_of(out, name) {
                Err(e) => UciStepView::Done(Err(e)),
                Ok(index) => sequence_step(
                    seq![delete_cmd(index), commit_cmd(), reload_cmd()],
                    o.drop_first(),
                ),
            },
        }
    }
}

/// The state of the firewall: what the service reports, else what `fw4 print` prints,
/// else `unknown`, trimmed.
pub open spec fn status_step(o: Seq<Result<Seq<char>, AppErrorView>>) -> UciStepView<Seq<char>> {
    if o.len() == 0 {
        UciStepView::Run(service_status_cmd().0, service_status_cmd().1)
    } else {
        match o[0] {
            Ok(out) => UciStepView::Done(Ok(trim(out))),
            Err(_) => if o.len() == 1 {
                UciStepView::Run(fw4_print_cmd().0, fw4_print_cmd().1)
            } else {
                match o[1] {
                    Ok(out) => UciStepView::Done(Ok(trim(out))),
                    Err(_) => UciStepView::Done(Ok("unknown"@)),
                }
            },
        }
    }
}

// ---------------------------------------------------------------------------
// Executable side
// ---------------------------------------------------------------------------

/// The contents of a command line.
pub open spec fn line_view(c: (String, Vec<String>)) -> CommandLine {
    (c.0@, strings_view(c.1@))
}

/// The contents of a list of command lines.
pub open spec fn lines_view(v: Seq<(String, Vec<String>)>) -> Seq<CommandLine> {
    v.map_values(|c: (String, Vec<String>)| line_view(c))
}

/// The result of one run of `program`, from its exit status and output.
pub fn run_outcome(program: &str, success: bool, stdout: String, stderr: &str) -> (r: Result<
    String,
    AppError,
>)
    ensures
        outcome_view(r) == run_result(program@, success, stdout@, stderr@),
{
    if success {
        return Ok(stdout);
    }
    let e = chars_of(stderr);
    assert(e@.subrange(0, e@.len() as int) =~= e@);
    let (a, b) = trim_range(&e, 0, e.len());
    let detail = string_of(&e, a, b);
    let mut m = concat(program, " failed: ");
    m.append(detail.as_str());
    Err(AppError::Firewall(m))
}

/// A program with two arguments.
fn line2(program: &str, a: String, b: String) -> (r: (String, Vec<String>))
    ensures
        line_view(r) == (program@, seq![a@, b@]),
{
    let mut v: Vec<String> = Vec::new();
    v.push(a);
    v.push(b);
    let r = (program.to_string(), v);
    assert(strings_view(r.1@) =~= seq![a@, b@]);
    r
}

/// A program with one argument.
fn line1(program: &str, a: String) -> (r: (String, Vec<String>))
    ensures
        line_view(r) == (program@, seq![a@]),
{
    let mut v: Vec<String> = Vec::new();
    v.push(a);
    let r = (program.to_string(), v);
    assert(strings_view(r.1@) =~= seq![a@]);
    r
}

fn show_line() -> (r: (String, Vec<String>))
    ensures
        line_view(r) == show_cmd(),
{
    line2("uci", "show".to_string(), "firewall".to_string())
}

fn commit_line() -> (r: (String, Vec<String>))
    ensures
        line_view(r) == commit_cmd(),
{
    line2("uci", "commit".to_string(), "firewall".to_string())
}

fn reload_line() -> (r: (String, Vec<String>))
    ensures
        line_view(r) == reload_cmd(),
{
    line1("/etc/init.d/firewall", "reload".to_string())
}

fn set_enabled_line(index: usize, on: bool) -> (r: (String, Vec<String>))
    ensures
        line_view(r) == set_enabled_cmd(index, on),
{
    let mut s = "firewall.@rule[".to_string();
    push_usize(&mut s, index);
    s.append("].enabled=");
    if on {
        s.append("1");
    } else {
        s.append("0");
    }
    line2("uci", "set".to_string(), s)
}

fn delete_line(index: usize) -> (r: (String, Vec<String>))
    ensures
        line_view(r) == delete_cmd(index),
{
    let mut s = "firewall.@rule[".to_string();
    push_usize(&mut s, index);
    s.append("]");
    line2("uci", "delete".to_string(), s)
}

fn set_last_line(option: &str, value: &str) -> (r: (String, Vec<String>))
    ensures
        line_view(r) == set_last_cmd(option@, value@),
{
    let mut s = concat("firewall.@rule[-1].", option);
    s.append("=");
    s.append(value);
    line2("uci", "set".to_string(), s)
}

fn create_lines(name: &str, src: &str, dest: &str, proto: &str, port: &str) -> (r: Vec<
    (String, Vec<String>),
>)
    ensures
        lines_view(r@) == create_cmds(name@, src@, dest@, proto@, port@),
{
    let mut v: Vec<(String, Vec<String>)> = Vec::new();
    let mut add: Vec<String> = Vec::new();
    add.push("add".to_string());
    add.push("firewall".to_string());
    add.push("rule".to_string());
    assert(strings_view(add@) =~= seq!["add"@, "firewall"@, "rule"@]);
    v.push(("uci".to_string(), add));
    v.push(set_last_line("name", name));
    v.push(set_last_line("src", src));
    v.push(set_last_line("dest", dest));
    v.push(set_last_line("proto", proto));
    v.push(set_last_line("dest_port", port));
    v.push(line2("uci", "set".to_string(), "firewall.@rule[-1].target=ACCEPT".to_string()));
    v.push(commit_line());
    v.push(reload_line());
    assert(lines_view(v@) =~= create_cmds(name@, src@, dest@, proto@, port@));
    v
}

/// A copy of an error with the same contents.
fn copy_error(e: &AppError) -> (r: AppError)
    ensures
        r@ == e@,
{
    e.duplicate()
}

/// The outcome of the `k`-th run.
fn outcome_at(outcomes: &[Result<String, AppError>], k: usize) -> (r: &Result<String, AppError>)
    requires
        k < outcomes@.len(),
    ensures
        outcome_view(*r) == outcomes_view(outcomes@)[k as int],
{
    &outcomes[k]
}

/// Runs `cmds` in order against the outcomes from index `from` on.
fn run_sequence(cmds: Vec<(String, Vec<String>)>, outcomes: &[Result<String, AppError>], from: usize) -> (r:
    UciStep<()>)
    requires
        from <= outcomes@.len(),
    ensures
        r@ == sequence_step(
            lines_view(cmds@),
            outcomes_view(outcomes@).subrange(from as int, outcomes@.len() as int),
        ),
{
    let ghost cv = lines_view(cmds@);
    let ghost ov = outcomes_view(outcomes@);
    let n = outcomes.len();
    let mut i: usize = 0;
    assert(cv.subrange(0, cv.len() as int) =~= cv);
    while i < cmds.len()
        invariant
            i <= cmds@.len(),
            n == outcomes@.len(),
            from + i <= n,
            cv == lines_view(cmds@),
            ov == outcomes_view(outcomes@),
            sequence_step(cv, ov.subrange(from as int, ov.len() as int)) == sequence_step(
                cv.subrange(i as int, cv.len() as int),
                ov.subrange(from + i, ov.len() as int),
            ),
        decreases cmds@.len() - i,
    {
        let ghost rest_c = cv.subrange(i as int, cv.len() as int);
        let ghost rest_o = ov.subrange(from + i, ov.len() as int);
        if from + i >= n {
            assert(rest_o.len() == 0);
            assert(rest_c[0] == cv[i as int]);
            let (p, a) = (cmds[i].0.as_str().to_string(), copy_words(&cmds[i].1));
            return UciStep::Run(p, a);
        }
        assert(rest_o[0] == ov[from + i]);
        match outcome_at(outcomes, from + i) {
            Err(e) => {
                return UciStep::Done(Err(copy_error(e)));
            },
            Ok(_) => {},
        }
        assert(rest_c.drop_first() =~= cv.subrange(i + 1, cv.len() as int));
        assert(rest_o.drop_first() =~= ov.subrange(from + i + 1, ov.len() as int));
        i = i + 1;
    }
    UciStep::Done(Ok(()))
}

/// A copy of a list of words.
fn copy_words(v: &Vec<String>) -> (r: Vec<String>)
    ensures
        strings_view(r@) == strings_view(v@),
{
    let mut r: Vec<String> = Vec::new();
    let mut i: usize = 0;
    while i < v.len()
        invariant
            i <= v@.len(),
            strings_view(r@) == strings_view(v@).take(i as int),
        decreases v@.len() - i,
    {
        let ghost before = r@;
        let w = v[i].as_str().to_string();
        r.push(w);
        assert(strings_view(r@) =~= strings_view(before).push(v@[i as int]@));
        assert(strings_view(r@) =~= strings_view(v@).take(i + 1));
        i = i + 1;
    }
    assert(strings_view(v@).take(i as int) =~= strings_view(v@));
    r
}

/// The index text of the line `v[lo..hi]`, as bounds inside `v`.
fn index_text_range(v: &Vec<char>, lo: usize, hi: usize, marker: &Vec<char>) -> (r: Option<
    (usize, usize),
>)
    requires
        lo <= hi <= v@.len(),
        marker@ == "@rule["@,
    ensures
        match (r, index_text(v@.subrange(lo as int, hi as int))) {
            (Some((a, b)), Some(t)) => lo <= a <= b <= hi && v@.subrange(a as int, b as int) == t,
            (None, None) => true,
            _ => false,
        },
{
    let ghost line = v@.subrange(lo as int, hi as int);
    proof {
        reveal_strlit("@rule[");
    }
    proof {
        lemma_find_sub_from(line, marker@, 0);
    }
    match range_find_sub(v, lo, hi, marker) {
        None => None,
        Some(start) => {
            let from = lo + start + 6;
            let end = range_find(v, from, hi, ']');
            assert(line.subrange(start + 6, line.len() as int) =~= v@.subrange(from as int, hi as int));
            if end < hi - from {
                assert(line.subrange(start + 6, line.len() as int).subrange(0, end as int)
                    =~= v@.subrange(from as int, from + end));
                Some((from, from + end))
            } else {
                None
            }
        },
    }
}

/// The index of the rule `name` in the output of `uci show firewall`.
pub fn find_rule_index(uci_output: &str, name: &str) -> (r: Result<usize, AppError>)
    ensures
        match (r, rule_index_of(uci_output@, name@)) {
            (Ok(a), Ok(b)) => a == b,
            (Err(e), Err(f)) => e@ == f,
            _ => false,
        },
{
    let v = chars_of(uci_output);
    let ls = line_ranges(&v);
    let ghost lv = lines(v@);
    let mut target = concat(".name='", name);
    target.append("'");
    let tv = chars_of(target.as_str());
    let marker = chars_of("@rule[");
    let mut i: usize = 0;
    while i < ls.len()
        invariant
            i <= ls@.len(),
            ls@.len() == lv.len(),
            lv == lines(v@),
            v@ == uci_output@,
            tv@ == name_marker(name@),
            marker@ == "@rule["@,
            forall|k: int|
                0 <= k < ls@.len() ==> (#[trigger] ls@[k]).0 <= ls@[k].1 <= v@.len()
                    && v@.subrange(ls@[k].0 as int, ls@[k].1 as int) == lv[k],
            rule_index_from(lv, name@, 0) == rule_index_from(lv, name@, i as int),
        decreases ls@.len() - i,
    {
        let (a, b) = ls[i];
        assert(v@.subrange(a as int, b as int) == lv[i as int]);
        if crate::text::range_contains(&v, a, b, &tv) {
            match index_text_range(&v, a, b, &marker) {
                Some((x, y)) => {
                    return match parse_usize_range(&v, x, y) {
                        Some(n) => Ok(n),
                        None => {
                            let mut m = concat("Cannot parse rule index for '", name);
                            m.append("'");
                            Err(AppError::Firewall(m))
                        },
                    };
                },
                None => {},
            }
        }
        i = i + 1;
    }
    let mut m = concat("Rule '", name);
    m.append("' not found");
    Err(AppError::Firewall(m))
}

/// `v[lo..hi]` without leading and trailing quotes, as bounds.
fn trim_quotes_range(v: &Vec<char>, lo: usize, hi: usize) -> (r: (usize, usize))
    requires
        lo <= hi <= v@.len(),
    ensures
        lo <= r.0 <= r.1 <= hi,
        v@.subrange(r.0 as int, r.1 as int) == trim_quotes(v@.subrange(lo as int, hi as int)),
{
    let mut a = lo;
    while a < hi && v[a] == '\''
        invariant
            lo <= a <= hi <= v@.len(),
            trim_quotes_left(v@.subrange(lo as int, hi as int)) == trim_quotes_left(
                v@.subrange(a as int, hi as int),
            ),
        decreases hi - a,
    {
        assert(v@.subrange(a as int, hi as int).drop_first() =~= v@.subrange(a + 1, hi as int));
        a = a + 1;
    }
    assert(trim_quotes_left(v@.subrange(a as int, hi as int)) == v@.subrange(a as int, hi as int))
        by {
        if a < hi {
            assert(v@.subrange(a as int, hi as int)[0] == v@[a as int]);
        }
    }
    let mut b = hi;
    while b > a && v[b - 1] == '\''
        invariant
            lo <= a <= b <= hi <= v@.len(),
            trim_quotes_right(v@.subrange(a as int, hi as int)) == trim_quotes_right(
                v@.subrange(a as int, b as int),
            ),
        decreases b - a,
    {
        assert(v@.subrange(a as int, b as int).drop_last() =~= v@.subrange(a as int, b - 1));
        b = b - 1;
    }
    assert(trim_quotes_right(v@.subrange(a as int, b as int)) == v@.subrange(a as int, b as int))
        by {
        if a < b {
            assert(v@.subrange(a as int, b as int).last() == v@[b - 1]);
        }
    }
    (a, b)
}

/// The rules that the output of `uci show firewall` names, in order.
pub fn parse_named_rules(output: &str) -> (r: Vec<NamedRule>)
    ensures
        named_view(r@) == named_rules_of(output@),
{
    let v = chars_of(output);
    let ls = line_ranges(&v);
    let ghost lv = lines(v@);
    let marker = chars_of(".name=");
    let mut r: Vec<NamedRule> = Vec::new();
    let mut i: usize = 0;
    while i < ls.len()
        invariant
            i <= ls@.len(),
            ls@.len() == lv.len(),
            lv == lines(v@),
            v@ == output@,
            marker@ == ".name="@,
            forall|k: int|
                0 <= k < ls@.len() ==> (#[trigger] ls@[k]).0 <= ls@[k].1 <= v@.len()
                    && v@.subrange(ls@[k].0 as int, ls@[k].1 as int) == lv[k],
            named_view(r@) == named_rules_from(lv.take(i as int)),
        decreases ls@.len() - i,
    {
        let (a, b) = ls[i];
        assert(v@.subrange(a as int, b as int) == lv[i as int]);
        assert(lv.take(i + 1).drop_last() =~= lv.take(i as int));
        assert(lv.take(i + 1).last() == lv[i as int]);
        if crate::text::range_contains(&v, a, b, &marker) {
            let rule = match range_split_once(&v, a, b, '=') {
                Some(((ka, kb), (va, vb))) => {
                    let (qa, qb) = trim_quotes_range(&v, va, vb);
                    NamedRule { key: string_of(&v, ka, kb), name: string_of(&v, qa, qb) }
                },
                None => NamedRule { key: string_of(&v, a, b), name: String::new() },
            };
            r.push(rule);
            assert(named_view(r@) =~= named_rules_from(lv.take(i + 1)));
        }
        i = i + 1;
    }
    assert(lv.take(i as int) =~= lv);
    r
}

/// The OpenWrt back end. It keeps no state of its own: `uci` holds the rules.
pub struct OpenWrtFirewall;

impl OpenWrtFirewall {
    /// The back end.
    pub fn new() -> (r: Self) {
        OpenWrtFirewall
    }

    /// The rules that `uci show firewall` names.
    pub fn list_rules(&self, outcomes: &[Result<String, AppError>]) -> (r: UciStep<Vec<NamedRule>>)
        ensures
            match (r, list_step(outcomes_view(outcomes@))) {
                (UciStep::Run(p, a), UciStepView::Run(q, b)) => p@ == q && strings_view(a@) == b,
                (UciStep::Done(Ok(v)), UciStepView::Done(Ok(w))) => named_view(v@) == w,
                (UciStep::Done(Err(e)), UciStepView::Done(Err(f))) => e@ == f,
                _ => false,
            },
    {
        if outcomes.len() == 0 {
            let (p, a) = show_line();
            return UciStep::Run(p, a);
        }
        match outcome_at(outcomes, 0) {
            Ok(out) => UciStep::Done(Ok(parse_named_rules(out.as_str()))),
            Err(e) => UciStep::Done(Err(copy_error(e))),
        }
    }

    /// Sets the enabled flag of the rule `name`.
    fn switch_rule(&self, name: &str, on: bool, outcomes: &[Result<String, AppError>]) -> (r: UciStep<()>)
        ensures
            r@ == switch_step(name@, on, outcomes_view(outcomes@)),
    {
        if outcomes.len() == 0 {
            let (p, a) = show_line();
            return UciStep::Run(p, a);
        }
        let show = match outcome_at(outcomes, 0) {
            Err(e) => return UciStep::Done(Err(copy_error(e))),
            Ok(s) => s,
        };
        let index = match find_rule_index(show.as_str(), name) {
            Err(e) => return UciStep::Done(Err(e)),
            Ok(i) => i,
        };
        let mut cmds: Vec<(String, Vec<String>)> = Vec::new();
        cmds.push(set_enabled_line(index, on));
        cmds.push(commit_line());
        cmds.push(reload_line());
        assert(lines_view(cmds@) =~= seq![set_enabled_cmd(index, on), commit_cmd(), reload_cmd()]);
        assert(outcomes_view(outcomes@).subrange(1, outcomes@.len() as int) =~= outcomes_view(
            outcomes@,
        ).drop_first());
        run_sequence(cmds, outcomes, 1)
    }

    /// Enables the rule `name`.
    pub fn enable_rule(&self, name: &str, outcomes: &[Result<String, AppError>]) -> (r: UciStep<()>)
        ensures
            r@ == switch_step(name@, true, outcomes_view(outcomes@)),
    {
        self.switch_rule(name, true, outcomes)
    }

    /// Disables the rule `name`.
    pub fn disable_rule(&self, name: &str, outcomes: &[Result<String, AppError>]) -> (r: UciStep<()>)
        ensures
            r@ == switch_step(name@, false, outcomes_view(outcomes@)),
    {
        self.switch_rule(name, false, outcomes)
    }

    /// Adds a rule that admits `proto` to `dest` port `port` from `src`.
    pub fn create_rule(
        &self,
        name: &str,
        src: &str,
        dest: &str,
        proto: &str,
        port: &str,
        outcomes: &[Result<String, AppError>],
    ) -> (r: UciStep<()>)
        ensures
            r@ == sequence_step(create_cmds(name@, src@, dest@, proto@, port@), outcomes_view(outcomes@)),
    {
        let cmds = create_lines(name, src, dest, proto, port);
        assert(outcomes_view(outcomes@).subrange(0, outcomes@.len() as int) =~= outcomes_view(
            outcomes@,
        ));
        run_sequence(cmds, outcomes, 0)
    }

    /// Deletes the rule `name`.
    pub fn delete_rule(&self, name: &str, outcomes: &[Result<String, AppError>]) -> (r: UciStep<()>)
        ensures
            r@ == delete_step(name@, outcomes_view(outcomes@)),
    {
        if outcomes.len() == 0 {
            let (p, a) = show_line();
            return UciStep::Run(p, a);
        }
        let show = match outcome_at(outcomes, 0) {
            Err(e) => return UciStep::Done(Err(copy_error(e))),
            Ok(s) => s,
        };
        let index = match find_rule_index(show.as_str(), name) {
            Err(e) => return UciStep::Done(Err(e)),
            Ok(i) => i,
        };
        let mut cmds: Vec<(String, Vec<String>)> = Vec::new();
        cmds.push(delete_line(index));
        cmds.push(commit_line());
        cmds.push(reload_line());
        assert(lines_view(cmds@) =~= seq![delete_cmd(index), commit_cmd(), reload_cmd()]);
        assert(outcomes_view(outcomes@).subrange(1, outcomes@.len() as int) =~= outcomes_view(
            outcomes@,
        ).drop_first());
        run_sequence(cmds, outcomes, 1)
    }

    /// The state of the firewall, as the service or `fw4` reports it.
    pub fn status(&self, outcomes: &[Result<String, AppError>]) -> (r: UciStep<String>)
        ensures
            r@ == status_step(outcomes_view(outcomes@)),
    {
        if outcomes.len() == 0 {
            let (p, a) = line1("/etc/init.d/firewall", "status".to_string());
            return UciStep::Run(p, a);
        }
        match outcome_at(outcomes, 0) {
            Ok(out) => UciStep::Done(Ok(trimmed(out.as_str()))),
            Err(_) => {
                if outcomes.len() == 1 {
                    let (p, a) = line1("fw4", "print".to_string());
                    return UciStep::Run(p, a);
                }
                match outcome_at(outcomes, 1) {
                    Ok(out) => UciStep::Done(Ok(trimmed(out.as_str()))),
                    Err(_) => UciStep::Done(Ok("unknown".to_string())),
                }
            },
        }
    }
}

/// `s` without surrounding white space.
fn trimmed(s: &str) -> (r: String)
    ensures
        r@ == trim(s@),
{
    let v = chars_of(s);
    assert(v@.subrange(0, v@.len() as int) =~= v@);
    let (a, b) = trim_range(&v, 0, v.len());
    string_of(&v, a, b)
}

/// Where the search for the rule `name` from line `i` ends in an index, that line holds
/// `.name='`, the name and a closing `'`, one after another.
proof fn lemma_rule_index_from_names_exactly(ls: Seq<Seq<char>>, name: Seq<char>, i: int, n: usize)
    requires
        rule_index_from(ls, name, i) == Ok::<usize, AppErrorView>(n),
    ensures
        exists|k: int, a: int, b: int|
            0 <= k < ls.len() && 0 <= a <= b <= ls[k].len() && #[trigger] ls[k].subrange(a, b)
                == ".name='"@ + name + "'"@ && index_text(ls[k]) is Some && parse_unsigned(
                index_text(ls[k])->0,
                usize::MAX as nat,
            ) == Some(n as nat),
    decreases ls.len() - i,
{
    if 0 <= i < ls.len() && contains(ls[i], name_marker(name)) && index_text(ls[i]) is Some {
        let m = name_marker(name);
        let a = choose|a: int| crate::text::occurs_at(ls[i], m, a);
        assert(ls[i].subrange(a, a + m.len()) == ".name='"@ + name + "'"@);
    } else if 0 <= i < ls.len() {
        lemma_rule_index_from_names_exactly(ls, name, i + 1, n);
    }
}

/// The index found for a rule name comes from a line of the output that holds
/// `.name='<name>'` with the closing quote (the quoted name value there is the name
/// itself, not a longer name that begins with it), and the number between `@rule[` and
/// `]` on that line is the index.
pub proof fn lemma_found_index_names_the_rule_exactly(output: Seq<char>, name: Seq<char>, n: usize)
    requires
        rule_index_of(output, name) == Ok::<usize, AppErrorView>(n),
    ensures
        exists|k: int, a: int, b: int|
            0 <= k < lines(output).len() && 0 <= a <= b <= lines(output)[k].len()
                && #[trigger] lines(output)[k].subrange(a, b) == ".name='"@ + name + "'"@
                && index_text(lines(output)[k]) is Some && parse_unsigned(
                index_text(lines(output)[k])->0,
                usize::MAX as nat,
            ) == Some(n as nat),
{
    lemma_rule_index_from_names_exactly(lines(output), name, 0, n);
}

/// A search for the rule `name` from line `i` that ends in "not found" passed no line
/// that holds `.name='<name>'` and an index text.
proof fn lemma_rule_index_from_not_found(ls: Seq<Seq<char>>, name: Seq<char>, i: int)
    requires
        0 <= i,
        rule_index_from(ls, name, i) == Err::<usize, AppErrorView>(
            AppErrorView::Firewall("Rule '"@ + name + "' not found"@),
        ),
    ensures
        forall|k: int, a: int, b: int|
            i <= k < ls.len() && 0 <= a <= b <= ls[k].len() && #[trigger] ls[k].subrange(a, b)
                == ".name='"@ + name + "'"@ ==> index_text(ls[k]) is None,
    decreases ls.len() - i,
{
    if i < ls.len() {
        if contains(ls[i], name_marker(name)) && index_text(ls[i]) is Some {
            let m1 = "Rule '"@ + name + "' not found"@;
            let m2 = "Cannot parse rule index for '"@ + name + "'"@;
            reveal_strlit("Rule '");
            reveal_strlit("Cannot parse rule index for '");
            assert(m1[0] == "Rule '"@[0]);
            assert(m2[0] == "Cannot parse rule index for '"@[0]);
            assert(m1 != m2);
        } else {
            lemma_rule_index_from_not_found(ls, name, i + 1);
            assert forall|a: int, b: int|
                0 <= a <= b <= ls[i].len() && #[trigger] ls[i].subrange(a, b) == ".name='"@ + name
                    + "'"@ implies index_text(ls[i]) is None by {
                assert(crate::text::occurs_at(ls[i], name_marker(name), a));
            }
        }
    }
}

/// A rule name is reported not found only when no line of the output holds
/// `.name='<name>'` together with an `@rule[...]` index.
pub proof fn lemma_not_found_means_no_named_line(output: Seq<char>, name: Seq<char>)
    requires
        rule_index_of(output, name) == Err::<usize, AppErrorView>(
            AppErrorView::Firewall("Rule '"@ + name + "' not found"@),
        ),
    ensures
        forall|k: int, a: int, b: int|
            0 <= k < lines(output).len() && 0 <= a <= b <= lines(output)[k].len()
                && #[trigger] lines(output)[k].subrange(a, b) == ".name='"@ + name + "'"@
                ==> index_text(lines(output)[k]) is None,
{
    lemma_rule_index_from_not_found(lines(output), name, 0);
}

} // verus!
