use vstd::prelude::*;
use crate::config::{is_disabled, ConfigView, LinterConfig};
use crate::issue::{issues_view, IssueView, LintIssue};
use crate::parse::{parsed_tree, GdParser};
use crate::registry::{registry, rule_name, rule_output, Rule};
use crate::rules::append_issues;
use crate::suppression::{is_suppressed, parse_suppressions, suppressions_of, unsuppressed, SuppressionMap};
use crate::tree::{tree_wf, SyntaxTree, TreeView};

verus! {

/// `a` comes no later than `b`: by line, then by column.
pub open spec fn in_order(a: IssueView, b: IssueView) -> bool {
    a.line < b.line || (a.line == b.line && a.column <= b.column)
}

/// Every issue of `s` comes no later than the next one.
pub open spec fn is_ordered(s: Seq<IssueView>) -> bool {
    forall|i: int| 0 <= i < s.len() - 1 ==> in_order(#[trigger] s[i], s[i + 1])
}

/// Where `x` goes among the first `n` issues of the ordered `s`: after every
/// issue that does not come later than it.
pub open spec fn insert_pos(s: Seq<IssueView>, x: IssueView, n: int) -> int
    decreases n,
{
    if n <= 0 {
        0
    } else if in_order(s[n - 1], x) {
        n
    } else {
        insert_pos(s, x, n - 1)
    }
}

/// The ordered `s` with `x` put in its place, after its equals.
pub open spec fn insert_in_order(s: Seq<IssueView>, x: IssueView) -> Seq<IssueView> {
    s.insert(insert_pos(s, x, s.len() as int), x)
}

/// The first `n` issues of `v` ordered by position, issues at the same position
/// keeping the order they came in.
pub open spec fn sort_upto(v: Seq<IssueView>, n: int) -> Seq<IssueView>
    decreases n,
{
    if n <= 0 || n > v.len() {
        seq![]
    } else {
        insert_in_order(sort_upto(v, n - 1), v[n - 1])
    }
}

/// `v` ordered by position, issues at the same position keeping their order.
pub open spec fn sort_by_position(v: Seq<IssueView>) -> Seq<IssueView> {
    sort_upto(v, v.len() as int)
}

/// What the enabled rules among the first `n` of `rules` report, in that order.
pub open spec fn enabled_output(
    rules: Seq<Rule>,
    c: ConfigView,
    t: TreeView,
    s: Seq<char>,
    n: int,
) -> Seq<IssueView>
    decreases n,
{
    if n <= 0 || n > rules.len() {
        seq![]
    } else {
        enabled_output(rules, c, t, s, n - 1) + if is_disabled(c, rule_name(rules[n - 1])) {
            seq![]
        } else {
            rule_output(rules[n - 1], t, s, c.max_line_length)
        }
    }
}

/// What every enabled rule reports, in catalogue order, before suppression.
pub open spec fn raw_issues(t: TreeView, s: Seq<char>, c: ConfigView) -> Seq<IssueView> {
    enabled_output(registry(), c, t, s, registry().len() as int)
}

/// The result of a lint pass over the tree `t` of the source text `s`.
pub open spec fn lint_model(t: TreeView, s: Seq<char>, c: ConfigView) -> Seq<IssueView> {
    let raw = raw_issues(t, s, c);
    sort_by_position(unsuppressed(raw, suppressions_of(s), raw.len() as int))
}

/// The issues of `issues` that `map` does not switch off, in order.
pub fn remove_suppressed(issues: Vec<LintIssue>, map: &SuppressionMap) -> (r: Vec<LintIssue>)
    ensures
        issues_view(r@) == unsuppressed(issues_view(issues@), map@, issues@.len() as int),
{
    let ghost all = issues_view(issues@);
    let ghost n = issues@.len();
    let mut out: Vec<LintIssue> = Vec::new();
    assert(issues_view(out@) =~= Seq::<IssueView>::empty());
    for x in it: issues.into_iter()
        invariant
            it.seq() == issues@,
            all == issues_view(issues@),
            n == issues@.len(),
            issues_view(out@) == unsuppressed(all, map@, it.index() as int),
    {
        let ghost k = it.index();
        assert(all[k] == x@);
        if !suppressed_by(map, &x) {
            let ghost prev = out@;
            out.push(x);
            assert(issues_view(out@) =~= issues_view(prev).push(all[k]));
        }
    }
    out
}

/// Whether `map` switches the issue `x` off.
pub fn suppressed_by(map: &SuppressionMap, x: &LintIssue) -> (r: bool)
    ensures
        r == is_suppressed(map@, x.line, x.rule@),
{
    let rule = crate::text::chars_of(x.rule.as_str());
    let mut k: usize = 0;
    while k < map.entries.len()
        invariant
            k <= map.entries@.len(),
            rule@ == x.rule@,
            forall|m: int|
                0 <= m < k ==> !((#[trigger] map@[m]).line == x.line as int && (map@[m].all
                    || map@[m].rules.contains(x.rule@))),
        decreases map.entries.len() - k,
    {
        let e = &map.entries[k];
        assert(map@[k as int] == e@);
        if e.line == x.line as u128 {
            if e.all {
                return true;
            }
            let mut j: usize = 0;
            while j < e.rules.len()
                invariant
                    j <= e.rules@.len(),
                    k < map.entries@.len(),
                    map@[k as int] == e@,
                    e.line == x.line as u128,
                    rule@ == x.rule@,
                    forall|q: int| 0 <= q < j ==> e@.rules[q] != x.rule@,
                decreases e.rules.len() - j,
            {
                assert(e@.rules[j as int] == e.rules@[j as int]@);
                if crate::text::chars_eq(&e.rules[j], &rule) {
                    assert(map@[k as int].rules[j as int] == x.rule@);
                    assert(map@[k as int].rules.contains(x.rule@));
                    return true;
                }
                j = j + 1;
            }
        }
        k = k + 1;
    }
    false
}

/// Puts `x` into the ordered `out`, after every issue that does not come later.
fn insert_in_place(out: &mut Vec<LintIssue>, x: LintIssue)
    ensures
        issues_view(final(out)@) == insert_in_order(issues_view(old(out)@), x@),
{
    let ghost s = issues_view(out@);
    let mut p = out.len();
    while p > 0 && !(out[p - 1].line < x.line || (out[p - 1].line == x.line && out[p - 1].column
        <= x.column))
        invariant
            p <= out@.len(),
            s == issues_view(out@),
            insert_pos(s, x@, s.len() as int) == insert_pos(s, x@, p as int),
        decreases p,
    {
        p = p - 1;
    }
    out.insert(p, x);
    assert(issues_view(out@) =~= s.insert(p as int, x@));
}

/// The issues ordered by line, then column; issues at the same position keep
/// the order they came in.
pub fn sort_issues(issues: Vec<LintIssue>) -> (r: Vec<LintIssue>)
    ensures
        issues_view(r@) == sort_by_position(issues_view(issues@)),
{
    let ghost all = issues_view(issues@);
    let mut out: Vec<LintIssue> = Vec::new();
    assert(issues_view(out@) =~= Seq::<IssueView>::empty());
    for x in it: issues.into_iter()
        invariant
            it.seq() == issues@,
            all == issues_view(issues@),
            issues_view(out@) == sort_upto(all, it.index() as int),
    {
        let ghost k = it.index();
        assert(all[k] == x@);
        insert_in_place(&mut out, x);
    }
    out
}

/// A lint pass over a parsed tree and the source text it was parsed from: every
/// enabled rule in catalogue order, then the suppression comments, then the
/// order by position.
pub fn lint_tree(tree: &SyntaxTree, source: &str, config: &LinterConfig) -> (r: Vec<LintIssue>)
    requires
        tree_wf(tree@),
    ensures
        issues_view(r@) == lint_model(tree@, source@, config@),
        is_ordered(issues_view(r@)),
        forall|k: int| 0 <= k < r@.len() ==> !is_disabled(config@, (#[trigger] r@[k]).rule@),
        forall|k: int|
            0 <= k < r@.len() ==> !is_suppressed(
                suppressions_of(source@),
                (#[trigger] r@[k]).line,
                r@[k].rule@,
            ),
{
    let rules = Rule::all();
    let mut raw: Vec<LintIssue> = Vec::new();
    assert(issues_view(raw@) =~= Seq::<IssueView>::empty());
    let mut k: usize = 0;
    while k < rules.len()
        invariant
            tree_wf(tree@),
            rules@ == registry(),
            k <= rules@.len(),
            issues_view(raw@) == enabled_output(registry(), config@, tree@, source@, k as int),
        decreases rules.len() - k,
    {
        let r = rules[k];
        if !config.disables(r.name()) {
            append_issues(&mut raw, r.check(tree, source, config));
        }
        k = k + 1;
    }
    let map = parse_suppressions(source);
    let kept = remove_suppressed(raw, &map);
    let out = sort_issues(kept);
    proof {
        let m = lint_model(tree@, source@, config@);
        crate::laws::lemma_lint_is_ordered(tree@, source@, config@);
        crate::laws::lemma_suppressed_issues_are_dropped(tree@, source@, config@);
        assert forall|k: int| 0 <= k < out@.len() implies !is_disabled(config@, (#[trigger] out@[k]).rule@) by {
            assert(m[k] == out@[k]@);
            if is_disabled(config@, out@[k].rule@) {
                crate::laws::lemma_disabled_rule_reports_nothing(tree@, source@, config@, out@[k].rule@);
            }
        }
        assert forall|k: int| 0 <= k < out@.len() implies !is_suppressed(
            suppressions_of(source@),
            (#[trigger] out@[k]).line,
            out@[k].rule@,
        ) by {
            assert(m[k] == out@[k]@);
        }
    }
    out
}

/// Parses `source` with `parser` and runs a lint pass over the result.
fn lint_with(parser: &mut GdParser, source: &str, config: &LinterConfig) -> (r: Vec<LintIssue>)
    ensures
        issues_view(r@) == lint_model(parsed_tree(source@), source@, config@),
        is_ordered(issues_view(r@)),
        forall|k: int| 0 <= k < r@.len() ==> !is_disabled(config@, (#[trigger] r@[k]).rule@),
{
    let tree = parser.parse(source);
    lint_tree(&tree, source, config)
}

/// A GDScript parser paired with the configuration of the passes it runs.
pub struct GDScriptLinter {
    config: LinterConfig,
    parser: GdParser,
}

impl GDScriptLinter {
    /// The configuration of the linter.
    pub closed spec fn config_view(&self) -> ConfigView {
        self.config@
    }

    /// A linter with the given configuration.
    pub fn new(config: LinterConfig) -> (r: Result<Self, String>)
        ensures
            r is Ok,
            r->Ok_0.config_view() == config@,
    {
        Ok(GDScriptLinter { config, parser: GdParser::new() })
    }

    /// One lint pass over `source`: exactly the pass over the tree that the
    /// GDScript grammar gives for it. The file path is not used.
    pub fn lint(&mut self, source: &str, file_path: &str) -> (r: Result<Vec<LintIssue>, String>)
        ensures
            final(self).config_view() == old(self).config_view(),
            r is Ok,
            issues_view(r->Ok_0@) == lint_model(
                parsed_tree(source@),
                source@,
                old(self).config_view(),
            ),
            is_ordered(issues_view(r->Ok_0@)),
            forall|k: int|
                0 <= k < r->Ok_0@.len() ==> !is_disabled(
                    old(self).config_view(),
                    (#[trigger] r->Ok_0@[k]).rule@,
                ),
    {
        Ok(lint_with(&mut self.parser, source, &self.config))
    }
}

/// One lint pass over `source` with the configuration `config`.
pub fn lint_gdscript_with_config(source: &str, file_path: &str, config: &LinterConfig) -> (r:
    Result<Vec<LintIssue>, String>)
    ensures
        r is Ok,
        issues_view(r->Ok_0@) == lint_model(parsed_tree(source@), source@, config@),
        is_ordered(issues_view(r->Ok_0@)),
        forall|k: int|
            0 <= k < r->Ok_0@.len() ==> !is_disabled(config@, (#[trigger] r->Ok_0@[k]).rule@),
{
    let mut parser = GdParser::new();
    Ok(lint_with(&mut parser, source, config))
}

/// The configuration with every rule on and lines of up to 100 columns.
pub open spec fn default_config() -> ConfigView {
    ConfigView { disabled_rules: seq![], max_line_length: 100 }
}

/// One lint pass over `source` with every rule on and lines of up to 100 columns.
pub fn lint_gdscript(source: &str, file_path: &str) -> (r: Result<Vec<LintIssue>, String>)
    ensures
        r is Ok,
        issues_view(r->Ok_0@) == lint_model(parsed_tree(source@), source@, default_config()),
        is_ordered(issues_view(r->Ok_0@)),
{
    let config = LinterConfig::default();
    assert(config@.disabled_rules =~= Seq::<Seq<char>>::empty());
    lint_gdscript_with_config(source, file_path, &config)
}

} // verus!
