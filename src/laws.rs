//! Properties of a lint pass, proved over the models of the modules above.

use vstd::prelude::*;
use crate::config::{is_disabled, ConfigView};
use crate::issue::IssueView;
use crate::linter::{
    enabled_output, in_order, insert_in_order, insert_pos, is_ordered, lint_model, raw_issues,
    sort_upto,
};
use crate::registry::{node_rule_at, node_rule_upto, registry, rule_name, rule_output, Rule};
use crate::suppression::{is_suppressed, suppressions_of, unsuppressed, SuppressionView};
use crate::tree::TreeView;
use crate::parse::parsed_tree;
use crate::rules::{
    class_name, duplicated_load, enum_member_name, function_argument_name, max_line_length,
    no_else_return, unnecessary_pass, unused_argument,
};

verus! {

/// Every issue of `s` satisfies `p`.
pub open spec fn all_satisfy(s: Seq<IssueView>, p: spec_fn(IssueView) -> bool) -> bool {
    forall|k: int| 0 <= k < s.len() ==> p(#[trigger] s[k])
}

proof fn lemma_insert_pos(s: Seq<IssueView>, x: IssueView, n: int)
    requires
        0 <= n <= s.len(),
    ensures
        0 <= insert_pos(s, x, n) <= n,
        insert_pos(s, x, n) > 0 ==> in_order(s[insert_pos(s, x, n) - 1], x),
        forall|j: int| insert_pos(s, x, n) <= j < n ==> !in_order(#[trigger] s[j], x),
    decreases n,
{
    if n > 0 && !in_order(s[n - 1], x) {
        lemma_insert_pos(s, x, n - 1);
    }
}

proof fn lemma_insert_keeps_order(s: Seq<IssueView>, x: IssueView)
    requires
        is_ordered(s),
    ensures
        is_ordered(insert_in_order(s, x)),
        insert_in_order(s, x).len() == s.len() + 1,
{
    let p = insert_pos(s, x, s.len() as int);
    lemma_insert_pos(s, x, s.len() as int);
    let r = insert_in_order(s, x);
    assert forall|i: int| 0 <= i < r.len() - 1 implies in_order(#[trigger] r[i], r[i + 1]) by {
        if i + 1 < p {
            assert(r[i] == s[i] && r[i + 1] == s[i + 1]);
        } else if i + 1 == p {
            assert(r[i] == s[i] && r[i + 1] == x);
        } else if i == p {
            assert(r[i] == x && r[i + 1] == s[i]);
        } else {
            assert(r[i] == s[i - 1] && r[i + 1] == s[i]);
        }
    }
}

proof fn lemma_sort_upto(v: Seq<IssueView>, n: int, p: spec_fn(IssueView) -> bool)
    requires
        0 <= n <= v.len(),
    ensures
        is_ordered(sort_upto(v, n)),
        sort_upto(v, n).len() == n,
        all_satisfy(v, p) ==> all_satisfy(sort_upto(v, n), p),
    decreases n,
{
    if n > 0 {
        lemma_sort_upto(v, n - 1, p);
        let s = sort_upto(v, n - 1);
        lemma_insert_keeps_order(s, v[n - 1]);
        lemma_insert_pos(s, v[n - 1], s.len() as int);
        let q = insert_pos(s, v[n - 1], s.len() as int);
        if all_satisfy(v, p) {
            let r = sort_upto(v, n);
            assert forall|k: int| 0 <= k < r.len() implies p(#[trigger] r[k]) by {
                if k < q {
                    assert(r[k] == s[k]);
                } else if k > q {
                    assert(r[k] == s[k - 1]);
                }
            }
        }
    }
}

/// Ordering: the result of a lint pass is ordered by line, then column.
pub proof fn lemma_lint_is_ordered(t: TreeView, s: Seq<char>, c: ConfigView)
    ensures
        is_ordered(lint_model(t, s, c)),
{
    let raw = raw_issues(t, s, c);
    let kept = unsuppressed(raw, suppressions_of(s), raw.len() as int);
    lemma_sort_upto(kept, kept.len() as int, |x: IssueView| true);
}

/// Determinism: two lint passes over the same source text and configuration
/// give the same issues in the same order. Both are the pass over the tree
/// that the GDScript grammar gives for the text, as the contracts of `lint`,
/// `lint_gdscript` and `lint_gdscript_with_config` state.
pub proof fn lemma_lint_is_deterministic(
    s: Seq<char>,
    c: ConfigView,
    first: Seq<IssueView>,
    second: Seq<IssueView>,
)
    requires
        first == lint_model(parsed_tree(s), s, c),
        second == lint_model(parsed_tree(s), s, c),
    ensures
        first == second,
        first.len() == second.len(),
        forall|k: int| 0 <= k < first.len() ==> #[trigger] first[k] == second[k],
{
}

/// Every issue of `s` belongs to the rule `id`.
pub open spec fn all_of_rule(s: Seq<IssueView>, id: Seq<char>) -> bool {
    forall|k: int| 0 <= k < s.len() ==> (#[trigger] s[k]).rule == id
}

proof fn lemma_concat_of_rule(a: Seq<IssueView>, b: Seq<IssueView>, id: Seq<char>)
    requires
        all_of_rule(a, id),
        all_of_rule(b, id),
    ensures
        all_of_rule(a + b, id),
{
    assert forall|k: int| 0 <= k < (a + b).len() implies (#[trigger] (a + b)[k]).rule == id by {
        if k < a.len() {
            assert((a + b)[k] == a[k]);
        } else {
            assert((a + b)[k] == b[k - a.len()]);
        }
    }
}

proof fn lemma_clause_scan_rule(t: TreeView, kids: Seq<int>, k: int, all_return: bool)
    ensures
        all_of_rule(no_else_return::clause_scan(t, kids, k, all_return), no_else_return::rule_id()),
    decreases kids.len() - k,
{
    if k < kids.len() && k >= 0 {
        let c = kids[k];
        let next = if t[c].kind == "elif_clause"@ {
            all_return && no_else_return::branch_returns(t, c)
        } else {
            all_return
        };
        lemma_clause_scan_rule(t, kids, k + 1, next);
        let whole = no_else_return::clause_scan(t, kids, k, all_return);
        let rest = no_else_return::clause_scan(t, kids, k + 1, next);
        lemma_concat_of_rule(whole.take(whole.len() - rest.len()), rest, no_else_return::rule_id());
        assert(whole =~= whole.take(whole.len() - rest.len()) + rest);
    }
}

proof fn lemma_param_scan_rule(t: TreeView, kids: Seq<int>, k: int, b: int)
    ensures
        all_of_rule(unused_argument::param_scan(t, kids, k, b), unused_argument::rule_id()),
    decreases kids.len() - k,
{
    if k < kids.len() && k >= 0 {
        lemma_param_scan_rule(t, kids, k + 1, b);
        let whole = unused_argument::param_scan(t, kids, k, b);
        let rest = unused_argument::param_scan(t, kids, k + 1, b);
        lemma_concat_of_rule(whole.take(whole.len() - rest.len()), rest, unused_argument::rule_id());
        assert(whole =~= whole.take(whole.len() - rest.len()) + rest);
    }
}

proof fn lemma_argument_scan_rule(t: TreeView, kids: Seq<int>, k: int)
    ensures
        all_of_rule(function_argument_name::argument_scan(t, kids, k), function_argument_name::rule_id()),
    decreases kids.len() - k,
{
    if k < kids.len() && k >= 0 {
        lemma_argument_scan_rule(t, kids, k + 1);
        let whole = function_argument_name::argument_scan(t, kids, k);
        let rest = function_argument_name::argument_scan(t, kids, k + 1);
        lemma_concat_of_rule(whole.take(whole.len() - rest.len()), rest, function_argument_name::rule_id());
        assert(whole =~= whole.take(whole.len() - rest.len()) + rest);
    }
}

proof fn lemma_member_scan_rule(t: TreeView, kids: Seq<int>, k: int)
    ensures
        all_of_rule(enum_member_name::member_scan(t, kids, k), enum_member_name::rule_id()),
    decreases kids.len() - k,
{
    if k < kids.len() && k >= 0 {
        lemma_member_scan_rule(t, kids, k + 1);
        let whole = enum_member_name::member_scan(t, kids, k);
        let rest = enum_member_name::member_scan(t, kids, k + 1);
        lemma_concat_of_rule(whole.take(whole.len() - rest.len()), rest, enum_member_name::rule_id());
        assert(whole =~= whole.take(whole.len() - rest.len()) + rest);
    }
}

proof fn lemma_pass_scan_rule(t: TreeView, kids: Seq<int>, k: int)
    ensures
        all_of_rule(unnecessary_pass::pass_scan(t, kids, k), unnecessary_pass::rule_id()),
    decreases kids.len() - k,
{
    if k < kids.len() && k >= 0 {
        lemma_pass_scan_rule(t, kids, k + 1);
        let whole = unnecessary_pass::pass_scan(t, kids, k);
        let rest = unnecessary_pass::pass_scan(t, kids, k + 1);
        lemma_concat_of_rule(whole.take(whole.len() - rest.len()), rest, unnecessary_pass::rule_id());
        assert(whole =~= whole.take(whole.len() - rest.len()) + rest);
    }
}

proof fn lemma_name_scan_rule(t: TreeView, kids: Seq<int>, k: int)
    ensures
        all_of_rule(class_name::name_scan(t, kids, k), class_name::rule_id()),
    decreases kids.len() - k,
{
    if k < kids.len() && k >= 0 {
        lemma_name_scan_rule(t, kids, k + 1);
        let whole = class_name::name_scan(t, kids, k);
        let rest = class_name::name_scan(t, kids, k + 1);
        lemma_concat_of_rule(whole.take(whole.len() - rest.len()), rest, class_name::rule_id());
        assert(whole =~= whole.take(whole.len() - rest.len()) + rest);
    }
}

proof fn lemma_duplicate_scan_rule(t: TreeView, kids: Seq<int>, k: int)
    ensures
        all_of_rule(duplicated_load::duplicate_scan(t, kids, k), duplicated_load::rule_id()),
    decreases kids.len() - k,
{
    if k < kids.len() && k >= 0 {
        lemma_duplicate_scan_rule(t, kids, k + 1);
        let whole = duplicated_load::duplicate_scan(t, kids, k);
        let rest = duplicated_load::duplicate_scan(t, kids, k + 1);
        lemma_concat_of_rule(whole.take(whole.len() - rest.len()), rest, duplicated_load::rule_id());
        assert(whole =~= whole.take(whole.len() - rest.len()) + rest);
    }
}

proof fn lemma_long_lines_rule(s: Seq<char>, start: int, line: int, max: usize)
    ensures
        all_of_rule(max_line_length::long_lines(s, start, line, max), max_line_length::rule_id()),
    decreases s.len() - start,
{
    let e = crate::text::next_break(s, start);
    if !(start >= s.len() || start < 0 || e < start) && e < s.len() {
        lemma_long_lines_rule(s, e + 1, line + 1, max);
        let whole = max_line_length::long_lines(s, start, line, max);
        let rest = max_line_length::long_lines(s, e + 1, line + 1, max);
        lemma_concat_of_rule(whole.take(whole.len() - rest.len()), rest, max_line_length::rule_id());
        assert(whole =~= whole.take(whole.len() - rest.len()) + rest);
    }
}

proof fn lemma_node_rule_at_rule(r: Rule, t: TreeView, i: int)
    ensures
        all_of_rule(node_rule_at(r, t, i), rule_name(r)),
{
    match r {
        Rule::UnnecessaryPass => {
            lemma_pass_scan_rule(t, crate::tree::children(t, i), 0);
        },
        Rule::UnusedArgument => {
            match (
                crate::tree::field_child(t, i, "parameters"@),
                crate::tree::field_child(t, i, "body"@),
            ) {
                (Some(ps), Some(b)) => lemma_param_scan_rule(t, crate::tree::children(t, ps), 0, b),
                _ => {},
            }
        },
        Rule::NoElseReturn => {
            lemma_clause_scan_rule(
                t,
                crate::tree::children(t, i),
                0,
                no_else_return::branch_returns(t, i),
            );
        },
        Rule::ClassName => {
            lemma_name_scan_rule(t, crate::tree::children(t, i), 0);
        },
        Rule::FunctionArgumentName => {
            match crate::tree::field_child(t, i, "parameters"@) {
                Some(ps) => lemma_argument_scan_rule(t, crate::tree::children(t, ps), 0),
                None => {},
            }
        },
        Rule::EnumMemberName => {
            match crate::tree::field_child(t, i, "body"@) {
                Some(b) => lemma_member_scan_rule(t, crate::tree::children(t, b), 0),
                None => {},
            }
        },
        _ => {},
    }
}

proof fn lemma_node_rule_upto_rule(r: Rule, t: TreeView, n: int)
    ensures
        all_of_rule(node_rule_upto(r, t, n), rule_name(r)),
    decreases n,
{
    if n > 0 {
        lemma_node_rule_upto_rule(r, t, n - 1);
        lemma_node_rule_at_rule(r, t, n - 1);
        lemma_concat_of_rule(node_rule_upto(r, t, n - 1), node_rule_at(r, t, n - 1), rule_name(r));
    }
}

/// Every issue that rule `r` reports carries the identifier of `r`.
pub proof fn lemma_rule_output_rule(r: Rule, t: TreeView, s: Seq<char>, max: usize)
    ensures
        all_of_rule(rule_output(r, t, s, max), rule_name(r)),
{
    match r {
        Rule::DuplicatedLoad => lemma_duplicate_scan_rule(t, duplicated_load::load_sites(t), 0),
        Rule::MaxLineLength => lemma_long_lines_rule(s, 0, 0, max),
        _ => lemma_node_rule_upto_rule(r, t, t.len() as int),
    }
}

proof fn lemma_enabled_output_enabled(rules: Seq<Rule>, c: ConfigView, t: TreeView, s: Seq<char>, n: int)
    ensures
        forall|k: int|
            0 <= k < enabled_output(rules, c, t, s, n).len() ==> !is_disabled(
                c,
                (#[trigger] enabled_output(rules, c, t, s, n)[k]).rule,
            ),
    decreases n,
{
    if n > 0 && n <= rules.len() {
        lemma_enabled_output_enabled(rules, c, t, s, n - 1);
        let prev = enabled_output(rules, c, t, s, n - 1);
        let r = rules[n - 1];
        let more = if is_disabled(c, rule_name(r)) {
            seq![]
        } else {
            rule_output(r, t, s, c.max_line_length)
        };
        lemma_rule_output_rule(r, t, s, c.max_line_length);
        let all = enabled_output(rules, c, t, s, n);
        assert(all == prev + more);
        assert forall|k: int| 0 <= k < all.len() implies !is_disabled(c, (#[trigger] all[k]).rule) by {
            if k < prev.len() {
                assert(all[k] == prev[k]);
            } else {
                assert(all[k] == more[k - prev.len()]);
            }
        }
    }
}

proof fn lemma_unsuppressed_keeps(
    v: Seq<IssueView>,
    m: Seq<SuppressionView>,
    n: int,
    p: spec_fn(IssueView) -> bool,
)
    ensures
        all_satisfy(v, p) ==> all_satisfy(unsuppressed(v, m, n), p),
        all_satisfy(unsuppressed(v, m, n), |x: IssueView| !is_suppressed(m, x.line, x.rule)),
    decreases n,
{
    if n > 0 && n <= v.len() {
        lemma_unsuppressed_keeps(v, m, n - 1, p);
        let prev = unsuppressed(v, m, n - 1);
        let all = unsuppressed(v, m, n);
        assert forall|k: int| 0 <= k < all.len() implies (all_satisfy(v, p) ==> p(#[trigger] all[k]))
            && !is_suppressed(m, all[k].line, all[k].rule) by {
            if k < prev.len() {
                assert(all[k] == prev[k]);
            } else {
                assert(all[k] == v[n - 1]);
            }
        }
    }
}

/// Disable completeness: a pass reports no issue of a rule that the
/// configuration switches off.
pub proof fn lemma_disabled_rule_reports_nothing(t: TreeView, s: Seq<char>, c: ConfigView, id: Seq<char>)
    requires
        is_disabled(c, id),
    ensures
        forall|k: int|
            0 <= k < lint_model(t, s, c).len() ==> (#[trigger] lint_model(t, s, c)[k]).rule != id,
{
    let raw = raw_issues(t, s, c);
    let m = suppressions_of(s);
    let kept = unsuppressed(raw, m, raw.len() as int);
    let p = |x: IssueView| !is_disabled(c, x.rule);
    lemma_enabled_output_enabled(registry(), c, t, s, registry().len() as int);
    assert(all_satisfy(raw, p));
    lemma_unsuppressed_keeps(raw, m, raw.len() as int, p);
    lemma_sort_upto(kept, kept.len() as int, p);
    let out = lint_model(t, s, c);
    assert forall|k: int| 0 <= k < out.len() implies (#[trigger] out[k]).rule != id by {
        assert(p(out[k]));
    }
}

/// No issue that a suppression comment of the source switches off is left in
/// the result of a pass.
pub proof fn lemma_suppressed_issues_are_dropped(t: TreeView, s: Seq<char>, c: ConfigView)
    ensures
        forall|k: int|
            0 <= k < lint_model(t, s, c).len() ==> !is_suppressed(
                suppressions_of(s),
                (#[trigger] lint_model(t, s, c)[k]).line,
                lint_model(t, s, c)[k].rule,
            ),
{
    let raw = raw_issues(t, s, c);
    let m = suppressions_of(s);
    let kept = unsuppressed(raw, m, raw.len() as int);
    let p = |x: IssueView| !is_suppressed(m, x.line, x.rule);
    lemma_unsuppressed_keeps(raw, m, raw.len() as int, p);
    lemma_sort_upto(kept, kept.len() as int, p);
    let out = lint_model(t, s, c);
    assert forall|k: int| 0 <= k < out.len() implies !is_suppressed(m, (#[trigger] out[k]).line, out[k].rule) by {
        assert(p(out[k]));
    }
}

/// The suppression of rule `rule` on line `line` alone.
pub open spec fn single_suppression(line: usize, rule: Seq<char>) -> Seq<SuppressionView> {
    seq![SuppressionView { line: line as int, all: false, rules: seq![rule] }]
}

proof fn lemma_single_suppression_upto(v: Seq<IssueView>, line: usize, rule: Seq<char>, n: int)
    requires
        0 <= n <= v.len(),
    ensures
        unsuppressed(v, single_suppression(line, rule), n) == v.take(n).filter(
            |x: IssueView| !(x.line == line && x.rule == rule),
        ),
    decreases n,
{
    reveal(Seq::filter);
    let m = single_suppression(line, rule);
    let pred = |x: IssueView| !(x.line == line && x.rule == rule);
    if n == 0 {
        assert(v.take(0) =~= Seq::<IssueView>::empty());
    } else {
        lemma_single_suppression_upto(v, line, rule, n - 1);
        assert(v.take(n).drop_last() =~= v.take(n - 1));
        assert(v.take(n).last() == v[n - 1]);
        let x = v[n - 1];
        if x.line == line && x.rule == rule {
            assert(m[0].rules[0] == rule);
            assert(m[0].rules.contains(x.rule));
            assert(is_suppressed(m, x.line, x.rule));
        } else {
            if is_suppressed(m, x.line, x.rule) {
                let k = choose|k: int| 0 <= k < m.len() && (#[trigger] m[k]).line == x.line as int
                    && (m[k].all || m[k].rules.contains(x.rule));
                assert(k == 0);
                let j = choose|j: int| 0 <= j < m[0].rules.len() && m[0].rules[j] == x.rule;
                assert(j == 0);
            }
        }
    }
}

/// Suppression precision: a directive that switches off rule `rule` on line
/// `line` removes exactly the issues of that rule on that line, and keeps
/// every other issue in its order.
pub proof fn lemma_suppression_is_precise(v: Seq<IssueView>, line: usize, rule: Seq<char>)
    ensures
        unsuppressed(v, single_suppression(line, rule), v.len() as int) == v.filter(
            |x: IssueView| !(x.line == line && x.rule == rule),
        ),
{
    lemma_single_suppression_upto(v, line, rule, v.len() as int);
    assert(v.take(v.len() as int) =~= v);
}

/// How many issues of `s` carry the message `m`.
pub open spec fn count_message(s: Seq<IssueView>, m: Seq<char>) -> nat
    decreases s.len(),
{
    if s.len() == 0 {
        0
    } else {
        (if s[0].message == m {
            1nat
        } else {
            0nat
        }) + count_message(s.drop_first(), m)
    }
}

proof fn lemma_count_message_concat(a: Seq<IssueView>, b: Seq<IssueView>, m: Seq<char>)
    ensures
        count_message(a + b, m) == count_message(a, m) + count_message(b, m),
    decreases a.len(),
{
    if a.len() > 0 {
        lemma_count_message_concat(a.drop_first(), b, m);
        assert((a + b).drop_first() =~= a.drop_first() + b);
    } else {
        assert(a + b =~= b);
    }
}

proof fn lemma_duplicate_message_injective(a: Seq<char>, b: Seq<char>)
    ensures
        duplicated_load::duplicate_message(a) == duplicated_load::duplicate_message(b) ==> a == b,
{
    let pre = "Duplicated load of '"@;
    let suf = "'. Consider extracting to a constant."@;
    let ma = duplicated_load::duplicate_message(a);
    let mb = duplicated_load::duplicate_message(b);
    if ma == mb {
        assert(ma.len() == pre.len() + a.len() + suf.len());
        assert(mb.len() == pre.len() + b.len() + suf.len());
        assert(a =~= ma.subrange(pre.len() as int, (pre.len() + a.len()) as int));
        assert(b =~= mb.subrange(pre.len() as int, (pre.len() + b.len()) as int));
    }
}

proof fn lemma_duplicate_scan_count(t: TreeView, sites: Seq<int>, p: Seq<char>, k: int)
    requires
        0 <= k <= sites.len(),
    ensures
        count_message(duplicated_load::duplicate_scan(t, sites, k), duplicated_load::duplicate_message(p))
            == if duplicated_load::path_count(t, sites, p, 0) > 1 {
            duplicated_load::path_count(t, sites, p, k)
        } else {
            0
        },
    decreases sites.len() - k,
{
    let m = duplicated_load::duplicate_message(p);
    if k < sites.len() {
        lemma_duplicate_scan_count(t, sites, p, k + 1);
        let site = sites[k];
        let text = t[site].text;
        let first: Seq<IssueView> = if duplicated_load::path_count(t, sites, text, 0) > 1 {
            seq![crate::rules::issue_at(t, site, duplicated_load::rule_id(), crate::issue::LintSeverity::Warning, duplicated_load::duplicate_message(text))]
        } else {
            seq![]
        };
        let rest = duplicated_load::duplicate_scan(t, sites, k + 1);
        assert(duplicated_load::duplicate_scan(t, sites, k) == first + rest);
        lemma_count_message_concat(first, rest, m);
        lemma_duplicate_message_injective(text, p);
        assert(count_message(Seq::<IssueView>::empty(), m) == 0);
        if first.len() > 0 {
            assert(first.drop_first() =~= Seq::<IssueView>::empty());
            assert(count_message(first, m) == if text == p { 1nat } else { 0nat });
        } else {
            assert(count_message(first, m) == 0);
        }
        assert(duplicated_load::path_count(t, sites, p, k) == (if text == p { 1nat } else { 0nat })
            + duplicated_load::path_count(t, sites, p, k + 1));
    } else {
        assert(duplicated_load::duplicate_scan(t, sites, k) =~= Seq::<IssueView>::empty());
    }
}

/// Duplicated-load symmetry: a path that the file hands to `load` or `preload`
/// `n` times draws exactly `n` duplicated-load issues when `n > 1`, and none
/// when it is loaded once.
pub proof fn lemma_duplicated_load_symmetry(t: TreeView, p: Seq<char>)
    ensures
        ({
            let n = duplicated_load::path_count(t, duplicated_load::load_sites(t), p, 0);
            count_message(duplicated_load::duplicated_load_issues(t), duplicated_load::duplicate_message(p))
                == if n > 1 {
                n
            } else {
                0
            }
        }),
{
    lemma_duplicate_scan_count(t, duplicated_load::load_sites(t), p, 0);
}

/// Index `start` of `s` begins a line.
pub open spec fn is_line_start(s: Seq<char>, start: int) -> bool {
    0 <= start < s.len() && (start == 0 || s[start - 1] == '\n')
}

/// The validity condition of rule `r` on the file: no construct of the tree
/// breaks it, no path is loaded twice, no line is wider than `max`.
pub open spec fn rule_holds(r: Rule, t: TreeView, s: Seq<char>, max: usize) -> bool {
    match r {
        Rule::DuplicatedLoad => forall|k: int|
            0 <= k < duplicated_load::load_sites(t).len() ==> duplicated_load::path_count(
                t,
                duplicated_load::load_sites(t),
                t[#[trigger] duplicated_load::load_sites(t)[k]].text,
                0,
            ) <= 1,
        Rule::MaxLineLength => forall|start: int|
            is_line_start(s, start) ==> #[trigger] max_line_length::display_width(
                crate::text::line_at(s, start),
            ) <= max,
        _ => forall|i: int| 0 <= i < t.len() ==> (#[trigger] node_rule_at(r, t, i)).len() == 0,
    }
}

proof fn lemma_next_break(s: Seq<char>, i: int)
    requires
        0 <= i,
    ensures
        i <= crate::text::next_break(s, i) || i > s.len(),
        crate::text::next_break(s, i) <= s.len(),
        crate::text::next_break(s, i) < s.len() ==> s[crate::text::next_break(s, i)] == '\n',
    decreases s.len() - i,
{
    if i < s.len() && s[i] != '\n' {
        lemma_next_break(s, i + 1);
    }
}

proof fn lemma_lines_fit(s: Seq<char>, start: int, line: int, max: usize)
    requires
        start >= s.len() || is_line_start(s, start),
        forall|st: int|
            is_line_start(s, st) ==> #[trigger] max_line_length::display_width(
                crate::text::line_at(s, st),
            ) <= max,
    ensures
        max_line_length::long_lines(s, start, line, max).len() == 0,
    decreases s.len() - start,
{
    if start < s.len() {
        let e = crate::text::next_break(s, start);
        lemma_next_break(s, start);
        if e < s.len() {
            if e + 1 < s.len() {
                assert(is_line_start(s, e + 1));
            }
            lemma_lines_fit(s, e + 1, line + 1, max);
        }
        assert(max_line_length::display_width(crate::text::line_at(s, start)) <= max);
    }
}

proof fn lemma_no_duplicates(t: TreeView, sites: Seq<int>, k: int)
    requires
        forall|j: int| 0 <= j < sites.len() ==> duplicated_load::path_count(
            t,
            sites,
            t[#[trigger] sites[j]].text,
            0,
        ) <= 1,
    ensures
        duplicated_load::duplicate_scan(t, sites, k).len() == 0,
    decreases sites.len() - k,
{
    if k < sites.len() && k >= 0 {
        lemma_no_duplicates(t, sites, k + 1);
        assert(duplicated_load::path_count(t, sites, t[sites[k]].text, 0) <= 1);
    }
}

proof fn lemma_nodes_clean(r: Rule, t: TreeView, n: int)
    requires
        n <= t.len(),
        forall|i: int| 0 <= i < t.len() ==> (#[trigger] node_rule_at(r, t, i)).len() == 0,
    ensures
        node_rule_upto(r, t, n).len() == 0,
    decreases n,
{
    if n > 0 {
        lemma_nodes_clean(r, t, n - 1);
        assert(node_rule_at(r, t, n - 1).len() == 0);
    }
}

proof fn lemma_rule_holds(r: Rule, t: TreeView, s: Seq<char>, max: usize)
    requires
        rule_holds(r, t, s, max),
    ensures
        rule_output(r, t, s, max).len() == 0,
{
    match r {
        Rule::DuplicatedLoad => lemma_no_duplicates(t, duplicated_load::load_sites(t), 0),
        Rule::MaxLineLength => lemma_lines_fit(s, 0, 0, max),
        _ => lemma_nodes_clean(r, t, t.len() as int),
    }
}

proof fn lemma_enabled_clean(rules: Seq<Rule>, c: ConfigView, t: TreeView, s: Seq<char>, n: int)
    requires
        forall|k: int|
            0 <= k < rules.len() && !is_disabled(c, rule_name(#[trigger] rules[k])) ==> rule_holds(
                rules[k],
                t,
                s,
                c.max_line_length,
            ),
    ensures
        enabled_output(rules, c, t, s, n).len() == 0,
    decreases n,
{
    if n > 0 && n <= rules.len() {
        lemma_enabled_clean(rules, c, t, s, n - 1);
        if !is_disabled(c, rule_name(rules[n - 1])) {
            lemma_rule_holds(rules[n - 1], t, s, c.max_line_length);
        }
    }
}

/// No-issue baseline: a file in which every enabled rule's validity condition
/// holds gives an empty result.
pub proof fn lemma_clean_file_has_no_issues(t: TreeView, s: Seq<char>, c: ConfigView)
    requires
        forall|r: Rule|
            !is_disabled(c, rule_name(r)) ==> #[trigger] rule_holds(r, t, s, c.max_line_length),
    ensures
        lint_model(t, s, c).len() == 0,
{
    let rules = registry();
    lemma_enabled_clean(rules, c, t, s, rules.len() as int);
    let raw = raw_issues(t, s, c);
    assert(unsuppressed(raw, suppressions_of(s), raw.len() as int) =~= Seq::<IssueView>::empty());
    lemma_sort_upto(Seq::<IssueView>::empty(), 0, |x: IssueView| true);
}

/// `v` ordered by position, built by putting its last issue in place after
/// ordering the rest.
pub open spec fn sort_seq(v: Seq<IssueView>) -> Seq<IssueView>
    decreases v.len(),
{
    if v.len() == 0 {
        v
    } else {
        insert_in_order(sort_seq(v.drop_last()), v.last())
    }
}

proof fn lemma_sort_upto_is_sort_seq(v: Seq<IssueView>, n: int)
    requires
        0 <= n <= v.len(),
    ensures
        sort_upto(v, n) == sort_seq(v.take(n)),
    decreases n,
{
    if n == 0 {
        assert(v.take(0) =~= Seq::<IssueView>::empty());
    } else {
        lemma_sort_upto_is_sort_seq(v, n - 1);
        assert(v.take(n).drop_last() =~= v.take(n - 1));
    }
}

/// The issue `x` is not switched off by `m`.
pub open spec fn not_suppressed(m: Seq<SuppressionView>) -> spec_fn(IssueView) -> bool {
    |x: IssueView| !is_suppressed(m, x.line, x.rule)
}

proof fn lemma_unsuppressed_is_filter(v: Seq<IssueView>, m: Seq<SuppressionView>, n: int)
    requires
        0 <= n <= v.len(),
    ensures
        unsuppressed(v, m, n) == v.take(n).filter(not_suppressed(m)),
    decreases n,
{
    reveal(Seq::filter);
    if n == 0 {
        assert(v.take(0) =~= Seq::<IssueView>::empty());
    } else {
        lemma_unsuppressed_is_filter(v, m, n - 1);
        assert(v.take(n) =~= v.take(n - 1).push(v[n - 1]));
        v.take(n - 1).lemma_filter_push(v[n - 1], not_suppressed(m));
    }
}

proof fn lemma_filter_commute(v: Seq<IssueView>, p: spec_fn(IssueView) -> bool, q: spec_fn(IssueView) -> bool)
    ensures
        v.filter(p).filter(q) == v.filter(q).filter(p),
    decreases v.len(),
{
    reveal(Seq::filter);
    if v.len() > 0 {
        let w = v.drop_last();
        let x = v.last();
        lemma_filter_commute(w, p, q);
        assert(v =~= w.push(x));
        w.lemma_filter_push(x, p);
        w.lemma_filter_push(x, q);
        w.filter(p).lemma_filter_push(x, q);
        w.filter(q).lemma_filter_push(x, p);
    }
}

proof fn lemma_sort_seq_contains(v: Seq<IssueView>)
    ensures
        forall|k: int| 0 <= k < v.len() ==> sort_seq(v).contains(#[trigger] v[k]),
        sort_seq(v).len() == v.len(),
    decreases v.len(),
{
    if v.len() > 0 {
        let w = v.drop_last();
        lemma_sort_seq_contains(w);
        let s = sort_seq(w);
        let x = v.last();
        let p = insert_pos(s, x, s.len() as int);
        lemma_insert_pos(s, x, s.len() as int);
        let r = sort_seq(v);
        assert(r == s.insert(p, x));
        assert forall|k: int| 0 <= k < v.len() implies r.contains(#[trigger] v[k]) by {
            if k == v.len() - 1 {
                assert(r[p] == x);
            } else {
                assert(w[k] == v[k]);
                assert(s.contains(w[k]));
                let j = choose|j: int| 0 <= j < s.len() && s[j] == w[k];
                if j < p {
                    assert(r[j] == s[j]);
                } else {
                    assert(r[j + 1] == s[j]);
                }
            }
        }
    }
}

/// Nothing is lost in a pass: every issue that an enabled rule reports and
/// that no suppression comment switches off is in the result.
pub proof fn lemma_unsuppressed_issue_is_reported(t: TreeView, s: Seq<char>, c: ConfigView, k: int)
    requires
        0 <= k < raw_issues(t, s, c).len(),
        !is_suppressed(suppressions_of(s), raw_issues(t, s, c)[k].line, raw_issues(t, s, c)[k].rule),
    ensures
        lint_model(t, s, c).contains(raw_issues(t, s, c)[k]),
        lint_model(t, s, c).len() == unsuppressed(
            raw_issues(t, s, c),
            suppressions_of(s),
            raw_issues(t, s, c).len() as int,
        ).len(),
{
    let raw = raw_issues(t, s, c);
    let m = suppressions_of(s);
    let n = raw.len() as int;
    lemma_unsuppressed_is_filter(raw, m, n);
    assert(raw.take(n) =~= raw);
    raw.filter_lemma(not_suppressed(m));
    let kept = unsuppressed(raw, m, n);
    assert(kept.contains(raw[k]));
    let j = choose|j: int| 0 <= j < kept.len() && kept[j] == raw[k];
    lemma_sort_upto_is_sort_seq(kept, kept.len() as int);
    assert(kept.take(kept.len() as int) =~= kept);
    lemma_sort_seq_contains(kept);
    assert(sort_seq(kept).contains(kept[j]));
}

proof fn lemma_ordered_pairs(s: Seq<IssueView>, i: int, j: int)
    requires
        is_ordered(s),
        0 <= i <= j < s.len(),
    ensures
        in_order(s[i], s[j]),
    decreases j - i,
{
    if i < j {
        lemma_ordered_pairs(s, i, j - 1);
        assert(in_order(s[j - 1], s[j]));
    }
}

proof fn lemma_insert_pos_at(u: Seq<IssueView>, x: IssueView, a: int, n: int)
    requires
        0 <= a <= n <= u.len(),
        forall|k: int| a <= k < u.len() ==> !in_order(#[trigger] u[k], x),
        a > 0 ==> in_order(u[a - 1], x),
    ensures
        insert_pos(u, x, n) == a,
    decreases n - a,
{
    if n > a {
        lemma_insert_pos_at(u, x, a, n - 1);
    }
}

proof fn lemma_filter_of_one(x: IssueView, p: spec_fn(IssueView) -> bool)
    ensures
        seq![x].filter(p) == if p(x) {
            seq![x]
        } else {
            Seq::<IssueView>::empty()
        },
{
    reveal(Seq::filter);
    let e = Seq::<IssueView>::empty();
    assert(seq![x] =~= e.push(x));
    assert(e.filter(p) =~= e);
    e.lemma_filter_push(x, p);
}

#[verifier::spinoff_prover]
#[verifier::rlimit(50)]
proof fn lemma_insert_then_filter(s: Seq<IssueView>, x: IssueView, p: spec_fn(IssueView) -> bool)
    requires
        is_ordered(s),
    ensures
        insert_in_order(s, x).filter(p) == if p(x) {
            insert_in_order(s.filter(p), x)
        } else {
            s.filter(p)
        },
{
    let q = insert_pos(s, x, s.len() as int);
    lemma_insert_pos(s, x, s.len() as int);
    let a = s.take(q);
    let b = s.skip(q);
    assert(s =~= a + b);
    assert(insert_in_order(s, x) =~= a + seq![x] + b);
    Seq::filter_distributes_over_add(a + seq![x], b, p);
    Seq::filter_distributes_over_add(a, seq![x], p);
    Seq::filter_distributes_over_add(a, b, p);
    lemma_filter_of_one(x, p);
    if p(x) {
        let fa = a.filter(p);
        let fb = b.filter(p);
        let u = fa + fb;
        assert forall|k: int| fa.len() <= k < u.len() implies !in_order(#[trigger] u[k], x) by {
            assert(u[k] == fb[k - fa.len()]);
            assert(fb.contains(fb[k - fa.len()]));
            b.lemma_filter_contains_rev(p, fb[k - fa.len()]);
            let j = choose|j: int| 0 <= j < b.len() && b[j] == fb[k - fa.len()];
            assert(b[j] == s[q + j]);
        }
        if fa.len() > 0 {
            let e = fa[fa.len() - 1];
            assert(u[fa.len() - 1] == e);
            assert(fa.contains(e));
            a.lemma_filter_contains_rev(p, e);
            let j = choose|j: int| 0 <= j < a.len() && a[j] == e;
            assert(a[j] == s[j]);
            lemma_ordered_pairs(s, j, q - 1);
        }
        lemma_insert_pos_at(u, x, fa.len() as int, u.len() as int);
        assert(insert_in_order(u, x) =~= fa + seq![x] + fb);
    } else {
        assert(seq![x].filter(p) =~= Seq::<IssueView>::empty());
        assert(a.filter(p) + Seq::<IssueView>::empty() =~= a.filter(p));
    }
}

proof fn lemma_sort_seq_ordered(v: Seq<IssueView>)
    ensures
        is_ordered(sort_seq(v)),
    decreases v.len(),
{
    if v.len() > 0 {
        lemma_sort_seq_ordered(v.drop_last());
        lemma_insert_keeps_order(sort_seq(v.drop_last()), v.last());
    }
}

proof fn lemma_sort_then_filter(v: Seq<IssueView>, p: spec_fn(IssueView) -> bool)
    ensures
        sort_seq(v).filter(p) == sort_seq(v.filter(p)),
    decreases v.len(),
{
    reveal(Seq::filter);
    if v.len() > 0 {
        let w = v.drop_last();
        let x = v.last();
        lemma_sort_then_filter(w, p);
        lemma_sort_seq_ordered(w);
        lemma_insert_then_filter(sort_seq(w), x, p);
        assert(v =~= w.push(x));
        w.lemma_filter_push(x, p);
        if p(x) {
            let fw = w.filter(p);
            assert(fw.push(x).drop_last() =~= fw);
            assert(fw.push(x).last() == x);
        }
    }
}

/// The result of a pass, filtered by `p`: the issues that pass the filter
/// before suppression and ordering give it.
proof fn lemma_lint_then_filter(t: TreeView, s: Seq<char>, c: ConfigView, p: spec_fn(IssueView) -> bool)
    ensures
        lint_model(t, s, c).filter(p) == sort_seq(
            raw_issues(t, s, c).filter(p).filter(not_suppressed(suppressions_of(s))),
        ),
{
    let raw = raw_issues(t, s, c);
    let m = suppressions_of(s);
    let n = raw.len() as int;
    lemma_unsuppressed_is_filter(raw, m, n);
    assert(raw.take(n) =~= raw);
    let kept = unsuppressed(raw, m, n);
    lemma_sort_upto_is_sort_seq(kept, kept.len() as int);
    assert(kept.take(kept.len() as int) =~= kept);
    lemma_sort_then_filter(kept, p);
    lemma_filter_commute(raw, not_suppressed(m), p);
}

/// The issue `x` belongs to a rule other than `id`.
pub open spec fn not_of_rule(id: Seq<char>) -> spec_fn(IssueView) -> bool {
    |x: IssueView| x.rule != id
}

/// `c` with the rule `id` switched off as well.
pub open spec fn also_disabling(c: ConfigView, id: Seq<char>) -> ConfigView {
    ConfigView { disabled_rules: c.disabled_rules.push(id), max_line_length: c.max_line_length }
}

/// `c` with lines of up to `max` columns.
pub open spec fn with_max_line_length(c: ConfigView, max: usize) -> ConfigView {
    ConfigView { disabled_rules: c.disabled_rules, max_line_length: max }
}

proof fn lemma_filter_keeps_all(v: Seq<IssueView>, p: spec_fn(IssueView) -> bool)
    requires
        forall|k: int| 0 <= k < v.len() ==> p(#[trigger] v[k]),
    ensures
        v.filter(p) == v,
    decreases v.len(),
{
    reveal(Seq::filter);
    if v.len() > 0 {
        lemma_filter_keeps_all(v.drop_last(), p);
        assert(v.drop_last().push(v.last()) =~= v);
    }
}

proof fn lemma_filter_drops_all(v: Seq<IssueView>, p: spec_fn(IssueView) -> bool)
    requires
        forall|k: int| 0 <= k < v.len() ==> !p(#[trigger] v[k]),
    ensures
        v.filter(p) == Seq::<IssueView>::empty(),
    decreases v.len(),
{
    reveal(Seq::filter);
    if v.len() > 0 {
        lemma_filter_drops_all(v.drop_last(), p);
    } else {
        assert(v =~= Seq::<IssueView>::empty());
    }
}

proof fn lemma_also_disabling_raw(rules: Seq<Rule>, c: ConfigView, t: TreeView, s: Seq<char>, id: Seq<char>, n: int)
    requires
        0 <= n <= rules.len(),
    ensures
        enabled_output(rules, also_disabling(c, id), t, s, n) == enabled_output(rules, c, t, s, n).filter(
            not_of_rule(id),
        ),
    decreases n,
{
    reveal(Seq::filter);
    let c2 = also_disabling(c, id);
    let p = not_of_rule(id);
    if n == 0 {
        assert(enabled_output(rules, c, t, s, 0) =~= Seq::<IssueView>::empty());
    } else {
        lemma_also_disabling_raw(rules, c, t, s, id, n - 1);
        let r = rules[n - 1];
        let out = rule_output(r, t, s, c.max_line_length);
        lemma_rule_output_rule(r, t, s, c.max_line_length);
        let prev = enabled_output(rules, c, t, s, n - 1);
        let more = if is_disabled(c, rule_name(r)) {
            Seq::<IssueView>::empty()
        } else {
            out
        };
        Seq::filter_distributes_over_add(prev, more, p);
        assert(is_disabled(c2, rule_name(r)) == (is_disabled(c, rule_name(r)) || rule_name(r) == id)) by {
            let d = c.disabled_rules;
            if is_disabled(c, rule_name(r)) {
                let k = choose|k: int| 0 <= k < d.len() && d[k] == rule_name(r);
                assert(d.push(id)[k] == rule_name(r));
            }
            if rule_name(r) == id {
                assert(d.push(id)[d.len() as int] == id);
            }
            if is_disabled(c2, rule_name(r)) {
                let k = choose|k: int| 0 <= k < d.len() + 1 && d.push(id)[k] == rule_name(r);
                if k < d.len() {
                    assert(d[k] == rule_name(r));
                }
            }
        }
        if is_disabled(c, rule_name(r)) {
            assert(more.filter(p) =~= Seq::<IssueView>::empty());
            assert(prev.filter(p) + Seq::<IssueView>::empty() =~= prev.filter(p));
        } else if rule_name(r) == id {
            lemma_filter_drops_all(out, p);
            assert(prev.filter(p) + Seq::<IssueView>::empty() =~= prev.filter(p));
        } else {
            lemma_filter_keeps_all(out, p);
        }
    }
}

/// Disabling one more rule removes exactly that rule's issues from the result
/// of a pass, and keeps every other issue in its order.
pub proof fn lemma_disabling_one_more_rule(t: TreeView, s: Seq<char>, c: ConfigView, id: Seq<char>)
    ensures
        lint_model(t, s, also_disabling(c, id)) == lint_model(t, s, c).filter(not_of_rule(id)),
{
    let c2 = also_disabling(c, id);
    let m = suppressions_of(s);
    lemma_also_disabling_raw(registry(), c, t, s, id, registry().len() as int);
    lemma_lint_then_filter(t, s, c, not_of_rule(id));
    let raw2 = raw_issues(t, s, c2);
    lemma_unsuppressed_is_filter(raw2, m, raw2.len() as int);
    assert(raw2.take(raw2.len() as int) =~= raw2);
    let kept2 = unsuppressed(raw2, m, raw2.len() as int);
    lemma_sort_upto_is_sort_seq(kept2, kept2.len() as int);
    assert(kept2.take(kept2.len() as int) =~= kept2);
}

proof fn lemma_threshold_raw(rules: Seq<Rule>, c: ConfigView, max: usize, t: TreeView, s: Seq<char>, n: int)
    requires
        0 <= n <= rules.len(),
    ensures
        enabled_output(rules, with_max_line_length(c, max), t, s, n).filter(not_of_rule("max-line-length"@))
            == enabled_output(rules, c, t, s, n).filter(not_of_rule("max-line-length"@)),
    decreases n,
{
    reveal(Seq::filter);
    let c2 = with_max_line_length(c, max);
    let p = not_of_rule("max-line-length"@);
    if n > 0 {
        lemma_threshold_raw(rules, c, max, t, s, n - 1);
        let r = rules[n - 1];
        let more1 = if is_disabled(c, rule_name(r)) {
            Seq::<IssueView>::empty()
        } else {
            rule_output(r, t, s, c.max_line_length)
        };
        let more2 = if is_disabled(c2, rule_name(r)) {
            Seq::<IssueView>::empty()
        } else {
            rule_output(r, t, s, max)
        };
        Seq::filter_distributes_over_add(enabled_output(rules, c, t, s, n - 1), more1, p);
        Seq::filter_distributes_over_add(enabled_output(rules, c2, t, s, n - 1), more2, p);
        if r == Rule::MaxLineLength && !is_disabled(c, rule_name(r)) {
            lemma_rule_output_rule(r, t, s, c.max_line_length);
            lemma_rule_output_rule(r, t, s, max);
            lemma_filter_drops_all(more1, p);
            lemma_filter_drops_all(more2, p);
        }
    }
}

/// The line-length threshold changes no issue of any other rule: two passes
/// that differ only in it agree on everything but max-line-length issues.
pub proof fn lemma_threshold_affects_only_line_length(t: TreeView, s: Seq<char>, c: ConfigView, max: usize)
    ensures
        lint_model(t, s, with_max_line_length(c, max)).filter(not_of_rule("max-line-length"@))
            == lint_model(t, s, c).filter(not_of_rule("max-line-length"@)),
{
    let p = not_of_rule("max-line-length"@);
    let c2 = with_max_line_length(c, max);
    lemma_threshold_raw(registry(), c, max, t, s, registry().len() as int);
    lemma_lint_then_filter(t, s, c, p);
    lemma_lint_then_filter(t, s, c2, p);
}

/// The duplicated-load issue placed at load site `sites[j]`.
pub open spec fn site_issue(t: TreeView, sites: Seq<int>, j: int) -> IssueView {
    crate::rules::issue_at(
        t,
        sites[j],
        duplicated_load::rule_id(),
        crate::issue::LintSeverity::Warning,
        duplicated_load::duplicate_message(t[sites[j]].text),
    )
}

proof fn lemma_duplicate_scan_sites(t: TreeView, sites: Seq<int>, k: int)
    requires
        0 <= k <= sites.len(),
    ensures
        forall|j: int|
            k <= j < sites.len() && duplicated_load::path_count(t, sites, t[sites[j]].text, 0) > 1
                ==> duplicated_load::duplicate_scan(t, sites, k).contains(#[trigger] site_issue(t, sites, j)),
        forall|i: int|
            0 <= i < duplicated_load::duplicate_scan(t, sites, k).len() ==> exists|j: int|
                k <= j < sites.len() && duplicated_load::path_count(t, sites, t[sites[j]].text, 0) > 1
                    && #[trigger] duplicated_load::duplicate_scan(t, sites, k)[i] == site_issue(t, sites, j),
    decreases sites.len() - k,
{
    if k < sites.len() {
        lemma_duplicate_scan_sites(t, sites, k + 1);
        let rest = duplicated_load::duplicate_scan(t, sites, k + 1);
        let whole = duplicated_load::duplicate_scan(t, sites, k);
        let dup = duplicated_load::path_count(t, sites, t[sites[k]].text, 0) > 1;
        let first: Seq<IssueView> = if dup {
            seq![site_issue(t, sites, k)]
        } else {
            seq![]
        };
        assert(whole == first + rest);
        assert forall|j: int|
            k <= j < sites.len() && duplicated_load::path_count(t, sites, t[sites[j]].text, 0) > 1
                implies whole.contains(#[trigger] site_issue(t, sites, j)) by {
            if j == k {
                assert(whole[0] == site_issue(t, sites, k));
            } else {
                let q = choose|q: int| 0 <= q < rest.len() && rest[q] == site_issue(t, sites, j);
                assert(whole[first.len() + q] == rest[q]);
            }
        }
        assert forall|i: int| 0 <= i < whole.len() implies exists|j: int|
            k <= j < sites.len() && duplicated_load::path_count(t, sites, t[sites[j]].text, 0) > 1
                && #[trigger] whole[i] == site_issue(t, sites, j) by {
            if i < first.len() {
                assert(whole[i] == site_issue(t, sites, k));
            } else {
                assert(whole[i] == rest[i - first.len()]);
            }
        }
    }
}

/// Duplicated-load positions: when the file loads the path `p` more than once,
/// each of its load sites draws an issue naming `p` at that site's position,
/// and every issue naming `p` sits at one of them.
pub proof fn lemma_duplicated_load_sites(t: TreeView, p: Seq<char>)
    ensures
        ({
            let sites = duplicated_load::load_sites(t);
            let issues = duplicated_load::duplicated_load_issues(t);
            &&& forall|j: int|
                0 <= j < sites.len() && t[sites[j]].text == p && duplicated_load::path_count(
                    t,
                    sites,
                    p,
                    0,
                ) > 1 ==> issues.contains(#[trigger] site_issue(t, sites, j))
            &&& forall|i: int|
                0 <= i < issues.len() && (#[trigger] issues[i]).message
                    == duplicated_load::duplicate_message(p) ==> exists|j: int|
                    0 <= j < sites.len() && t[sites[j]].text == p && issues[i] == site_issue(t, sites, j)
        }),
{
    let sites = duplicated_load::load_sites(t);
    let issues = duplicated_load::duplicated_load_issues(t);
    lemma_duplicate_scan_sites(t, sites, 0);
    assert forall|i: int|
        0 <= i < issues.len() && (#[trigger] issues[i]).message == duplicated_load::duplicate_message(p)
            implies exists|j: int|
            0 <= j < sites.len() && t[sites[j]].text == p && issues[i] == site_issue(t, sites, j) by {
        let j = choose|j: int|
            0 <= j < sites.len() && duplicated_load::path_count(t, sites, t[sites[j]].text, 0) > 1
                && #[trigger] issues[i] == site_issue(t, sites, j);
        lemma_duplicate_message_injective(t[sites[j]].text, p);
    }
}

} // verus!
