use vstd::prelude::*;
use crate::issue::{issues_view, IssueView, LintIssue, LintSeverity};
use crate::naming::{has_underscore_prefix, starts_with_underscore};
use crate::rules::{
    append_issues, build_message, is_parameter_kind, issue_at, issue_at_node, message_with,
    no_issue, param_name, param_name_of, single_issue,
};
use crate::tree::{children, field_child, in_subtree, tree_wf, SyntaxTree, TreeView};

verus! {

/// Flags a parameter whose name never appears as an identifier in the body.
pub struct UnusedArgumentRule;

pub open spec fn rule_id() -> Seq<char> {
    "unused-argument"@
}

/// Some identifier in the subtree of `b` reads `name`.
pub open spec fn used_in(t: TreeView, b: int, name: Seq<char>) -> bool {
    exists|j: int|
        0 <= j < t.len() && #[trigger] in_subtree(t, b, j) && t[j].kind == "identifier"@ && t[j].text
            == name
}

pub open spec fn unused_message(name: Seq<char>) -> Seq<char> {
    message_with(
        "Function argument '"@,
        name,
        "' is unused. Consider removing it or prefixing with '_'"@,
    )
}

/// The issues among the parameters `kids[k..]` of a function whose body is `b`.
pub open spec fn param_scan(t: TreeView, kids: Seq<int>, k: int, b: int) -> Seq<IssueView>
    decreases kids.len() - k,
{
    if k >= kids.len() || k < 0 {
        seq![]
    } else {
        let p = kids[k];
        let name = param_name(t, p);
        (if is_parameter_kind(t[p].kind) && name.len() > 0 && !starts_with_underscore(name)
            && !used_in(t, b, name) {
            seq![issue_at(t, p, rule_id(), LintSeverity::Warning, unused_message(name))]
        } else {
            seq![]
        }) + param_scan(t, kids, k + 1, b)
    }
}

/// The issues that node `i` gives rise to.
pub open spec fn unused_argument_at(t: TreeView, i: int) -> Seq<IssueView> {
    if t[i].kind == "function_definition"@ {
        match (field_child(t, i, "parameters"@), field_child(t, i, "body"@)) {
            (Some(ps), Some(b)) => param_scan(t, children(t, ps), 0, b),
            _ => seq![],
        }
    } else {
        seq![]
    }
}

/// Whether an identifier in the subtree of `b` reads `name`.
fn identifier_used_in(tree: &SyntaxTree, b: usize, name: &str) -> (r: bool)
    ensures
        r == used_in(tree@, b as int, name@),
{
    let n = tree.len();
    let mut inside: Vec<bool> = Vec::new();
    let mut j: usize = 0;
    while j < n
        invariant
            n == tree@.len(),
            j <= n,
            inside.len() == j,
            forall|k: int| 0 <= k < j ==> inside@[k] == in_subtree(tree@, b as int, k),
            forall|k: int|
                0 <= k < j ==> !(#[trigger] in_subtree(tree@, b as int, k) && tree@[k].kind
                    == "identifier"@ && tree@[k].text == name@),
        decreases n - j,
    {
        let p = tree.nodes[j].parent;
        let here = if j == b {
            true
        } else if b < j && 0 < j && p < j {
            inside[p]
        } else {
            false
        };
        assert(here == in_subtree(tree@, b as int, j as int));
        inside.push(here);
        if here && tree.kind_is(j, "identifier") && tree.text_is(j, name) {
            return true;
        }
        j = j + 1;
    }
    false
}

impl UnusedArgumentRule {
    /// The issues that node `i` gives rise to.
    pub fn check_node(&self, tree: &SyntaxTree, i: usize) -> (r: Vec<LintIssue>)
        requires
            tree_wf(tree@),
            i < tree@.len(),
        ensures
            issues_view(r@) == unused_argument_at(tree@, i as int),
    {
        if !tree.kind_is(i, "function_definition") {
            return no_issue();
        }
        proof {
            crate::tree::lemma_field_child_bounds(tree@, i as int, "parameters"@);
            crate::tree::lemma_field_child_bounds(tree@, i as int, "body"@);
        }
        let ps = match tree.field_child(i, "parameters") {
            Some(ps) => ps,
            None => return no_issue(),
        };
        let b = match tree.field_child(i, "body") {
            Some(b) => b,
            None => return no_issue(),
        };
        let kids = tree.children(ps);
        let ghost ck = children(tree@, ps as int);
        proof {
            crate::tree::lemma_children_bounds(tree@, ps as int);
        }
        let mut out = no_issue();
        let mut k: usize = 0;
        while k < kids.len()
            invariant
                tree_wf(tree@),
                kids@.map_values(|x: usize| x as int) == ck,
                ck == children(tree@, ps as int),
                forall|m: int| 0 <= m < ck.len() ==> #[trigger] ck[m] < tree@.len(),
                k <= kids.len(),
                issues_view(out@) + param_scan(tree@, ck, k as int, b as int) == param_scan(
                    tree@,
                    ck,
                    0,
                    b as int,
                ),
            decreases kids.len() - k,
        {
            let p = kids[k];
            assert(ck[k as int] == p);
            let is_param = tree.kind_is(p, "identifier") || tree.kind_is(p, "typed_parameter")
                || tree.kind_is(p, "default_parameter") || tree.kind_is(
                p,
                "typed_default_parameter",
            );
            if is_param {
                let name = param_name_of(tree, p);
                if !name.is_empty() && !has_underscore_prefix(name) && !identifier_used_in(
                    tree,
                    b,
                    name,
                ) {
                    let m = build_message(
                        "Function argument '",
                        name,
                        "' is unused. Consider removing it or prefixing with '_'",
                    );
                    append_issues(
                        &mut out,
                        single_issue(issue_at_node(tree, p, "unused-argument", LintSeverity::Warning, m)),
                    );
                }
            }
            k = k + 1;
        }
        out
    }
}

} // verus!
