use vstd::prelude::*;
use crate::issue::{issues_view, IssueView, LintIssue, LintSeverity};
use crate::naming::{is_private_snake_case, is_snake_case, private_snake_case, snake_case};
use crate::rules::{
    append_issues, build_message, is_parameter_kind, issue_at, issue_at_node, message_with,
    no_issue, param_name, param_name_of, single_issue,
};
use crate::tree::{children, field_child, tree_wf, SyntaxTree, TreeView};

verus! {

/// Checks that parameter names are snake_case or _private_snake_case.
pub struct FunctionArgumentNameRule;

pub open spec fn rule_id() -> Seq<char> {
    "function-argument-name"@
}

pub open spec fn valid_argument_name(n: Seq<char>) -> bool {
    snake_case(n) || private_snake_case(n)
}

pub open spec fn argument_message(n: Seq<char>) -> Seq<char> {
    message_with(
        "Function argument '"@,
        n,
        "' should be in snake_case or _private_snake_case format"@,
    )
}

/// The issues among the parameters `kids[k..]`.
pub open spec fn argument_scan(t: TreeView, kids: Seq<int>, k: int) -> Seq<IssueView>
    decreases kids.len() - k,
{
    if k >= kids.len() || k < 0 {
        seq![]
    } else {
        let p = kids[k];
        let name = param_name(t, p);
        (if is_parameter_kind(t[p].kind) && name.len() > 0 && !valid_argument_name(name) {
            seq![issue_at(t, p, rule_id(), LintSeverity::Error, argument_message(name))]
        } else {
            seq![]
        }) + argument_scan(t, kids, k + 1)
    }
}

/// The issues that node `i` gives rise to.
pub open spec fn function_argument_name_at(t: TreeView, i: int) -> Seq<IssueView> {
    if t[i].kind == "function_definition"@ {
        match field_child(t, i, "parameters"@) {
            Some(ps) => argument_scan(t, children(t, ps), 0),
            None => seq![],
        }
    } else {
        seq![]
    }
}

impl FunctionArgumentNameRule {
    /// Whether `name` is a valid parameter name.
    pub fn is_valid_argument_name(&self, name: &str) -> (r: bool)
        ensures
            r == valid_argument_name(name@),
    {
        is_snake_case(name) || is_private_snake_case(name)
    }

    /// The issues that node `i` gives rise to.
    pub fn check_node(&self, tree: &SyntaxTree, i: usize) -> (r: Vec<LintIssue>)
        requires
            tree_wf(tree@),
            i < tree@.len(),
        ensures
            issues_view(r@) == function_argument_name_at(tree@, i as int),
    {
        if !tree.kind_is(i, "function_definition") {
            return no_issue();
        }
        proof {
            crate::tree::lemma_field_child_bounds(tree@, i as int, "parameters"@);
        }
        let ps = match tree.field_child(i, "parameters") {
            Some(ps) => ps,
            None => return no_issue(),
        };
        let kids = tree.children(ps);
        let ghost ck = children(tree@, ps as int);
        proof {
            crate::tree::lemma_children_bounds(tree@, ps as int);
        }
        let mut out = no_issue();
        let mut k: usize = 0;
        while k < kids.len()
            invariant
                tree_wf(tree@),
                kids@.map_values(|x: usize| x as int) == ck,
                ck == children(tree@, ps as int),
                forall|m: int| 0 <= m < ck.len() ==> #[trigger] ck[m] < tree@.len(),
                k <= kids.len(),
                issues_view(out@) + argument_scan(tree@, ck, k as int) == argument_scan(
                    tree@,
                    ck,
                    0,
                ),
            decreases kids.len() - k,
        {
            let p = kids[k];
            assert(ck[k as int] == p);
            let is_param = tree.kind_is(p, "identifier") || tree.kind_is(p, "typed_parameter")
                || tree.kind_is(p, "default_parameter") || tree.kind_is(
                p,
                "typed_default_parameter",
            );
            if is_param {
                let name = param_name_of(tree, p);
                if !name.is_empty() && !self.is_valid_argument_name(name) {
                    let m = build_message(
                        "Function argument '",
                        name,
                        "' should be in snake_case or _private_snake_case format",
                    );
                    append_issues(
                        &mut out,
                        single_issue(
                            issue_at_node(tree, p, "function-argument-name", LintSeverity::Error, m),
                        ),
                    );
                }
            }
            k = k + 1;
        }
        out
    }
}

} // verus!
