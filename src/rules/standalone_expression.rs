use vstd::prelude::*;
use crate::issue::{issues_view, IssueView, LintIssue, LintSeverity};
use crate::rules::{build_message, issue_at, issue_at_node, message_with, no_issue, single_issue};
use crate::tree::{first_child, tree_wf, SyntaxTree, TreeView};

verus! {

/// Flags a statement that is only an operator expression or a literal.
pub struct StandaloneExpressionRule;

pub open spec fn rule_id() -> Seq<char> {
    "standalone-expression"@
}

/// Expression kinds without side effects.
pub open spec fn is_inert_kind(k: Seq<char>) -> bool {
    k == "binary_operator"@ || k == "integer"@ || k == "float"@ || k == "string"@ || k == "true"@
        || k == "false"@ || k == "null"@
}

pub open spec fn standalone_message(e: Seq<char>) -> Seq<char> {
    message_with(
        "Standalone expression '"@,
        e,
        "' is not assigned or used, the line may have no effect"@,
    )
}

/// The issues that node `i` gives rise to.
pub open spec fn standalone_expression_at(t: TreeView, i: int) -> Seq<IssueView> {
    if t[i].kind == "expression_statement"@ {
        match first_child(t, i) {
            Some(e) => if is_inert_kind(t[e].kind) {
                seq![issue_at(t, e, rule_id(), LintSeverity::Warning, standalone_message(t[e].text))]
            } else {
                seq![]
            },
            None => seq![],
        }
    } else {
        seq![]
    }
}

impl StandaloneExpressionRule {
    /// The issues that node `i` gives rise to.
    pub fn check_node(&self, tree: &SyntaxTree, i: usize) -> (r: Vec<LintIssue>)
        requires
            tree_wf(tree@),
            i < tree@.len(),
        ensures
            issues_view(r@) == standalone_expression_at(tree@, i as int),
    {
        if !tree.kind_is(i, "expression_statement") {
            return no_issue();
        }
        proof {
            crate::tree::lemma_field_child_bounds(tree@, i as int, seq![]);
        }
        match tree.first_child(i) {
            Some(e) => {
                if tree.kind_is(e, "binary_operator") || tree.kind_is(e, "integer") || tree.kind_is(
                    e,
                    "float",
                ) || tree.kind_is(e, "string") || tree.kind_is(e, "true") || tree.kind_is(e, "false")
                    || tree.kind_is(e, "null") {
                    let m = build_message(
                        "Standalone expression '",
                        tree.nodes[e].text.as_str(),
                        "' is not assigned or used, the line may have no effect",
                    );
                    return single_issue(
                        issue_at_node(tree, e, "standalone-expression", LintSeverity::Warning, m),
                    );
                }
                no_issue()
            },
            None => no_issue(),
        }
    }
}

} // verus!
