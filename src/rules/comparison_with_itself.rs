use vstd::prelude::*;
use crate::issue::{issues_view, IssueView, LintIssue, LintSeverity};
use crate::rules::{build_message, issue_at, issue_at_node, message_with, no_issue, single_issue};
use crate::tree::{field_child, tree_wf, SyntaxTree, TreeView};

verus! {

/// Flags a comparison whose two operands are the same text.
pub struct ComparisonWithItselfRule;

pub open spec fn rule_id() -> Seq<char> {
    "comparison-with-itself"@
}

pub open spec fn is_comparison(op: Seq<char>) -> bool {
    op == "=="@ || op == "!="@ || op == "<"@ || op == ">"@ || op == "<="@ || op == ">="@
}

pub open spec fn comparison_message(e: Seq<char>) -> Seq<char> {
    message_with("Redundant comparison '"@, e, "' - comparing expression with itself"@)
}

/// The issues that node `i` gives rise to.
pub open spec fn comparison_with_itself_at(t: TreeView, i: int) -> Seq<IssueView> {
    if t[i].kind == "binary_operator"@ {
        match (field_child(t, i, "left"@), field_child(t, i, "op"@), field_child(t, i, "right"@)) {
            (Some(l), Some(o), Some(r)) => if is_comparison(t[o].text) && t[l].text == t[r].text {
                seq![issue_at(t, i, rule_id(), LintSeverity::Warning, comparison_message(t[i].text))]
            } else {
                seq![]
            },
            _ => seq![],
        }
    } else {
        seq![]
    }
}

impl ComparisonWithItselfRule {
    /// The issues that node `i` gives rise to.
    pub fn check_node(&self, tree: &SyntaxTree, i: usize) -> (r: Vec<LintIssue>)
        requires
            tree_wf(tree@),
            i < tree@.len(),
        ensures
            issues_view(r@) == comparison_with_itself_at(tree@, i as int),
    {
        if !tree.kind_is(i, "binary_operator") {
            return no_issue();
        }
        proof {
            crate::tree::lemma_field_child_bounds(tree@, i as int, "left"@);
            crate::tree::lemma_field_child_bounds(tree@, i as int, "op"@);
            crate::tree::lemma_field_child_bounds(tree@, i as int, "right"@);
        }
        let l = tree.field_child(i, "left");
        let o = tree.field_child(i, "op");
        let r = tree.field_child(i, "right");
        match (l, o, r) {
            (Some(l), Some(o), Some(r)) => {
                let is_cmp = tree.text_is(o, "==") || tree.text_is(o, "!=") || tree.text_is(o, "<")
                    || tree.text_is(o, ">") || tree.text_is(o, "<=") || tree.text_is(o, ">=");
                if is_cmp && tree.nodes[l].text == tree.nodes[r].text {
                    let m = build_message(
                        "Redundant comparison '",
                        tree.nodes[i].text.as_str(),
                        "' - comparing expression with itself",
                    );
                    return single_issue(
                        issue_at_node(tree, i, "comparison-with-itself", LintSeverity::Warning, m),
                    );
                }
                no_issue()
            },
            _ => no_issue(),
        }
    }
}

} // verus!
