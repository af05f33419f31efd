use vstd::prelude::*;
use crate::issue::{issues_view, IssueView, LintIssue, LintSeverity};
use crate::naming::{is_snake_case, snake_case};
use crate::rules::{build_message, issue_at, issue_at_node, message_with, no_issue, single_issue};
use crate::tree::{field_child, first_child, tree_wf, SyntaxTree, TreeView};

verus! {

/// Checks that `for` loop variables are snake_case.
pub struct LoopVariableNameRule;

pub open spec fn rule_id() -> Seq<char> {
    "loop-variable-name"@
}

pub open spec fn loop_message(n: Seq<char>) -> Seq<char> {
    message_with("Loop variable '"@, n, "' should be in snake_case format"@)
}

/// The name that the loop binding `l` declares; "" for other shapes.
pub open spec fn binding_name(t: TreeView, l: int) -> Seq<char> {
    if t[l].kind == "identifier"@ {
        t[l].text
    } else if t[l].kind == "typed_parameter"@ {
        match first_child(t, l) {
            Some(c) => t[c].text,
            None => seq![],
        }
    } else {
        seq![]
    }
}

/// The issues that node `i` gives rise to.
pub open spec fn loop_variable_name_at(t: TreeView, i: int) -> Seq<IssueView> {
    if t[i].kind == "for_statement"@ {
        match field_child(t, i, "left"@) {
            Some(l) => {
                let n = binding_name(t, l);
                if n.len() > 0 && !snake_case(n) {
                    seq![issue_at(t, l, rule_id(), LintSeverity::Error, loop_message(n))]
                } else {
                    seq![]
                }
            },
            None => seq![],
        }
    } else {
        seq![]
    }
}

impl LoopVariableNameRule {
    /// Whether `name` is a valid loop variable name.
    pub fn is_valid_loop_variable_name(&self, name: &str) -> (r: bool)
        ensures
            r == snake_case(name@),
    {
        is_snake_case(name)
    }

    fn binding_name_of<'a>(&self, tree: &'a SyntaxTree, l: usize) -> (r: &'a str)
        requires
            l < tree@.len(),
        ensures
            r@ == binding_name(tree@, l as int),
    {
        proof {
            reveal_strlit("");
            crate::tree::lemma_field_child_bounds(tree@, l as int, seq![]);
        }
        if tree.kind_is(l, "identifier") {
            tree.nodes[l].text.as_str()
        } else if tree.kind_is(l, "typed_parameter") {
            match tree.first_child(l) {
                Some(c) => tree.nodes[c].text.as_str(),
                None => "",
            }
        } else {
            ""
        }
    }

    /// The issues that node `i` gives rise to.
    pub fn check_node(&self, tree: &SyntaxTree, i: usize) -> (r: Vec<LintIssue>)
        requires
            tree_wf(tree@),
            i < tree@.len(),
        ensures
            issues_view(r@) == loop_variable_name_at(tree@, i as int),
    {
        if !tree.kind_is(i, "for_statement") {
            return no_issue();
        }
        proof {
            crate::tree::lemma_field_child_bounds(tree@, i as int, "left"@);
        }
        match tree.field_child(i, "left") {
            Some(l) => {
                let name = self.binding_name_of(tree, l);
                if !name.is_empty() && !self.is_valid_loop_variable_name(name) {
                    let m = build_message("Loop variable '", name, "' should be in snake_case format");
                    return single_issue(
                        issue_at_node(tree, l, "loop-variable-name", LintSeverity::Error, m),
                    );
                }
                no_issue()
            },
            None => no_issue(),
        }
    }
}

} // verus!
