use vstd::prelude::*;
use crate::issue::{issues_view, IssueView, LintIssue, LintSeverity};
use crate::naming::{
    is_pascal_case, is_private_snake_case, is_snake_case, pascal_case, private_snake_case,
    snake_case,
};
use crate::rules::{
    build_message, initialised_by_call, is_initialised_by_call, issue_at, issue_at_node,
    message_with, no_issue, single_issue,
};
use crate::tree::{field_child, tree_wf, SyntaxTree, TreeView};

verus! {

/// Checks that variable names are snake_case or _private_snake_case; a
/// variable that holds a loaded resource may also be PascalCase.
pub struct VariableNameRule;

pub open spec fn rule_id() -> Seq<char> {
    "variable-name"@
}

pub open spec fn is_variable_kind(k: Seq<char>) -> bool {
    k == "variable_statement"@ || k == "export_variable_statement"@ || k
        == "onready_variable_statement"@
}

pub open spec fn valid_variable_name(n: Seq<char>) -> bool {
    snake_case(n) || private_snake_case(n)
}

pub open spec fn valid_load_variable_name(n: Seq<char>) -> bool {
    pascal_case(n) || snake_case(n) || private_snake_case(n)
}

pub open spec fn load_variable_message(n: Seq<char>) -> Seq<char> {
    message_with(
        "Variable name '"@,
        n,
        "' should be in PascalCase, snake_case or _private_snake_case format"@,
    )
}

pub open spec fn variable_message(n: Seq<char>) -> Seq<char> {
    message_with("Variable name '"@, n, "' should be in snake_case or _private_snake_case format"@)
}

/// The issues that node `i` gives rise to.
pub open spec fn variable_name_at(t: TreeView, i: int) -> Seq<IssueView> {
    if is_variable_kind(t[i].kind) {
        match field_child(t, i, "name"@) {
            Some(c) => {
                let n = t[c].text;
                if initialised_by_call(t, i, "load"@, "preload"@) {
                    if !valid_load_variable_name(n) {
                        seq![issue_at(t, c, rule_id(), LintSeverity::Error, load_variable_message(n))]
                    } else {
                        seq![]
                    }
                } else if !valid_variable_name(n) {
                    seq![issue_at(t, c, rule_id(), LintSeverity::Error, variable_message(n))]
                } else {
                    seq![]
                }
            },
            None => seq![],
        }
    } else {
        seq![]
    }
}

impl VariableNameRule {
    /// Whether `name` is a valid name for a variable.
    pub fn is_valid_variable_name(&self, name: &str) -> (r: bool)
        ensures
            r == valid_variable_name(name@),
    {
        is_snake_case(name) || is_private_snake_case(name)
    }

    /// Whether `name` is a valid name for a variable that holds a loaded resource.
    pub fn is_valid_load_variable_name(&self, name: &str) -> (r: bool)
        ensures
            r == valid_load_variable_name(name@),
    {
        is_pascal_case(name) || is_snake_case(name) || is_private_snake_case(name)
    }

    /// The issues that node `i` gives rise to.
    pub fn check_node(&self, tree: &SyntaxTree, i: usize) -> (r: Vec<LintIssue>)
        requires
            tree_wf(tree@),
            i < tree@.len(),
        ensures
            issues_view(r@) == variable_name_at(tree@, i as int),
    {
        if !(tree.kind_is(i, "variable_statement") || tree.kind_is(i, "export_variable_statement")
            || tree.kind_is(i, "onready_variable_statement")) {
            return no_issue();
        }
        proof {
            crate::tree::lemma_field_child_bounds(tree@, i as int, "name"@);
        }
        let c = match tree.field_child(i, "name") {
            Some(c) => c,
            None => return no_issue(),
        };
        let name = tree.nodes[c].text.as_str();
        if is_initialised_by_call(tree, i, "load", "preload") {
            if !self.is_valid_load_variable_name(name) {
                let m = build_message(
                    "Variable name '",
                    name,
                    "' should be in PascalCase, snake_case or _private_snake_case format",
                );
                return single_issue(issue_at_node(tree, c, "variable-name", LintSeverity::Error, m));
            }
        } else if !self.is_valid_variable_name(name) {
            let m = build_message(
                "Variable name '",
                name,
                "' should be in snake_case or _private_snake_case format",
            );
            return single_issue(issue_at_node(tree, c, "variable-name", LintSeverity::Error, m));
        }
        no_issue()
    }
}

} // verus!
