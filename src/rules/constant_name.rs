use vstd::prelude::*;
use crate::issue::{issues_view, IssueView, LintIssue, LintSeverity};
use crate::naming::{
    constant_case, is_constant_case, is_pascal_case, is_private_constant_case, pascal_case,
    private_constant_case,
};
use crate::rules::{
    build_message, initialised_by_call, is_initialised_by_call, issue_at, issue_at_node,
    message_with, no_issue, single_issue,
};
use crate::tree::{field_child, tree_wf, SyntaxTree, TreeView};

verus! {

/// Checks that constant names are CONSTANT_CASE; a constant that holds a
/// preloaded resource may also be PascalCase.
pub struct ConstantNameRule;

pub open spec fn rule_id() -> Seq<char> {
    "constant-name"@
}

pub open spec fn valid_constant_name(n: Seq<char>) -> bool {
    constant_case(n) || private_constant_case(n)
}

pub open spec fn valid_load_constant_name(n: Seq<char>) -> bool {
    pascal_case(n) || constant_case(n) || private_constant_case(n)
}

pub open spec fn preload_constant_message(n: Seq<char>) -> Seq<char> {
    message_with(
        "Preload constant name '"@,
        n,
        "' should be in PascalCase or CONSTANT_CASE format"@,
    )
}

pub open spec fn constant_message(n: Seq<char>) -> Seq<char> {
    message_with("Constant name '"@, n, "' should be in CONSTANT_CASE format"@)
}

/// The issues that node `i` gives rise to.
pub open spec fn constant_name_at(t: TreeView, i: int) -> Seq<IssueView> {
    if t[i].kind == "const_statement"@ {
        match field_child(t, i, "name"@) {
            Some(c) => {
                let n = t[c].text;
                if initialised_by_call(t, i, "preload"@, "preload"@) {
                    if !valid_load_constant_name(n) {
                        seq![issue_at(t, c, rule_id(), LintSeverity::Error, preload_constant_message(n))]
                    } else {
                        seq![]
                    }
                } else if !valid_constant_name(n) {
                    seq![issue_at(t, c, rule_id(), LintSeverity::Error, constant_message(n))]
                } else {
                    seq![]
                }
            },
            None => seq![],
        }
    } else {
        seq![]
    }
}

impl ConstantNameRule {
    /// Whether `name` is a valid name for a constant.
    pub fn is_valid_constant_name(&self, name: &str) -> (r: bool)
        ensures
            r == valid_constant_name(name@),
    {
        is_constant_case(name) || is_private_constant_case(name)
    }

    /// Whether `name` is a valid name for a constant that holds a preloaded resource.
    pub fn is_valid_load_constant_name(&self, name: &str) -> (r: bool)
        ensures
            r == valid_load_constant_name(name@),
    {
        is_pascal_case(name) || is_constant_case(name) || is_private_constant_case(name)
    }

    /// The issues that node `i` gives rise to.
    pub fn check_node(&self, tree: &SyntaxTree, i: usize) -> (r: Vec<LintIssue>)
        requires
            tree_wf(tree@),
            i < tree@.len(),
        ensures
            issues_view(r@) == constant_name_at(tree@, i as int),
    {
        if !tree.kind_is(i, "const_statement") {
            return no_issue();
        }
        proof {
            crate::tree::lemma_field_child_bounds(tree@, i as int, "name"@);
        }
        let c = match tree.field_child(i, "name") {
            Some(c) => c,
            None => return no_issue(),
        };
        let name = tree.nodes[c].text.as_str();
        if is_initialised_by_call(tree, i, "preload", "preload") {
            if !self.is_valid_load_constant_name(name) {
                let m = build_message(
                    "Preload constant name '",
                    name,
                    "' should be in PascalCase or CONSTANT_CASE format",
                );
                return single_issue(issue_at_node(tree, c, "constant-name", LintSeverity::Error, m));
            }
        } else if !self.is_valid_constant_name(name) {
            let m = build_message("Constant name '", name, "' should be in CONSTANT_CASE format");
            return single_issue(issue_at_node(tree, c, "constant-name", LintSeverity::Error, m));
        }
        no_issue()
    }
}

} // verus!
