use vstd::prelude::*;
use crate::issue::{issues_view, IssueView, LintIssue, LintSeverity};
use crate::naming::{is_pascal_case, pascal_case};
use crate::rules::{build_message, issue_at, issue_at_node, message_with, no_issue, single_issue};
use crate::tree::{field_child, tree_wf, SyntaxTree, TreeView};

verus! {

/// Checks that enum names are PascalCase.
pub struct EnumNameRule;

pub open spec fn rule_id() -> Seq<char> {
    "enum-name"@
}

pub open spec fn valid_enum_name(n: Seq<char>) -> bool {
    pascal_case(n)
}

pub open spec fn name_message(n: Seq<char>) -> Seq<char> {
    message_with("Enum name '"@, n, "' should be in PascalCase format"@)
}

/// The issues that node `i` gives rise to.
pub open spec fn enum_name_at(t: TreeView, i: int) -> Seq<IssueView> {
    if t[i].kind == "enum_definition"@ {
        match field_child(t, i, "name"@) {
            Some(c) => if !valid_enum_name(t[c].text) {
                seq![issue_at(t, c, rule_id(), LintSeverity::Error, name_message(t[c].text))]
            } else {
                seq![]
            },
            None => seq![],
        }
    } else {
        seq![]
    }
}

impl EnumNameRule {
    /// Whether `name` is a valid enum name.
    pub fn is_valid_enum_name(&self, name: &str) -> (r: bool)
        ensures
            r == valid_enum_name(name@),
    {
        is_pascal_case(name)
    }

    /// The issues that node `i` gives rise to.
    pub fn check_node(&self, tree: &SyntaxTree, i: usize) -> (r: Vec<LintIssue>)
        requires
            tree_wf(tree@),
            i < tree@.len(),
        ensures
            issues_view(r@) == enum_name_at(tree@, i as int),
    {
        if !tree.kind_is(i, "enum_definition") {
            return no_issue();
        }
        proof {
            crate::tree::lemma_field_child_bounds(tree@, i as int, "name"@);
        }
        match tree.field_child(i, "name") {
            Some(c) => {
                let name = tree.nodes[c].text.as_str();
                if !self.is_valid_enum_name(name) {
                    let m = build_message("Enum name '", name, "' should be in PascalCase format");
                    return single_issue(issue_at_node(tree, c, "enum-name", LintSeverity::Error, m));
                }
                no_issue()
            },
            None => no_issue(),
        }
    }
}

} // verus!
