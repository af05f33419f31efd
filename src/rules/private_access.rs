use vstd::prelude::*;
use crate::issue::{issues_view, IssueView, LintIssue, LintSeverity};
use crate::naming::{has_underscore_prefix, starts_with_underscore};
use crate::rules::{build_message, issue_at, issue_at_node, message_with, no_issue, single_issue};
use crate::tree::{children, first_child, tree_wf, SyntaxTree, TreeView};

verus! {

/// Flags `obj._member` where `obj` is neither `self` nor `super`.
pub struct PrivateAccessRule;

pub open spec fn rule_id() -> Seq<char> {
    "private-access"@
}

pub open spec fn method_message(n: Seq<char>) -> Seq<char> {
    message_with("Private method '"@, n, "' should not be called from outside its class"@)
}

pub open spec fn variable_message(n: Seq<char>) -> Seq<char> {
    message_with("Private variable '"@, n, "' should not be accessed from outside its class"@)
}

/// The issues that node `i` gives rise to: the object is its first child and
/// the member its third, after the dot.
pub open spec fn private_access_at(t: TreeView, i: int) -> Seq<IssueView> {
    let kids = children(t, i);
    if t[i].kind == "attribute"@ && kids.len() >= 3 {
        let object = t[kids[0]].text;
        let exempt = object == "super"@ || object == "self"@;
        let m = kids[2];
        if t[m].kind == "attribute_call"@ {
            match first_child(t, m) {
                Some(mn) => if starts_with_underscore(t[mn].text) && !exempt {
                    seq![issue_at(t, mn, rule_id(), LintSeverity::Error, method_message(t[mn].text))]
                } else {
                    seq![]
                },
                None => seq![],
            }
        } else if t[m].kind == "identifier"@ && starts_with_underscore(t[m].text) && !exempt {
            seq![issue_at(t, m, rule_id(), LintSeverity::Error, variable_message(t[m].text))]
        } else {
            seq![]
        }
    } else {
        seq![]
    }
}

impl PrivateAccessRule {
    /// The issues that node `i` gives rise to.
    pub fn check_node(&self, tree: &SyntaxTree, i: usize) -> (r: Vec<LintIssue>)
        requires
            tree_wf(tree@),
            i < tree@.len(),
        ensures
            issues_view(r@) == private_access_at(tree@, i as int),
    {
        if !tree.kind_is(i, "attribute") {
            return no_issue();
        }
        let kids = tree.children(i);
        proof {
            crate::tree::lemma_children_bounds(tree@, i as int);
        }
        if kids.len() < 3 {
            return no_issue();
        }
        let ghost ck = children(tree@, i as int);
        assert(ck[0] == kids@[0] && ck[2] == kids@[2]);
        let o = kids[0];
        let m = kids[2];
        let exempt = tree.text_is(o, "super") || tree.text_is(o, "self");
        if tree.kind_is(m, "attribute_call") {
            proof {
                crate::tree::lemma_field_child_bounds(tree@, m as int, seq![]);
            }
            match tree.first_child(m) {
                Some(mn) => {
                    let name = tree.nodes[mn].text.as_str();
                    if has_underscore_prefix(name) && !exempt {
                        let msg = build_message(
                            "Private method '",
                            name,
                            "' should not be called from outside its class",
                        );
                        return single_issue(
                            issue_at_node(tree, mn, "private-access", LintSeverity::Error, msg),
                        );
                    }
                    no_issue()
                },
                None => no_issue(),
            }
        } else {
            let name = tree.nodes[m].text.as_str();
            if tree.kind_is(m, "identifier") && has_underscore_prefix(name) && !exempt {
                let msg = build_message(
                    "Private variable '",
                    name,
                    "' should not be accessed from outside its class",
                );
                return single_issue(
                    issue_at_node(tree, m, "private-access", LintSeverity::Error, msg),
                );
            }
            no_issue()
        }
    }
}

} // verus!
