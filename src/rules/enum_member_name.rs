use vstd::prelude::*;
use crate::issue::{issues_view, IssueView, LintIssue, LintSeverity};
use crate::naming::{constant_case, is_constant_case};
use crate::rules::{append_issues, build_message, issue_at, issue_at_node, message_with, no_issue, single_issue};
use crate::tree::{children, field_child, tree_wf, SyntaxTree, TreeView};

verus! {

/// Checks that enum members are CONSTANT_CASE.
pub struct EnumMemberNameRule;

pub open spec fn rule_id() -> Seq<char> {
    "enum-member-name"@
}

pub open spec fn member_message(n: Seq<char>) -> Seq<char> {
    message_with("Enum element name '"@, n, "' should be in CONSTANT_CASE format"@)
}

/// The issue of one member `m` of an enum body, if any.
pub open spec fn member_issue(t: TreeView, m: int) -> Seq<IssueView> {
    if t[m].kind == "enumerator"@ {
        match field_child(t, m, "left"@) {
            Some(e) => if t[e].text.len() > 0 && !constant_case(t[e].text) {
                seq![issue_at(t, e, rule_id(), LintSeverity::Error, member_message(t[e].text))]
            } else {
                seq![]
            },
            None => seq![],
        }
    } else {
        seq![]
    }
}

/// The issues among the members `kids[k..]`.
pub open spec fn member_scan(t: TreeView, kids: Seq<int>, k: int) -> Seq<IssueView>
    decreases kids.len() - k,
{
    if k >= kids.len() || k < 0 {
        seq![]
    } else {
        member_issue(t, kids[k]) + member_scan(t, kids, k + 1)
    }
}

/// The issues that node `i` gives rise to.
pub open spec fn enum_member_name_at(t: TreeView, i: int) -> Seq<IssueView> {
    if t[i].kind == "enum_definition"@ {
        match field_child(t, i, "body"@) {
            Some(b) => member_scan(t, children(t, b), 0),
            None => seq![],
        }
    } else {
        seq![]
    }
}

impl EnumMemberNameRule {
    /// Whether `name` is a valid enum member name.
    pub fn is_valid_enum_member_name(&self, name: &str) -> (r: bool)
        ensures
            r == constant_case(name@),
    {
        is_constant_case(name)
    }

    fn check_member(&self, tree: &SyntaxTree, m: usize) -> (r: Vec<LintIssue>)
        requires
            tree_wf(tree@),
            m < tree@.len(),
        ensures
            issues_view(r@) == member_issue(tree@, m as int),
    {
        if !tree.kind_is(m, "enumerator") {
            return no_issue();
        }
        proof {
            crate::tree::lemma_field_child_bounds(tree@, m as int, "left"@);
        }
        match tree.field_child(m, "left") {
            Some(e) => {
                let name = tree.nodes[e].text.as_str();
                if !name.is_empty() && !self.is_valid_enum_member_name(name) {
                    let msg = build_message(
                        "Enum element name '",
                        name,
                        "' should be in CONSTANT_CASE format",
                    );
                    return single_issue(
                        issue_at_node(tree, e, "enum-member-name", LintSeverity::Error, msg),
                    );
                }
                no_issue()
            },
            None => no_issue(),
        }
    }

    /// The issues that node `i` gives rise to.
    pub fn check_node(&self, tree: &SyntaxTree, i: usize) -> (r: Vec<LintIssue>)
        requires
            tree_wf(tree@),
            i < tree@.len(),
        ensures
            issues_view(r@) == enum_member_name_at(tree@, i as int),
    {
        if !tree.kind_is(i, "enum_definition") {
            return no_issue();
        }
        proof {
            crate::tree::lemma_field_child_bounds(tree@, i as int, "body"@);
        }
        let b = match tree.field_child(i, "body") {
            Some(b) => b,
            None => return no_issue(),
        };
        let kids = tree.children(b);
        let ghost ck = children(tree@, b as int);
        proof {
            crate::tree::lemma_children_bounds(tree@, b as int);
        }
        let mut out = no_issue();
        let mut k: usize = 0;
        while k < kids.len()
            invariant
                tree_wf(tree@),
                kids@.map_values(|x: usize| x as int) == ck,
                ck == children(tree@, b as int),
                forall|m: int| 0 <= m < ck.len() ==> #[trigger] ck[m] < tree@.len(),
                k <= kids.len(),
                issues_view(out@) + member_scan(tree@, ck, k as int) == member_scan(tree@, ck, 0),
            decreases kids.len() - k,
        {
            assert(ck[k as int] == kids@[k as int]);
            append_issues(&mut out, self.check_member(tree, kids[k]));
            k = k + 1;
        }
        out
    }
}

} // verus!
