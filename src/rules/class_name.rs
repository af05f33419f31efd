use vstd::prelude::*;
use crate::issue::{issues_view, IssueView, LintIssue, LintSeverity};
use crate::naming::{is_pascal_case, pascal_case};
use crate::rules::{append_issues, build_message, issue_at, issue_at_node, message_with, no_issue, single_issue};
use crate::tree::{children, tree_wf, SyntaxTree, TreeView};

verus! {

/// Checks that names given by `class_name` are PascalCase.
pub struct ClassNameRule;

pub open spec fn rule_id() -> Seq<char> {
    "class-name"@
}

pub open spec fn name_message(n: Seq<char>) -> Seq<char> {
    message_with("Class name '"@, n, "' should be in PascalCase format"@)
}

/// The issues among the children `kids[k..]` of a `class_name` statement.
pub open spec fn name_scan(t: TreeView, kids: Seq<int>, k: int) -> Seq<IssueView>
    decreases kids.len() - k,
{
    if k >= kids.len() || k < 0 {
        seq![]
    } else {
        let c = kids[k];
        (if t[c].kind == "name"@ && !pascal_case(t[c].text) {
            seq![issue_at(t, c, rule_id(), LintSeverity::Error, name_message(t[c].text))]
        } else {
            seq![]
        }) + name_scan(t, kids, k + 1)
    }
}

/// The issues that node `i` gives rise to.
pub open spec fn class_name_at(t: TreeView, i: int) -> Seq<IssueView> {
    if t[i].kind == "class_name_statement"@ {
        name_scan(t, children(t, i), 0)
    } else {
        seq![]
    }
}

impl ClassNameRule {
    /// The issues that node `i` gives rise to.
    pub fn check_node(&self, tree: &SyntaxTree, i: usize) -> (r: Vec<LintIssue>)
        requires
            tree_wf(tree@),
            i < tree@.len(),
        ensures
            issues_view(r@) == class_name_at(tree@, i as int),
    {
        if !tree.kind_is(i, "class_name_statement") {
            return no_issue();
        }
        let kids = tree.children(i);
        let ghost ck = children(tree@, i as int);
        proof {
            crate::tree::lemma_children_bounds(tree@, i as int);
        }
        let mut out = no_issue();
        let mut k: usize = 0;
        while k < kids.len()
            invariant
                tree_wf(tree@),
                kids@.map_values(|x: usize| x as int) == ck,
                forall|m: int| 0 <= m < ck.len() ==> #[trigger] ck[m] < tree@.len(),
                k <= kids.len(),
                issues_view(out@) + name_scan(tree@, ck, k as int) == name_scan(tree@, ck, 0),
            decreases kids.len() - k,
        {
            let c = kids[k];
            assert(ck[k as int] == c);
            if tree.kind_is(c, "name") {
                let name = tree.nodes[c].text.as_str();
                if !is_pascal_case(name) {
                    let m = build_message("Class name '", name, "' should be in PascalCase format");
                    append_issues(
                        &mut out,
                        single_issue(issue_at_node(tree, c, "class-name", LintSeverity::Error, m)),
                    );
                }
            }
            k = k + 1;
        }
        out
    }
}

} // verus!
