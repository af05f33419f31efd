use vstd::prelude::*;
use crate::issue::{issues_view, IssueView, LintIssue, LintSeverity};
use crate::rules::{append_issues, issue_at, issue_at_node, no_issue, single_issue};
use crate::rules::no_else_return::is_filler;
use crate::tree::{children, tree_wf, SyntaxTree, TreeView};

verus! {

/// Flags `pass` in a block that holds other statements.
pub struct UnnecessaryPassRule;

pub open spec fn rule_id() -> Seq<char> {
    "unnecessary-pass"@
}

pub open spec fn pass_message() -> Seq<char> {
    "Unnecessary 'pass' statement when other statements are present"@
}

/// Some node among `kids` is a statement other than `pass`.
pub open spec fn has_other_statement(t: TreeView, kids: Seq<int>) -> bool {
    exists|k: int|
        0 <= k < kids.len() && t[#[trigger] kids[k]].kind != "pass_statement"@ && !is_filler(
            t[kids[k]].kind,
        )
}

/// One issue for each `pass` among `kids[k..]`.
pub open spec fn pass_scan(t: TreeView, kids: Seq<int>, k: int) -> Seq<IssueView>
    decreases kids.len() - k,
{
    if k >= kids.len() || k < 0 {
        seq![]
    } else {
        (if t[kids[k]].kind == "pass_statement"@ {
            seq![issue_at(t, kids[k], rule_id(), LintSeverity::Warning, pass_message())]
        } else {
            seq![]
        }) + pass_scan(t, kids, k + 1)
    }
}

/// The issues that node `i` gives rise to.
pub open spec fn unnecessary_pass_at(t: TreeView, i: int) -> Seq<IssueView> {
    if (t[i].kind == "body"@ || t[i].kind == "class_body"@) && has_other_statement(
        t,
        children(t, i),
    ) {
        pass_scan(t, children(t, i), 0)
    } else {
        seq![]
    }
}

impl UnnecessaryPassRule {
    /// The issues that node `i` gives rise to.
    pub fn check_node(&self, tree: &SyntaxTree, i: usize) -> (r: Vec<LintIssue>)
        requires
            tree_wf(tree@),
            i < tree@.len(),
        ensures
            issues_view(r@) == unnecessary_pass_at(tree@, i as int),
    {
        if !(tree.kind_is(i, "body") || tree.kind_is(i, "class_body")) {
            return no_issue();
        }
        let kids = tree.children(i);
        let ghost ck = children(tree@, i as int);
        proof {
            crate::tree::lemma_children_bounds(tree@, i as int);
        }
        let mut other = false;
        let mut k: usize = 0;
        while k < kids.len()
            invariant
                kids@.map_values(|x: usize| x as int) == ck,
                forall|m: int| 0 <= m < ck.len() ==> #[trigger] ck[m] < tree@.len(),
                k <= kids.len(),
                other == exists|m: int|
                    0 <= m < k && tree@[#[trigger] ck[m]].kind != "pass_statement"@ && !is_filler(
                        tree@[ck[m]].kind,
                    ),
            decreases kids.len() - k,
        {
            let c = kids[k];
            assert(ck[k as int] == c);
            if !tree.kind_is(c, "pass_statement") && !(tree.kind_is(c, "_newline") || tree.kind_is(
                c,
                "_indent",
            ) || tree.kind_is(c, "_dedent") || tree.kind_is(c, "comment")) {
                other = true;
            }
            k = k + 1;
        }
        if !other {
            return no_issue();
        }
        let mut out = no_issue();
        let mut k: usize = 0;
        while k < kids.len()
            invariant
                tree_wf(tree@),
                kids@.map_values(|x: usize| x as int) == ck,
                forall|m: int| 0 <= m < ck.len() ==> #[trigger] ck[m] < tree@.len(),
                k <= kids.len(),
                issues_view(out@) + pass_scan(tree@, ck, k as int) == pass_scan(tree@, ck, 0),
            decreases kids.len() - k,
        {
            let c = kids[k];
            assert(ck[k as int] == c);
            if tree.kind_is(c, "pass_statement") {
                let m = String::from_str(
                    "Unnecessary 'pass' statement when other statements are present",
                );
                append_issues(
                    &mut out,
                    single_issue(issue_at_node(tree, c, "unnecessary-pass", LintSeverity::Warning, m)),
                );
            }
            k = k + 1;
        }
        out
    }
}

} // verus!
