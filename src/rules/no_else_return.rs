use vstd::prelude::*;
use crate::issue::{issues_view, IssueView, LintIssue, LintSeverity};
use crate::rules::{append_issues, issue_at, issue_at_node, no_issue, single_issue};
use crate::tree::{children, field_child, tree_wf, SyntaxTree, TreeView};

verus! {

/// Flags an `elif` or `else` that follows only branches ending in `return`.
pub struct NoElseReturnRule;

pub open spec fn rule_id() -> Seq<char> {
    "no-else-return"@
}

/// Nodes that do not count as statements of a block.
pub open spec fn is_filler(k: Seq<char>) -> bool {
    k == "_newline"@ || k == "_indent"@ || k == "_dedent"@ || k == "comment"@
}

/// The last statement among the first `n` of `kids`.
pub open spec fn last_statement(t: TreeView, kids: Seq<int>, n: int) -> Option<int>
    decreases n,
{
    if n <= 0 {
        None
    } else if !is_filler(t[kids[n - 1]].kind) {
        Some(kids[n - 1])
    } else {
        last_statement(t, kids, n - 1)
    }
}

/// The block `b` ends with a `return` statement.
pub open spec fn ends_with_return(t: TreeView, b: int) -> bool {
    match last_statement(t, children(t, b), children(t, b).len() as int) {
        Some(s) => t[s].kind == "return_statement"@,
        None => false,
    }
}

/// The body of branch `c` ends with a `return` statement.
pub open spec fn branch_returns(t: TreeView, c: int) -> bool {
    match field_child(t, c, "body"@) {
        Some(b) => ends_with_return(t, b),
        None => false,
    }
}

pub open spec fn elif_message() -> Seq<char> {
    "Unnecessary 'elif' after 'if' block that ends with 'return'. Use 'if' instead"@
}

pub open spec fn else_message() -> Seq<char> {
    "Unnecessary 'else' after 'if'/'elif' blocks that end with 'return'"@
}

/// The issues among the clauses `kids[k..]` of one `if`, where `all_return`
/// says whether every branch before them ends with `return`.
pub open spec fn clause_scan(t: TreeView, kids: Seq<int>, k: int, all_return: bool) -> Seq<
    IssueView,
>
    decreases kids.len() - k,
{
    if k >= kids.len() || k < 0 {
        seq![]
    } else {
        let c = kids[k];
        if t[c].kind == "elif_clause"@ {
            (if all_return {
                seq![issue_at(t, c, rule_id(), LintSeverity::Warning, elif_message())]
            } else {
                seq![]
            }) + clause_scan(t, kids, k + 1, all_return && branch_returns(t, c))
        } else if t[c].kind == "else_clause"@ {
            (if all_return {
                seq![issue_at(t, c, rule_id(), LintSeverity::Warning, else_message())]
            } else {
                seq![]
            }) + clause_scan(t, kids, k + 1, all_return)
        } else {
            clause_scan(t, kids, k + 1, all_return)
        }
    }
}

/// The issues that node `i` gives rise to.
pub open spec fn no_else_return_at(t: TreeView, i: int) -> Seq<IssueView> {
    if t[i].kind == "if_statement"@ {
        clause_scan(t, children(t, i), 0, branch_returns(t, i))
    } else {
        seq![]
    }
}

fn is_filler_node(tree: &SyntaxTree, j: usize) -> (r: bool)
    requires
        j < tree@.len(),
    ensures
        r == is_filler(tree@[j as int].kind),
{
    tree.kind_is(j, "_newline") || tree.kind_is(j, "_indent") || tree.kind_is(j, "_dedent")
        || tree.kind_is(j, "comment")
}

fn block_ends_with_return(tree: &SyntaxTree, b: usize) -> (r: bool)
    requires
        b < tree@.len(),
    ensures
        r == ends_with_return(tree@, b as int),
{
    let kids = tree.children(b);
    let ghost ck = children(tree@, b as int);
    proof {
        crate::tree::lemma_children_bounds(tree@, b as int);
    }
    let mut last: Option<usize> = None;
    let mut k: usize = 0;
    while k < kids.len()
        invariant
            kids@.map_values(|x: usize| x as int) == ck,
            ck == children(tree@, b as int),
            forall|m: int| 0 <= m < ck.len() ==> #[trigger] ck[m] < tree@.len(),
            k <= kids.len(),
            crate::tree::opt_int(last) == last_statement(tree@, ck, k as int),
            last matches Some(s) ==> s < tree@.len(),
        decreases kids.len() - k,
    {
        assert(ck[k as int] == kids@[k as int]);
        if !is_filler_node(tree, kids[k]) {
            last = Some(kids[k]);
        }
        k = k + 1;
    }
    match last {
        Some(s) => tree.kind_is(s, "return_statement"),
        None => false,
    }
}

fn body_returns(tree: &SyntaxTree, c: usize) -> (r: bool)
    requires
        c < tree@.len(),
    ensures
        r == branch_returns(tree@, c as int),
{
    proof {
        crate::tree::lemma_field_child_bounds(tree@, c as int, "body"@);
    }
    match tree.field_child(c, "body") {
        Some(b) => block_ends_with_return(tree, b),
        None => false,
    }
}

impl NoElseReturnRule {
    /// The issues that node `i` gives rise to.
    pub fn check_node(&self, tree: &SyntaxTree, i: usize) -> (r: Vec<LintIssue>)
        requires
            tree_wf(tree@),
            i < tree@.len(),
        ensures
            issues_view(r@) == no_else_return_at(tree@, i as int),
    {
        if !tree.kind_is(i, "if_statement") {
            return no_issue();
        }
        let mut all_return = body_returns(tree, i);
        let ghost start = all_return;
        let kids = tree.children(i);
        let ghost ck = children(tree@, i as int);
        proof {
            crate::tree::lemma_children_bounds(tree@, i as int);
        }
        let mut out = no_issue();
        let mut k: usize = 0;
        while k < kids.len()
            invariant
                tree_wf(tree@),
                kids@.map_values(|x: usize| x as int) == ck,
                ck == children(tree@, i as int),
                forall|m: int| 0 <= m < ck.len() ==> #[trigger] ck[m] < tree@.len(),
                k <= kids.len(),
                issues_view(out@) + clause_scan(tree@, ck, k as int, all_return) == clause_scan(
                    tree@,
                    ck,
                    0,
                    start,
                ),
            decreases kids.len() - k,
        {
            let c = kids[k];
            assert(ck[k as int] == c);
            if tree.kind_is(c, "elif_clause") {
                if all_return {
                    let m = String::from_str(
                        "Unnecessary 'elif' after 'if' block that ends with 'return'. Use 'if' instead",
                    );
                    append_issues(
                        &mut out,
                        single_issue(issue_at_node(tree, c, "no-else-return", LintSeverity::Warning, m)),
                    );
                }
                all_return = all_return && body_returns(tree, c);
            } else if tree.kind_is(c, "else_clause") {
                if all_return {
                    let m = String::from_str(
                        "Unnecessary 'else' after 'if'/'elif' blocks that end with 'return'",
                    );
                    append_issues(
                        &mut out,
                        single_issue(issue_at_node(tree, c, "no-else-return", LintSeverity::Warning, m)),
                    );
                }
            }
            k = k + 1;
        }
        out
    }
}

} // verus!
