use vstd::prelude::*;
use crate::issue::{issues_view, IssueView, LintIssue, LintSeverity};
use crate::rules::{append_issues, build_message, callee, issue_at, issue_at_node, message_with, no_issue, single_issue};
use crate::tree::{children, field_child, tree_wf, SyntaxTree, TreeView};

verus! {

/// Flags every load of a resource path that the file loads more than once.
pub struct DuplicatedLoadRule;

pub open spec fn rule_id() -> Seq<char> {
    "duplicated-load"@
}

pub open spec fn duplicate_message(path: Seq<char>) -> Seq<char> {
    message_with("Duplicated load of '"@, path, "'. Consider extracting to a constant."@)
}

/// Node `i` is a call of `load` or `preload`.
pub open spec fn is_load_call(t: TreeView, i: int) -> bool {
    match callee(t, i) {
        Some(f) => f == "load"@ || f == "preload"@,
        None => false,
    }
}

/// The string literals among `kids[k..]`.
pub open spec fn string_kids(t: TreeView, kids: Seq<int>, k: int) -> Seq<int>
    decreases kids.len() - k,
{
    if k >= kids.len() || k < 0 {
        seq![]
    } else {
        (if t[kids[k]].kind == "string"@ {
            seq![kids[k]]
        } else {
            seq![]
        }) + string_kids(t, kids, k + 1)
    }
}

/// The string literals that node `i` loads, when it is a load call.
pub open spec fn loaded_paths_at(t: TreeView, i: int) -> Seq<int> {
    if is_load_call(t, i) {
        match field_child(t, i, "arguments"@) {
            Some(a) => string_kids(t, children(t, a), 0),
            None => seq![],
        }
    } else {
        seq![]
    }
}

/// The load arguments among the first `n` nodes, in order.
pub open spec fn loads_upto(t: TreeView, n: int) -> Seq<int>
    decreases n,
{
    if n <= 0 {
        seq![]
    } else {
        loads_upto(t, n - 1) + loaded_paths_at(t, n - 1)
    }
}

/// Every string literal that the file hands to `load` or `preload`, in order.
pub open spec fn load_sites(t: TreeView) -> Seq<int> {
    loads_upto(t, t.len() as int)
}

/// How many of `sites[k..]` load the path `p`.
pub open spec fn path_count(t: TreeView, sites: Seq<int>, p: Seq<char>, k: int) -> nat
    decreases sites.len() - k,
{
    if k >= sites.len() || k < 0 {
        0
    } else {
        (if t[sites[k]].text == p {
            1nat
        } else {
            0nat
        }) + path_count(t, sites, p, k + 1)
    }
}

/// One issue for each of `sites[k..]` whose path the file loads more than once.
pub open spec fn duplicate_scan(t: TreeView, sites: Seq<int>, k: int) -> Seq<IssueView>
    decreases sites.len() - k,
{
    if k >= sites.len() || k < 0 {
        seq![]
    } else {
        let s = sites[k];
        (if path_count(t, sites, t[s].text, 0) > 1 {
            seq![issue_at(t, s, rule_id(), LintSeverity::Warning, duplicate_message(t[s].text))]
        } else {
            seq![]
        }) + duplicate_scan(t, sites, k + 1)
    }
}

/// The issues of the rule over the whole tree.
pub open spec fn duplicated_load_issues(t: TreeView) -> Seq<IssueView> {
    duplicate_scan(t, load_sites(t), 0)
}

impl DuplicatedLoadRule {
    fn loaded_paths(&self, tree: &SyntaxTree, i: usize) -> (r: Vec<usize>)
        requires
            i < tree@.len(),
        ensures
            r@.map_values(|x: usize| x as int) == loaded_paths_at(tree@, i as int),
            forall|k: int| 0 <= k < r@.len() ==> #[trigger] r@[k] < tree@.len(),
    {
        let mut out: Vec<usize> = Vec::new();
        assert(out@.map_values(|x: usize| x as int) =~= Seq::<int>::empty());
        proof {
            crate::tree::lemma_field_child_bounds(tree@, i as int, seq![]);
            crate::tree::lemma_field_child_bounds(tree@, i as int, "arguments"@);
        }
        if !tree.kind_is(i, "call") {
            return out;
        }
        let is_load = match tree.first_child(i) {
            Some(f) => tree.text_is(f, "load") || tree.text_is(f, "preload"),
            None => false,
        };
        if !is_load {
            return out;
        }
        let a = match tree.field_child(i, "arguments") {
            Some(a) => a,
            None => return out,
        };
        let kids = tree.children(a);
        let ghost ck = children(tree@, a as int);
        proof {
            crate::tree::lemma_children_bounds(tree@, a as int);
        }
        let mut k: usize = 0;
        while k < kids.len()
            invariant
                kids@.map_values(|x: usize| x as int) == ck,
                forall|m: int| 0 <= m < ck.len() ==> #[trigger] ck[m] < tree@.len(),
                k <= kids.len(),
                out@.map_values(|x: usize| x as int) + string_kids(tree@, ck, k as int)
                    == string_kids(tree@, ck, 0),
                forall|m: int| 0 <= m < out@.len() ==> #[trigger] out@[m] < tree@.len(),
            decreases kids.len() - k,
        {
            let c = kids[k];
            assert(ck[k as int] == c);
            if tree.kind_is(c, "string") {
                let ghost prev = out@;
                out.push(c);
                assert(out@.map_values(|x: usize| x as int) =~= prev.map_values(
                    |x: usize| x as int,
                ).push(c as int));
            }
            k = k + 1;
        }
        out
    }

    /// Every string literal handed to `load` or `preload`, in order.
    fn sites(&self, tree: &SyntaxTree) -> (r: Vec<usize>)
        ensures
            r@.map_values(|x: usize| x as int) == load_sites(tree@),
            forall|k: int| 0 <= k < r@.len() ==> #[trigger] r@[k] < tree@.len(),
    {
        let mut out: Vec<usize> = Vec::new();
        let n = tree.len();
        let mut i: usize = 0;
        assert(out@.map_values(|x: usize| x as int) =~= loads_upto(tree@, 0));
        while i < n
            invariant
                n == tree@.len(),
                i <= n,
                out@.map_values(|x: usize| x as int) == loads_upto(tree@, i as int),
                forall|m: int| 0 <= m < out@.len() ==> #[trigger] out@[m] < tree@.len(),
            decreases n - i,
        {
            let mut more = self.loaded_paths(tree, i);
            let ghost a = out@;
            let ghost b = more@;
            out.append(&mut more);
            assert(out@.map_values(|x: usize| x as int) =~= a.map_values(|x: usize| x as int)
                + b.map_values(|x: usize| x as int));
            assert(forall|m: int| 0 <= m < out@.len() ==> #[trigger] out@[m] < tree@.len()) by {
                assert(forall|m: int| 0 <= m < a.len() ==> out@[m] == a[m]);
                assert(forall|m: int| a.len() <= m < out@.len() ==> out@[m] == b[m - a.len()]);
            }
            i = i + 1;
        }
        out
    }

    /// The issues of the rule over the whole tree.
    pub fn check(&self, tree: &SyntaxTree) -> (r: Vec<LintIssue>)
        requires
            tree_wf(tree@),
        ensures
            issues_view(r@) == duplicated_load_issues(tree@),
    {
        let sites = self.sites(tree);
        let ghost ss = load_sites(tree@);
        let mut out = no_issue();
        let mut k: usize = 0;
        while k < sites.len()
            invariant
                tree_wf(tree@),
                sites@.map_values(|x: usize| x as int) == ss,
                ss == load_sites(tree@),
                forall|m: int| 0 <= m < sites@.len() ==> #[trigger] sites@[m] < tree@.len(),
                k <= sites.len(),
                issues_view(out@) + duplicate_scan(tree@, ss, k as int) == duplicate_scan(
                    tree@,
                    ss,
                    0,
                ),
            decreases sites.len() - k,
        {
            let s = sites[k];
            assert(ss[k as int] == s);
            let path = tree.nodes[s].text.as_str();
            let mut count: usize = 0;
            let mut m: usize = 0;
            while m < sites.len()
                invariant
                    sites@.map_values(|x: usize| x as int) == ss,
                    forall|q: int| 0 <= q < sites@.len() ==> #[trigger] sites@[q] < tree@.len(),
                    m <= sites.len(),
                    count <= m,
                    count + path_count(tree@, ss, path@, m as int) == path_count(
                        tree@,
                        ss,
                        path@,
                        0,
                    ),
                decreases sites.len() - m,
            {
                assert(ss[m as int] == sites@[m as int]);
                if tree.text_is(sites[m], path) {
                    count = count + 1;
                }
                m = m + 1;
            }
            if count > 1 {
                let msg = build_message(
                    "Duplicated load of '",
                    path,
                    "'. Consider extracting to a constant.",
                );
                append_issues(
                    &mut out,
                    single_issue(issue_at_node(tree, s, "duplicated-load", LintSeverity::Warning, msg)),
                );
            }
            k = k + 1;
        }
        out
    }
}

} // verus!
