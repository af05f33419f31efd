use vstd::prelude::*;
use crate::text::str_eq;

verus! {

/// One node of a parsed syntax tree, with its position and source text.
#[derive(Debug)]
pub struct SyntaxNode {
    /// The grammar's name for the node's kind.
    pub kind: String,
    /// The name of the field that holds this node in its parent; empty when none.
    pub field: String,
    /// The source text that the node spans.
    pub text: String,
    /// The 1-based line of the node's first character.
    pub line: usize,
    /// The 1-based byte column of the node's first character.
    pub column: usize,
    /// The index of the parent node; meaningful for every node but the first.
    pub parent: usize,
}

/// The mathematical content of a `SyntaxNode`.
pub struct NodeView {
    pub kind: Seq<char>,
    pub field: Seq<char>,
    pub text: Seq<char>,
    pub line: usize,
    pub column: usize,
    pub parent: usize,
}

impl View for SyntaxNode {
    type V = NodeView;

    open spec fn view(&self) -> NodeView {
        NodeView {
            kind: self.kind@,
            field: self.field@,
            text: self.text@,
            line: self.line,
            column: self.column,
            parent: self.parent,
        }
    }
}

/// A syntax tree laid out in pre-order: node 0 is the root and every other
/// node points back at its parent.
#[derive(Debug)]
pub struct SyntaxTree {
    pub nodes: Vec<SyntaxNode>,
}

/// The nodes of a tree as plain values.
pub type TreeView = Seq<NodeView>;

impl View for SyntaxTree {
    type V = TreeView;

    open spec fn view(&self) -> TreeView {
        self.nodes@.map_values(|n: SyntaxNode| n@)
    }
}

/// Every node sits at a 1-based position.
pub open spec fn tree_wf(t: TreeView) -> bool {
    forall|i: int| 0 <= i < t.len() ==> #[trigger] t[i].line >= 1 && t[i].column >= 1
}

/// Node `j` is a child of node `p`.
pub open spec fn is_child(t: TreeView, p: int, j: int) -> bool {
    0 < j < t.len() && t[j].parent == p
}

/// The children of `p` among the nodes from index `j` on, in order.
pub open spec fn children_from(t: TreeView, p: int, j: int) -> Seq<int>
    decreases t.len() - j,
{
    if j >= t.len() || j < 0 {
        seq![]
    } else if is_child(t, p, j) {
        seq![j] + children_from(t, p, j + 1)
    } else {
        children_from(t, p, j + 1)
    }
}

/// The children of `p`, in order.
pub open spec fn children(t: TreeView, p: int) -> Seq<int> {
    children_from(t, p, p + 1)
}

/// The first child of `p` among `kids` whose field is `f`.
pub open spec fn first_with_field(t: TreeView, kids: Seq<int>, f: Seq<char>) -> Option<int>
    decreases kids.len(),
{
    if kids.len() == 0 {
        None
    } else if t[kids[0]].field == f {
        Some(kids[0])
    } else {
        first_with_field(t, kids.drop_first(), f)
    }
}

/// The first child of `p` held in field `f`.
pub open spec fn field_child(t: TreeView, p: int, f: Seq<char>) -> Option<int> {
    first_with_field(t, children(t, p), f)
}

/// The first child of `p`.
pub open spec fn first_child(t: TreeView, p: int) -> Option<int> {
    if children(t, p).len() > 0 {
        Some(children(t, p)[0])
    } else {
        None
    }
}

/// Node `j` lies in the subtree rooted at `b`.
pub open spec fn in_subtree(t: TreeView, b: int, j: int) -> bool
    decreases j,
{
    if j == b {
        true
    } else if b < j && 0 < j < t.len() && t[j].parent < j {
        in_subtree(t, b, t[j].parent as int)
    } else {
        false
    }
}

proof fn lemma_children_from_bounds(t: TreeView, p: int, j: int)
    ensures
        forall|k: int|
            0 <= k < children_from(t, p, j).len() ==> {
                let c = #[trigger] children_from(t, p, j)[k];
                &&& j <= c < t.len()
                &&& is_child(t, p, c)
            },
    decreases t.len() - j,
{
    if j < t.len() && j >= 0 {
        lemma_children_from_bounds(t, p, j + 1);
        let rest = children_from(t, p, j + 1);
        if is_child(t, p, j) {
            assert forall|k: int| 0 <= k < children_from(t, p, j).len() implies {
                let c = #[trigger] children_from(t, p, j)[k];
                &&& j <= c < t.len()
                &&& is_child(t, p, c)
            } by {
                if k > 0 {
                    assert(children_from(t, p, j)[k] == rest[k - 1]);
                }
            }
        }
    }
}

/// The children of `p` are real children of `p`.
pub proof fn lemma_children_bounds(t: TreeView, p: int)
    ensures
        forall|k: int|
            0 <= k < children(t, p).len() ==> {
                let c = #[trigger] children(t, p)[k];
                &&& p < c < t.len()
                &&& is_child(t, p, c)
            },
{
    lemma_children_from_bounds(t, p, p + 1);
}

proof fn lemma_first_with_field_bounds(t: TreeView, kids: Seq<int>, f: Seq<char>)
    requires
        forall|k: int| 0 <= k < kids.len() ==> 0 <= #[trigger] kids[k] < t.len(),
    ensures
        first_with_field(t, kids, f) matches Some(c) ==> 0 <= c < t.len(),
    decreases kids.len(),
{
    if kids.len() > 0 {
        assert forall|k: int| 0 <= k < kids.drop_first().len() implies 0 <= #[trigger] kids.drop_first()[k] < t.len() by {
            assert(kids.drop_first()[k] == kids[k + 1]);
        }
        lemma_first_with_field_bounds(t, kids.drop_first(), f);
    }
}

/// A child found by field, or the first child, is a node of the tree.
pub proof fn lemma_field_child_bounds(t: TreeView, p: int, f: Seq<char>)
    ensures
        field_child(t, p, f) matches Some(c) ==> p < c < t.len() && is_child(t, p, c),
        first_child(t, p) matches Some(c) ==> p < c < t.len() && is_child(t, p, c),
{
    lemma_children_bounds(t, p);
    lemma_first_with_field_in(t, children(t, p), f);
}

proof fn lemma_first_with_field_in(t: TreeView, kids: Seq<int>, f: Seq<char>)
    ensures
        first_with_field(t, kids, f) matches Some(c) ==> exists|k: int| 0 <= k < kids.len() && kids[k] == c,
    decreases kids.len(),
{
    if kids.len() > 0 && t[kids[0]].field != f {
        lemma_first_with_field_in(t, kids.drop_first(), f);
        if let Some(c) = first_with_field(t, kids, f) {
            let k = choose|k: int| 0 <= k < kids.drop_first().len() && kids.drop_first()[k] == c;
            assert(kids[k + 1] == c);
        }
    }
}

/// An optional index as a mathematical integer.
pub open spec fn opt_int(r: Option<usize>) -> Option<int> {
    match r {
        Some(x) => Some(x as int),
        None => None,
    }
}

impl SyntaxTree {
    /// The number of nodes.
    pub fn len(&self) -> (r: usize)
        ensures
            r == self@.len(),
    {
        self.nodes.len()
    }

    /// Whether node `i` has the kind `k`.
    pub fn kind_is(&self, i: usize, k: &str) -> (r: bool)
        requires
            i < self@.len(),
        ensures
            r == (self@[i as int].kind == k@),
    {
        str_eq(self.nodes[i].kind.as_str(), k)
    }

    /// Whether node `i` spans exactly the text `s`.
    pub fn text_is(&self, i: usize, s: &str) -> (r: bool)
        requires
            i < self@.len(),
        ensures
            r == (self@[i as int].text == s@),
    {
        str_eq(self.nodes[i].text.as_str(), s)
    }

    /// The children of `p`, in order.
    pub fn children(&self, p: usize) -> (r: Vec<usize>)
        requires
            p < self@.len(),
        ensures
            r@.map_values(|x: usize| x as int) == children(self@, p as int),
    {
        let n = self.nodes.len();
        let mut out: Vec<usize> = Vec::new();
        let mut j = p + 1;
        while j < n
            invariant
                n == self@.len(),
                p < j <= n,
                out@.map_values(|x: usize| x as int) + children_from(self@, p as int, j as int)
                    == children(self@, p as int),
            decreases n - j,
        {
            if self.nodes[j].parent == p {
                let ghost prev = out@;
                out.push(j);
                assert(out@.map_values(|x: usize| x as int) =~= prev.map_values(
                    |x: usize| x as int,
                ).push(j as int));
            }
            j = j + 1;
        }
        out
    }

    /// The first child of `p` held in field `f`.
    pub fn field_child(&self, p: usize, f: &str) -> (r: Option<usize>)
        requires
            p < self@.len(),
        ensures
            opt_int(r) == field_child(self@, p as int, f@),
    {
        let n = self.nodes.len();
        let mut j = p + 1;
        while j < n
            invariant
                n == self@.len(),
                p < j <= n,
                field_child(self@, p as int, f@) == first_with_field(
                    self@,
                    children_from(self@, p as int, j as int),
                    f@,
                ),
            decreases n - j,
        {
            let ghost rest = children_from(self@, p as int, j + 1);
            if self.nodes[j].parent == p {
                assert((seq![j as int] + rest).drop_first() =~= rest);
                if str_eq(self.nodes[j].field.as_str(), f) {
                    return Some(j);
                }
            }
            j = j + 1;
        }
        None
    }

    /// The first child of `p`.
    pub fn first_child(&self, p: usize) -> (r: Option<usize>)
        requires
            p < self@.len(),
        ensures
            opt_int(r) == first_child(self@, p as int),
    {
        let n = self.nodes.len();
        let mut j = p + 1;
        while j < n
            invariant
                n == self@.len(),
                p < j <= n,
                forall|k: int| p < k < j ==> !is_child(self@, p as int, k),
                children(self@, p as int) == children_from(self@, p as int, j as int),
            decreases n - j,
        {
            if self.nodes[j].parent == p {
                return Some(j);
            }
            j = j + 1;
        }
        None
    }
}

} // verus!
