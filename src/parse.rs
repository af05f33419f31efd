//! The tree-sitter boundary: a parser loaded with the GDScript grammar, the
//! trees it builds, and the verified reading of such a tree into a
//! `SyntaxTree`.

use vstd::prelude::*;
use tree_sitter::{LanguageError, Parser, Tree, TreeCursor};
use crate::tree::{tree_wf, NodeView, SyntaxNode, SyntaxTree, TreeView};

verus! {

#[verifier::external_type_specification]
#[verifier::external_body]
pub struct ExParser(tree_sitter::Parser);

#[verifier::external_type_specification]
#[verifier::external_body]
pub struct ExTree(tree_sitter::Tree);

#[verifier::external_type_specification]
#[verifier::external_body]
pub struct ExTreeCursor<'a>(tree_sitter::TreeCursor<'a>);

#[verifier::external_type_specification]
#[verifier::external_body]
pub struct ExLanguageError(tree_sitter::LanguageError);

/// One node of the tree that the GDScript grammar gives for a text, as the
/// tree-sitter cursor reports it.
pub struct ParsedNode {
    /// The grammar's name for the node's kind.
    pub kind: Seq<char>,
    /// The field that holds the node in its parent; empty when none.
    pub field: Seq<char>,
    /// The text that the node spans.
    pub text: Seq<char>,
    /// The 0-based row of the node's start.
    pub row: u32,
    /// The 0-based byte column of the node's start.
    pub column: u32,
    /// How far below the root the node lies.
    pub depth: u32,
}

/// The nodes, in pre-order, of the tree that tree-sitter's GDScript grammar
/// builds from `source`.
pub uninterp spec fn gdscript_tree(source: Seq<char>) -> Seq<ParsedNode>;

/// A parser loaded with the GDScript grammar.
pub struct GdParser {
    parser: Parser,
}

/// A parsed source file: the tree, and the text it was parsed from.
pub struct GdTree {
    tree: Tree,
    source: String,
}

impl GdTree {
    /// The text the tree was parsed from.
    pub closed spec fn text(&self) -> Seq<char> {
        self.source@
    }
}

/// A cursor on one node of a parsed file.
pub struct NodeAt<'a> {
    tree: &'a GdTree,
    cursor: TreeCursor<'a>,
    index: usize,
}

impl<'a> NodeAt<'a> {
    /// The text of the file the cursor walks.
    pub closed spec fn text(&self) -> Seq<char> {
        self.tree.source@
    }

    /// The pre-order index of the node the cursor is on.
    pub closed spec fn index(&self) -> usize {
        self.index
    }
}

/// Relies on tree_sitter's `Parser::new`: a parser with no language yet.
#[verifier::external_body]
fn new_parser() -> (r: Parser) {
    Parser::new()
}

/// Relies on tree_sitter's `Parser::set_language`, handed the grammar of
/// tree_sitter_gdscript. It fails only when the grammar's ABI version lies
/// outside what the parser accepts; the grammar of tree_sitter_gdscript 6.1.0
/// has ABI 14, and tree_sitter 0.25 accepts 13 to 15.
#[verifier::external_body]
fn set_gdscript_language(p: &mut Parser) -> (r: Result<(), LanguageError>)
    ensures
        r is Ok,
{
    p.set_language(&tree_sitter_gdscript::LANGUAGE.into())
}

impl GdParser {
    /// A parser loaded with the GDScript grammar.
    pub fn new() -> (r: GdParser) {
        let mut parser = new_parser();
        let loaded = set_gdscript_language(&mut parser);
        assert(loaded is Ok);
        GdParser { parser }
    }
}

/// Relies on tree_sitter's `Parser::parse`: with a language set and no
/// timeout, cancellation flag or progress callback, it always returns a tree.
#[verifier::external_body]
fn parse_text(p: &mut GdParser, source: &str) -> (r: Option<GdTree>)
    ensures
        r is Some,
        r->Some_0.text() == source@,
{
    match p.parser.parse(source, None) {
        Some(tree) => Some(GdTree { tree, source: source.to_string() }),
        None => None,
    }
}

/// Relies on tree_sitter's `Node::descendant_count` of the root: the number of
/// nodes in the tree, the root included.
#[verifier::external_body]
fn node_count(t: &GdTree) -> (r: usize)
    ensures
        r == gdscript_tree(t.text()).len(),
{
    t.tree.root_node().descendant_count()
}

/// Relies on tree_sitter's `Tree::walk`: a cursor on the root, node 0.
#[verifier::external_body]
fn cursor_at_root<'a>(t: &'a GdTree) -> (r: NodeAt<'a>)
    ensures
        r.text() == t.text(),
        r.index() == 0,
{
    NodeAt { tree: t, cursor: t.tree.walk(), index: 0 }
}

/// Relies on tree_sitter's `TreeCursor::goto_descendant`: moves to the node with
/// the given pre-order index.
#[verifier::external_body]
fn goto_node(c: &mut NodeAt<'_>, i: usize)
    ensures
        final(c).text() == old(c).text(),
        final(c).index() == i,
{
    c.cursor.goto_descendant(i);
    c.index = i;
}

/// Relies on tree_sitter's `TreeCursor::depth`: how far below the root the
/// cursor's node lies.
#[verifier::external_body]
fn node_depth(c: &NodeAt<'_>) -> (r: u32)
    requires
        c.index() < gdscript_tree(c.text()).len(),
    ensures
        r == gdscript_tree(c.text())[c.index() as int].depth,
{
    c.cursor.depth()
}

/// Relies on tree_sitter's `Node::kind` of the cursor's node.
#[verifier::external_body]
fn node_kind(c: &NodeAt<'_>) -> (r: String)
    requires
        c.index() < gdscript_tree(c.text()).len(),
    ensures
        r@ == gdscript_tree(c.text())[c.index() as int].kind,
{
    c.cursor.node().kind().to_string()
}

/// Relies on tree_sitter's `TreeCursor::field_name`; no field gives "".
#[verifier::external_body]
fn node_field(c: &NodeAt<'_>) -> (r: String)
    requires
        c.index() < gdscript_tree(c.text()).len(),
    ensures
        r@ == gdscript_tree(c.text())[c.index() as int].field,
{
    c.cursor.field_name().unwrap_or("").to_string()
}

/// Relies on tree_sitter's `Node::start_position` of the cursor's node: the
/// 0-based row and byte column, which tree-sitter keeps as `u32`.
#[verifier::external_body]
fn node_start(c: &NodeAt<'_>) -> (r: (usize, usize))
    requires
        c.index() < gdscript_tree(c.text()).len(),
    ensures
        r.0 == gdscript_tree(c.text())[c.index() as int].row as usize,
        r.1 == gdscript_tree(c.text())[c.index() as int].column as usize,
{
    let p = c.cursor.node().start_position();
    (p.row, p.column)
}

/// Relies on tree_sitter's `Node::start_byte` and `Node::end_byte` of the
/// cursor's node, and std's `str::get`: the text that the node spans.
#[verifier::external_body]
fn node_text(c: &NodeAt<'_>) -> (r: String)
    requires
        c.index() < gdscript_tree(c.text()).len(),
    ensures
        r@ == gdscript_tree(c.text())[c.index() as int].text,
{
    let n = c.cursor.node();
    c.tree.source.get(n.start_byte()..n.end_byte()).unwrap_or("").to_string()
}

/// The last node before `j + 1` that lies shallower than node `i`, or 0.
pub open spec fn nearest_shallower(m: Seq<ParsedNode>, i: int, j: int) -> int
    decreases j + 1,
{
    if j < 0 {
        0
    } else if m[j].depth < m[i].depth {
        j
    } else {
        nearest_shallower(m, i, j - 1)
    }
}

/// The parent of node `i`: in pre-order, the last node before it that lies
/// shallower. The root, node 0, is its own.
pub open spec fn parsed_parent(m: Seq<ParsedNode>, i: int) -> int {
    if i <= 0 {
        0
    } else {
        nearest_shallower(m, i, i - 1)
    }
}

/// A 0-based position counted from 1; the largest `usize` stays as it is.
pub open spec fn from_one(x: usize) -> usize {
    if x < usize::MAX {
        (x + 1) as usize
    } else {
        x
    }
}

/// Node `i` of `m` as a node of a `SyntaxTree`.
pub open spec fn node_view_of(m: Seq<ParsedNode>, i: int) -> NodeView {
    NodeView {
        kind: m[i].kind,
        field: m[i].field,
        text: m[i].text,
        line: from_one(m[i].row as usize),
        column: from_one(m[i].column as usize),
        parent: parsed_parent(m, i) as usize,
    }
}

/// The `SyntaxTree` of the parsed nodes `m`.
pub open spec fn tree_of(m: Seq<ParsedNode>) -> TreeView {
    Seq::new(m.len(), |i: int| node_view_of(m, i))
}

/// The `SyntaxTree` that the GDScript grammar gives for `source`.
pub open spec fn parsed_tree(source: Seq<char>) -> TreeView {
    tree_of(gdscript_tree(source))
}

proof fn lemma_nearest_shallower_bounds(m: Seq<ParsedNode>, i: int, j: int)
    requires
        0 <= i < m.len(),
        j < m.len(),
    ensures
        0 <= nearest_shallower(m, i, j),
        j >= 0 ==> nearest_shallower(m, i, j) <= j,
        forall|k: int|
            nearest_shallower(m, i, j) < k <= j ==> #[trigger] m[k].depth >= m[i].depth,
    decreases j + 1,
{
    if j >= 0 && m[j].depth >= m[i].depth {
        lemma_nearest_shallower_bounds(m, i, j - 1);
    }
}

proof fn lemma_nearest_shallower_skip(m: Seq<ParsedNode>, i: int, a: int, b: int)
    requires
        0 <= i < m.len(),
        -1 <= a <= b < m.len(),
        forall|k: int| a < k <= b ==> #[trigger] m[k].depth >= m[i].depth,
    ensures
        nearest_shallower(m, i, b) == nearest_shallower(m, i, a),
    decreases b - a,
{
    if a < b {
        lemma_nearest_shallower_skip(m, i, a, b - 1);
    }
}

impl GdParser {
    /// Parses `source` into a `SyntaxTree`: exactly the tree that the GDScript
    /// grammar gives for it.
    pub fn parse(&mut self, source: &str) -> (r: SyntaxTree)
        ensures
            r@ == parsed_tree(source@),
            tree_wf(r@),
    {
        match parse_text(self, source) {
            Some(t) => syntax_tree_of(&t),
            None => SyntaxTree { nodes: Vec::new() },
        }
    }
}

/// Reads a parsed tree into a `SyntaxTree`: its nodes in pre-order, each with
/// the index of its parent.
pub fn syntax_tree_of(t: &GdTree) -> (r: SyntaxTree)
    ensures
        r@ == parsed_tree(t.text()),
        tree_wf(r@),
{
    let ghost m = gdscript_tree(t.text());
    let n = node_count(t);
    let mut c = cursor_at_root(t);
    let mut nodes: Vec<SyntaxNode> = Vec::new();
    let mut depths: Vec<u32> = Vec::new();
    let mut i: usize = 0;
    while i < n
        invariant
            n == m.len(),
            m == gdscript_tree(t.text()),
            c.text() == t.text(),
            i <= n,
            nodes@.len() == i,
            depths@.len() == i,
            forall|k: int| 0 <= k < i ==> #[trigger] depths@[k] == m[k].depth,
            forall|k: int| 0 <= k < i ==> #[trigger] nodes@[k]@ == node_view_of(m, k),
        decreases n - i,
    {
        goto_node(&mut c, i);
        let d = node_depth(&c);
        let mut parent: usize = 0;
        if i > 0 {
            let mut j: usize = i - 1;
            proof {
                lemma_nearest_shallower_bounds(m, i as int, i - 1);
            }
            while j > 0 && depths[j] >= d
                invariant
                    0 <= j < i,
                    i < m.len(),
                    d == m[i as int].depth,
                    nodes@.len() == i,
                    depths@.len() == i,
                    forall|k: int| 0 <= k < i ==> #[trigger] depths@[k] == m[k].depth,
                    forall|k: int| 0 <= k < i ==> #[trigger] nodes@[k]@ == node_view_of(m, k),
                    nearest_shallower(m, i as int, i - 1) == nearest_shallower(m, i as int, j as int),
                decreases j,
            {
                let p = nodes[j].parent;
                proof {
                    assert(nodes@[j as int]@ == node_view_of(m, j as int));
                    lemma_nearest_shallower_bounds(m, j as int, j - 1);
                    assert forall|k: int| p < k <= j implies #[trigger] m[k].depth >= m[i as int].depth by {
                        if k < j {
                            assert(m[k].depth >= m[j as int].depth);
                        }
                    }
                    lemma_nearest_shallower_skip(m, i as int, p as int, j as int);
                }
                j = p;
            }
            proof {
                assert(depths@[j as int] == m[j as int].depth);
                if j > 0 {
                    assert(nearest_shallower(m, i as int, j as int) == j as int);
                } else if m[0].depth < d {
                    assert(nearest_shallower(m, i as int, 0) == 0);
                } else {
                    assert(nearest_shallower(m, i as int, 0) == nearest_shallower(m, i as int, -1));
                }
            }
            parent = j;
        }
        let (row, col) = node_start(&c);
        let node = SyntaxNode {
            kind: node_kind(&c),
            field: node_field(&c),
            text: node_text(&c),
            line: if row < usize::MAX {
                row + 1
            } else {
                row
            },
            column: if col < usize::MAX {
                col + 1
            } else {
                col
            },
            parent,
        };
        assert(node@ == node_view_of(m, i as int));
        nodes.push(node);
        depths.push(d);
        i = i + 1;
    }
    let st = SyntaxTree { nodes };
    assert(st@ =~= tree_of(m)) by {
        assert forall|k: int| 0 <= k < st@.len() implies st@[k] == tree_of(m)[k] by {
            assert(st@[k] == st.nodes@[k]@);
        }
    }
    assert(tree_wf(st@)) by {
        assert forall|k: int| 0 <= k < st@.len() implies #[trigger] st@[k].line >= 1
            && st@[k].column >= 1 by {
            assert(st@[k] == st.nodes@[k]@);
        }
    }
    st
}

} // verus!
