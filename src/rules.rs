//! The rules, one module each, and what they share: issues placed at a node,
//! messages that quote a name, and the name a parameter declares.

use vstd::prelude::*;
use crate::issue::{issues_view, IssueView, LintIssue, LintSeverity};
use crate::tree::{field_child, first_child, tree_wf, SyntaxTree, TreeView};

pub mod no_else_return;
pub mod unused_argument;
pub mod variable_name;
pub mod constant_name;
pub mod private_access;
pub mod function_argument_name;
pub mod enum_member_name;
pub mod standalone_expression;
pub mod unnecessary_pass;
pub mod loop_variable_name;
pub mod comparison_with_itself;
pub mod enum_name;
pub mod function_name;
pub mod signal_name;
pub mod class_name;
pub mod duplicated_load;
pub mod max_line_length;

verus! {

/// The issue that rule `rule` reports at the position of node `j`.
pub open spec fn issue_at(
    t: TreeView,
    j: int,
    rule: Seq<char>,
    severity: LintSeverity,
    message: Seq<char>,
) -> IssueView {
    IssueView { line: t[j].line, column: t[j].column, rule, severity, message }
}

/// `prefix`, then `name`, then `suffix`.
pub open spec fn message_with(prefix: Seq<char>, name: Seq<char>, suffix: Seq<char>) -> Seq<char> {
    prefix + name + suffix
}

/// Builds the message `prefix`, then `name`, then `suffix`.
pub fn build_message(prefix: &str, name: &str, suffix: &str) -> (r: String)
    ensures
        r@ == message_with(prefix@, name@, suffix@),
{
    let mut m = String::from_str(prefix);
    m.append(name);
    m.append(suffix);
    m
}

/// An issue of rule `rule` at the position of node `j`.
pub fn issue_at_node(
    tree: &SyntaxTree,
    j: usize,
    rule: &str,
    severity: LintSeverity,
    message: String,
) -> (r: LintIssue)
    requires
        tree_wf(tree@),
        j < tree@.len(),
    ensures
        r@ == issue_at(tree@, j as int, rule@, severity, message@),
{
    assert(tree@[j as int].line >= 1 && tree@[j as int].column >= 1);
    LintIssue::new(
        tree.nodes[j].line,
        tree.nodes[j].column,
        String::from_str(rule),
        severity,
        message,
    )
}

/// Appends `more` to `out`, keeping track of the views.
pub fn append_issues(out: &mut Vec<LintIssue>, more: Vec<LintIssue>)
    ensures
        issues_view(final(out)@) == issues_view(old(out)@) + issues_view(more@),
{
    let mut more = more;
    let ghost a = out@;
    let ghost b = more@;
    out.append(&mut more);
    assert(issues_view(a + b) =~= issues_view(a) + issues_view(b));
}

/// One issue, as a vector.
pub fn single_issue(i: LintIssue) -> (r: Vec<LintIssue>)
    ensures
        issues_view(r@) == seq![i@],
{
    let mut v = Vec::new();
    v.push(i);
    assert(issues_view(v@) =~= seq![i@]);
    v
}

/// No issue.
pub fn no_issue() -> (r: Vec<LintIssue>)
    ensures
        issues_view(r@) == Seq::<IssueView>::empty(),
{
    let v = Vec::new();
    assert(issues_view(v@) =~= Seq::<IssueView>::empty());
    v
}

/// A node that declares one parameter of a function.
pub open spec fn is_parameter_kind(k: Seq<char>) -> bool {
    k == "identifier"@ || k == "typed_parameter"@ || k == "default_parameter"@ || k
        == "typed_default_parameter"@
}

/// The name that a parameter-like node declares: its own text for a bare
/// identifier, else the text of its first child ("" when it has none).
pub open spec fn param_name(t: TreeView, p: int) -> Seq<char> {
    if t[p].kind == "identifier"@ {
        t[p].text
    } else {
        match first_child(t, p) {
            Some(c) => t[c].text,
            None => seq![],
        }
    }
}

/// The name that the parameter-like node `p` declares.
pub fn param_name_of<'a>(tree: &'a SyntaxTree, p: usize) -> (r: &'a str)
    requires
        p < tree@.len(),
    ensures
        r@ == param_name(tree@, p as int),
{
    proof {
        reveal_strlit("");
        crate::tree::lemma_field_child_bounds(tree@, p as int, seq![]);
    }
    if tree.kind_is(p, "identifier") {
        tree.nodes[p].text.as_str()
    } else {
        match tree.first_child(p) {
            Some(c) => tree.nodes[c].text.as_str(),
            None => "",
        }
    }
}

/// The text of the callee when node `v` is a call.
pub open spec fn callee(t: TreeView, v: int) -> Option<Seq<char>> {
    if t[v].kind == "call"@ {
        match first_child(t, v) {
            Some(f) => Some(t[f].text),
            None => None,
        }
    } else {
        None
    }
}

/// The value that declaration `i` is initialised with is a call of `f1` or `f2`.
pub open spec fn initialised_by_call(t: TreeView, i: int, f1: Seq<char>, f2: Seq<char>) -> bool {
    match field_child(t, i, "value"@) {
        Some(v) => match callee(t, v) {
            Some(f) => f == f1 || f == f2,
            None => false,
        },
        None => false,
    }
}

/// Whether the value of declaration `i` is a call of `f1` or `f2`.
pub fn is_initialised_by_call(tree: &SyntaxTree, i: usize, f1: &str, f2: &str) -> (r: bool)
    requires
        i < tree@.len(),
    ensures
        r == initialised_by_call(tree@, i as int, f1@, f2@),
{
    proof {
        crate::tree::lemma_field_child_bounds(tree@, i as int, "value"@);
    }
    match tree.field_child(i, "value") {
        Some(v) => {
            if !tree.kind_is(v, "call") {
                return false;
            }
            proof {
                crate::tree::lemma_field_child_bounds(tree@, v as int, seq![]);
            }
            match tree.first_child(v) {
                Some(f) => tree.text_is(f, f1) || tree.text_is(f, f2),
                None => false,
            }
        },
        None => false,
    }
}

} // verus!
