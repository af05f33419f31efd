//! The catalogue of rules, in the order in which they run.

use vstd::prelude::*;
use crate::config::LinterConfig;
use crate::issue::{issues_view, IssueView, LintIssue};
use crate::rules::append_issues;
use crate::rules::class_name::{class_name_at, ClassNameRule};
use crate::rules::comparison_with_itself::{comparison_with_itself_at, ComparisonWithItselfRule};
use crate::rules::constant_name::{constant_name_at, ConstantNameRule};
use crate::rules::duplicated_load::{duplicated_load_issues, DuplicatedLoadRule};
use crate::rules::enum_member_name::{enum_member_name_at, EnumMemberNameRule};
use crate::rules::enum_name::{enum_name_at, EnumNameRule};
use crate::rules::function_argument_name::{function_argument_name_at, FunctionArgumentNameRule};
use crate::rules::function_name::{function_name_at, FunctionNameRule};
use crate::rules::loop_variable_name::{loop_variable_name_at, LoopVariableNameRule};
use crate::rules::max_line_length::{max_line_length_issues, MaxLineLengthRule};
use crate::rules::no_else_return::{no_else_return_at, NoElseReturnRule};
use crate::rules::private_access::{private_access_at, PrivateAccessRule};
use crate::rules::signal_name::{signal_name_at, SignalNameRule};
use crate::rules::standalone_expression::{standalone_expression_at, StandaloneExpressionRule};
use crate::rules::unnecessary_pass::{unnecessary_pass_at, UnnecessaryPassRule};
use crate::rules::unused_argument::{unused_argument_at, UnusedArgumentRule};
use crate::rules::variable_name::{variable_name_at, VariableNameRule};
use crate::tree::{tree_wf, SyntaxTree, TreeView};

verus! {

/// One check of the catalogue.
#[derive(Debug, Clone, Copy, PartialEq, Eq, Structural)]
pub enum Rule {
    DuplicatedLoad,
    StandaloneExpression,
    UnnecessaryPass,
    UnusedArgument,
    ComparisonWithItself,
    PrivateAccess,
    MaxLineLength,
    NoElseReturn,
    FunctionName,
    ClassName,
    SignalName,
    VariableName,
    FunctionArgumentName,
    LoopVariableName,
    EnumName,
    EnumMemberName,
    ConstantName,
}

/// Every rule, in the order in which they run.
pub open spec fn registry() -> Seq<Rule> {
    seq![
        Rule::DuplicatedLoad,
        Rule::StandaloneExpression,
        Rule::UnnecessaryPass,
        Rule::UnusedArgument,
        Rule::ComparisonWithItself,
        Rule::PrivateAccess,
        Rule::MaxLineLength,
        Rule::NoElseReturn,
        Rule::FunctionName,
        Rule::ClassName,
        Rule::SignalName,
        Rule::VariableName,
        Rule::FunctionArgumentName,
        Rule::LoopVariableName,
        Rule::EnumName,
        Rule::EnumMemberName,
        Rule::ConstantName,
    ]
}

/// The stable identifier of a rule.
pub open spec fn rule_name(r: Rule) -> Seq<char> {
    match r {
        Rule::DuplicatedLoad => "duplicated-load"@,
        Rule::StandaloneExpression => "standalone-expression"@,
        Rule::UnnecessaryPass => "unnecessary-pass"@,
        Rule::UnusedArgument => "unused-argument"@,
        Rule::ComparisonWithItself => "comparison-with-itself"@,
        Rule::PrivateAccess => "private-access"@,
        Rule::MaxLineLength => "max-line-length"@,
        Rule::NoElseReturn => "no-else-return"@,
        Rule::FunctionName => "function-name"@,
        Rule::ClassName => "class-name"@,
        Rule::SignalName => "signal-name"@,
        Rule::VariableName => "variable-name"@,
        Rule::FunctionArgumentName => "function-argument-name"@,
        Rule::LoopVariableName => "loop-variable-name"@,
        Rule::EnumName => "enum-name"@,
        Rule::EnumMemberName => "enum-member-name"@,
        Rule::ConstantName => "constant-name"@,
    }
}

/// The issues that node `i` gives rise to under a rule that looks at one node
/// at a time.
pub open spec fn node_rule_at(r: Rule, t: TreeView, i: int) -> Seq<IssueView> {
    match r {
        Rule::StandaloneExpression => standalone_expression_at(t, i),
        Rule::UnnecessaryPass => unnecessary_pass_at(t, i),
        Rule::UnusedArgument => unused_argument_at(t, i),
        Rule::ComparisonWithItself => comparison_with_itself_at(t, i),
        Rule::PrivateAccess => private_access_at(t, i),
        Rule::NoElseReturn => no_else_return_at(t, i),
        Rule::FunctionName => function_name_at(t, i),
        Rule::ClassName => class_name_at(t, i),
        Rule::SignalName => signal_name_at(t, i),
        Rule::VariableName => variable_name_at(t, i),
        Rule::FunctionArgumentName => function_argument_name_at(t, i),
        Rule::LoopVariableName => loop_variable_name_at(t, i),
        Rule::EnumName => enum_name_at(t, i),
        Rule::EnumMemberName => enum_member_name_at(t, i),
        Rule::ConstantName => constant_name_at(t, i),
        _ => seq![],
    }
}

/// The issues of the first `n` nodes, in pre-order.
pub open spec fn node_rule_upto(r: Rule, t: TreeView, n: int) -> Seq<IssueView>
    decreases n,
{
    if n <= 0 {
        seq![]
    } else {
        node_rule_upto(r, t, n - 1) + node_rule_at(r, t, n - 1)
    }
}

/// Everything that rule `r` reports on the tree `t` of the source text `s`.
pub open spec fn rule_output(r: Rule, t: TreeView, s: Seq<char>, max: usize) -> Seq<IssueView> {
    match r {
        Rule::DuplicatedLoad => duplicated_load_issues(t),
        Rule::MaxLineLength => max_line_length_issues(s, max),
        _ => node_rule_upto(r, t, t.len() as int),
    }
}

impl Rule {
    /// The stable identifier of the rule.
    pub fn name(&self) -> (r: &'static str)
        ensures
            r@ == rule_name(*self),
    {
        match self {
            Rule::DuplicatedLoad => "duplicated-load",
            Rule::StandaloneExpression => "standalone-expression",
            Rule::UnnecessaryPass => "unnecessary-pass",
            Rule::UnusedArgument => "unused-argument",
            Rule::ComparisonWithItself => "comparison-with-itself",
            Rule::PrivateAccess => "private-access",
            Rule::MaxLineLength => "max-line-length",
            Rule::NoElseReturn => "no-else-return",
            Rule::FunctionName => "function-name",
            Rule::ClassName => "class-name",
            Rule::SignalName => "signal-name",
            Rule::VariableName => "variable-name",
            Rule::FunctionArgumentName => "function-argument-name",
            Rule::LoopVariableName => "loop-variable-name",
            Rule::EnumName => "enum-name",
            Rule::EnumMemberName => "enum-member-name",
            Rule::ConstantName => "constant-name",
        }
    }

    /// Every rule, in the order in which they run.
    pub fn all() -> (r: Vec<Rule>)
        ensures
            r@ == registry(),
    {
        let r = vec![
            Rule::DuplicatedLoad,
            Rule::StandaloneExpression,
            Rule::UnnecessaryPass,
            Rule::UnusedArgument,
            Rule::ComparisonWithItself,
            Rule::PrivateAccess,
            Rule::MaxLineLength,
            Rule::NoElseReturn,
            Rule::FunctionName,
            Rule::ClassName,
            Rule::SignalName,
            Rule::VariableName,
            Rule::FunctionArgumentName,
            Rule::LoopVariableName,
            Rule::EnumName,
            Rule::EnumMemberName,
            Rule::ConstantName,
        ];
        assert(r@ =~= registry());
        r
    }

    fn check_node(&self, tree: &SyntaxTree, i: usize) -> (r: Vec<LintIssue>)
        requires
            tree_wf(tree@),
            i < tree@.len(),
        ensures
            issues_view(r@) == node_rule_at(*self, tree@, i as int),
    {
        match self {
            Rule::StandaloneExpression => StandaloneExpressionRule.check_node(tree, i),
            Rule::UnnecessaryPass => UnnecessaryPassRule.check_node(tree, i),
            Rule::UnusedArgument => UnusedArgumentRule.check_node(tree, i),
            Rule::ComparisonWithItself => ComparisonWithItselfRule.check_node(tree, i),
            Rule::PrivateAccess => PrivateAccessRule.check_node(tree, i),
            Rule::NoElseReturn => NoElseReturnRule.check_node(tree, i),
            Rule::FunctionName => FunctionNameRule.check_node(tree, i),
            Rule::ClassName => ClassNameRule.check_node(tree, i),
            Rule::SignalName => SignalNameRule.check_node(tree, i),
            Rule::VariableName => VariableNameRule.check_node(tree, i),
            Rule::FunctionArgumentName => FunctionArgumentNameRule.check_node(tree, i),
            Rule::LoopVariableName => LoopVariableNameRule.check_node(tree, i),
            Rule::EnumName => EnumNameRule.check_node(tree, i),
            Rule::EnumMemberName => EnumMemberNameRule.check_node(tree, i),
            Rule::ConstantName => ConstantNameRule.check_node(tree, i),
            _ => crate::rules::no_issue(),
        }
    }

    /// Runs the rule on a tree and the source text it was parsed from.
    pub fn check(&self, tree: &SyntaxTree, source: &str, config: &LinterConfig) -> (r: Vec<
        LintIssue,
    >)
        requires
            tree_wf(tree@),
        ensures
            issues_view(r@) == rule_output(*self, tree@, source@, config.max_line_length),
    {
        match self {
            Rule::DuplicatedLoad => DuplicatedLoadRule.check(tree),
            Rule::MaxLineLength => MaxLineLengthRule::new(config).check(source),
            _ => {
                let mut out = crate::rules::no_issue();
                let n = tree.len();
                let mut i: usize = 0;
                while i < n
                    invariant
                        tree_wf(tree@),
                        n == tree@.len(),
                        i <= n,
                        issues_view(out@) == node_rule_upto(*self, tree@, i as int),
                    decreases n - i,
                {
                    append_issues(&mut out, self.check_node(tree, i));
                    i = i + 1;
                }
                out
            },
        }
    }
}

} // verus!
