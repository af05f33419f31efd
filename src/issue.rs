use vstd::prelude::*;
use crate::text::{decimal_spec, push_decimal};

verus! {

/// How serious a diagnostic is.
#[derive(Debug, Clone, Copy, PartialEq, Eq, Structural)]
pub enum LintSeverity {
    Error,
    Warning,
}

/// One diagnostic: a rule that a position of the source breaks.
#[derive(Debug, Clone)]
pub struct LintIssue {
    pub line: usize,
    pub column: usize,
    pub rule: String,
    pub severity: LintSeverity,
    pub message: String,
}

/// The mathematical content of a `LintIssue`.
pub struct IssueView {
    pub line: usize,
    pub column: usize,
    pub rule: Seq<char>,
    pub severity: LintSeverity,
    pub message: Seq<char>,
}

impl View for LintIssue {
    type V = IssueView;

    open spec fn view(&self) -> IssueView {
        IssueView {
            line: self.line,
            column: self.column,
            rule: self.rule@,
            severity: self.severity,
            message: self.message@,
        }
    }
}

/// The views of a sequence of issues.
pub open spec fn issues_view(v: Seq<LintIssue>) -> Seq<IssueView> {
    v.map_values(|x: LintIssue| x@)
}

/// The word that names a severity in machine-readable output.
pub open spec fn severity_word(s: LintSeverity) -> Seq<char> {
    match s {
        LintSeverity::Error => "error"@,
        LintSeverity::Warning => "warning"@,
    }
}

/// `<path>:<line>:<rule>:<severity>: <message>`.
pub open spec fn format_spec(i: IssueView, path: Seq<char>) -> Seq<char> {
    path + ":"@ + decimal_spec(i.line as nat) + ":"@ + i.rule + ":"@ + severity_word(i.severity)
        + ": "@ + i.message
}

impl LintIssue {
    pub fn new(
        line: usize,
        column: usize,
        rule: String,
        severity: LintSeverity,
        message: String,
    ) -> (r: Self)
        requires
            line >= 1,
            column >= 1,
        ensures
            r.line == line,
            r.column == column,
            r.rule@ == rule@,
            r.severity == severity,
            r.message@ == message@,
    {
        LintIssue { line, column, rule, severity, message }
    }

    /// The issue as one line of machine-readable output for the file `file_path`.
    pub fn format(&self, file_path: &str) -> (r: String)
        ensures
            r@ == format_spec(self@, file_path@),
    {
        let mut out = String::from_str(file_path);
        out.append(":");
        push_decimal(&mut out, self.line as u128);
        out.append(":");
        out.append(self.rule.as_str());
        out.append(":");
        match self.severity {
            LintSeverity::Error => out.append("error"),
            LintSeverity::Warning => out.append("warning"),
        }
        out.append(": ");
        out.append(self.message.as_str());
        out
    }
}

} // verus!
