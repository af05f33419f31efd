use vstd::prelude::*;
use crate::config::LinterConfig;
use crate::issue::{issues_view, IssueView, LintIssue, LintSeverity};
use crate::rules::{append_issues, no_issue, single_issue};
use crate::text::{chars_of, decimal_spec, find_break, line_at, next_break, push_decimal};

verus! {

/// Flags every line wider than the configured maximum.
pub struct MaxLineLengthRule {
    pub max_line_length: usize,
}

pub open spec fn rule_id() -> Seq<char> {
    "max-line-length"@
}

/// The columns that `l` takes up, with a tab counted as four.
pub open spec fn display_width(l: Seq<char>) -> nat
    decreases l.len(),
{
    if l.len() == 0 {
        0
    } else {
        display_width(l.drop_last()) + if l.last() == '\t' {
            4nat
        } else {
            1nat
        }
    }
}

pub open spec fn long_line_message(width: nat, max: usize) -> Seq<char> {
    "Line is too long. Found "@ + decimal_spec(width) + " characters, maximum allowed is "@
        + decimal_spec(max as nat)
}

/// The issues of the lines of `s` from index `start` on, the first of them being
/// line number `line + 1`. A maximum of `usize::MAX` lets every line through.
pub open spec fn long_lines(s: Seq<char>, start: int, line: int, max: usize) -> Seq<IssueView>
    decreases s.len() - start,
{
    let e = next_break(s, start);
    if start >= s.len() || start < 0 || e < start {
        seq![]
    } else {
        let w = display_width(line_at(s, start));
        (if w > max && max < usize::MAX {
            seq![
                IssueView {
                    line: (line + 1) as usize,
                    column: (max + 1) as usize,
                    rule: rule_id(),
                    severity: LintSeverity::Warning,
                    message: long_line_message(w, max),
                },
            ]
        } else {
            seq![]
        }) + if e < s.len() {
            long_lines(s, e + 1, line + 1, max)
        } else {
            seq![]
        }
    }
}

/// The issues of the rule over the source text `s`.
pub open spec fn max_line_length_issues(s: Seq<char>, max: usize) -> Seq<IssueView> {
    long_lines(s, 0, 0, max)
}

fn width_of(s: &Vec<char>, start: usize, stop: usize) -> (w: u128)
    requires
        start <= stop <= s@.len(),
    ensures
        w as nat == display_width(s@.subrange(start as int, stop as int)),
        w <= 4 * (stop - start),
{
    let mut w: u128 = 0;
    let mut k = start;
    while k < stop
        invariant
            start <= k <= stop <= s@.len(),
            w as nat == display_width(s@.subrange(start as int, k as int)),
            w <= 4 * (k - start),
        decreases stop - k,
    {
        assert(s@.subrange(start as int, k + 1).drop_last() =~= s@.subrange(start as int, k as int));
        if s[k] == '\t' {
            w = w + 4;
        } else {
            w = w + 1;
        }
        k = k + 1;
    }
    w
}

impl MaxLineLengthRule {
    pub fn new(config: &LinterConfig) -> (r: Self)
        ensures
            r.max_line_length == config.max_line_length,
    {
        MaxLineLengthRule { max_line_length: config.max_line_length }
    }

    /// The issues of the rule over the source text.
    pub fn check(&self, source: &str) -> (r: Vec<LintIssue>)
        ensures
            issues_view(r@) == max_line_length_issues(source@, self.max_line_length),
    {
        let s = chars_of(source);
        let max = self.max_line_length;
        let mut out = no_issue();
        let mut start: usize = 0;
        let mut line: usize = 0;
        while start < s.len()
            invariant
                s@ == source@,
                max == self.max_line_length,
                line <= start <= s@.len(),
                issues_view(out@) + long_lines(s@, start as int, line as int, max) == long_lines(
                    s@,
                    0,
                    0,
                    max,
                ),
            decreases s.len() - start,
        {
            let e = find_break(&s, start);
            let stop = if e < s.len() && e > start && s[e - 1] == '\r' {
                e - 1
            } else {
                e
            };
            let w = width_of(&s, start, stop);
            assert(line_at(s@, start as int) == s@.subrange(start as int, stop as int));
            if w > max as u128 && max < usize::MAX {
                let mut m = String::from_str("Line is too long. Found ");
                push_decimal(&mut m, w);
                m.append(" characters, maximum allowed is ");
                push_decimal(&mut m, max as u128);
                let issue = LintIssue::new(
                    line + 1,
                    max + 1,
                    String::from_str("max-line-length"),
                    LintSeverity::Warning,
                    m,
                );
                append_issues(&mut out, single_issue(issue));
            }
            if e >= s.len() {
                assert(long_lines(s@, s@.len() as int, line + 1, max) =~= Seq::<IssueView>::empty());
                start = s.len();
            } else {
                start = e + 1;
            }
            line = line + 1;
        }
        out
    }
}

} // verus!
