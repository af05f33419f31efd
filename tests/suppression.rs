use gdscript_linter::issue::{LintIssue, LintSeverity};
use gdscript_linter::linter::{remove_suppressed, sort_issues};
use gdscript_linter::suppression::parse_suppressions;

fn chars(s: &str) -> Vec<char> {
    s.chars().collect()
}

#[test]
fn directive_on_its_own_line() {
    let map = parse_suppressions("var a = 1\nvar B = 2 # gdlint-ignore variable-name, class-name\n");
    assert_eq!(map.entries.len(), 1);
    assert_eq!(map.entries[0].line, 2);
    assert!(!map.entries[0].all);
    assert_eq!(map.entries[0].rules, vec![chars("variable-name"), chars("class-name")]);
}

#[test]
fn directive_for_the_next_line() {
    let map = parse_suppressions("# gdlint-ignore-next-line\nvar B = 2\n");
    assert_eq!(map.entries.len(), 1);
    assert_eq!(map.entries[0].line, 2);
    assert!(map.entries[0].all);
    assert!(map.entries[0].rules.is_empty());
}

#[test]
fn lookalike_comments_are_not_directives() {
    let map = parse_suppressions("# gdlint-ignored\n# note: gdlint-ignore\nvar a # gdlint-ignore-next-lines x\n");
    assert!(map.entries.is_empty());
}

fn issue(line: usize, column: usize, rule: &str) -> LintIssue {
    LintIssue::new(line, column, rule.to_string(), LintSeverity::Warning, String::new())
}

#[test]
fn filter_drops_only_the_named_rule_on_the_named_line() {
    let map = parse_suppressions("x\n# gdlint-ignore unused-argument\n");
    let issues = vec![
        issue(2, 1, "unused-argument"),
        issue(2, 3, "function-name"),
        issue(1, 1, "unused-argument"),
        issue(2, 9, "unused-argument"),
    ];
    let kept = remove_suppressed(issues, &map);
    let keys: Vec<(usize, usize, String)> = kept.iter().map(|i| (i.line, i.column, i.rule.clone())).collect();
    assert_eq!(
        keys,
        vec![(2, 3, "function-name".to_string()), (1, 1, "unused-argument".to_string())]
    );
}

#[test]
fn sort_keeps_equal_positions_in_order() {
    let sorted = sort_issues(vec![
        issue(3, 1, "a"),
        issue(1, 5, "b"),
        issue(1, 2, "c"),
        issue(3, 1, "d"),
        issue(1, 5, "e"),
    ]);
    let rules: Vec<&str> = sorted.iter().map(|i| i.rule.as_str()).collect();
    assert_eq!(rules, vec!["c", "b", "e", "a", "d"]);
}
