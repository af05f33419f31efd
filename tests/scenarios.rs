use gdscript_linter::config::LinterConfig;
use gdscript_linter::issue::{LintIssue, LintSeverity};
use gdscript_linter::linter::{lint_gdscript, lint_gdscript_with_config};

fn lint(source: &str) -> Vec<LintIssue> {
    lint_gdscript(source, "test.gd").unwrap()
}

fn of_rule<'a>(issues: &'a [LintIssue], rule: &str) -> Vec<&'a LintIssue> {
    issues.iter().filter(|i| i.rule == rule).collect()
}

#[test]
fn function_name_in_pascal_case() {
    let issues = lint("func MyFunc():\n\tpass\n");
    assert_eq!(issues.len(), 1);
    assert_eq!(issues[0].rule, "function-name");
    assert_eq!(issues[0].severity, LintSeverity::Error);
    assert_eq!(issues[0].line, 1);
    assert_eq!(issues[0].column, 6);
    assert_eq!(
        issues[0].message,
        "Function name 'MyFunc' should be in snake_case, _private_snake_case format"
    );
    assert!(of_rule(&issues, "unnecessary-pass").is_empty());
}

#[test]
fn comparison_with_itself_in_condition() {
    let issues = lint("func f():\n\tif x == x:\n\t\treturn\n");
    assert_eq!(issues.len(), 1);
    assert_eq!(issues[0].rule, "comparison-with-itself");
    assert_eq!(issues[0].severity, LintSeverity::Warning);
    assert_eq!(issues[0].line, 2);
    assert_eq!(issues[0].column, 5);
    assert_eq!(
        issues[0].message,
        "Redundant comparison 'x == x' - comparing expression with itself"
    );
}

#[test]
fn comparison_with_itself_at_top_level() {
    let issues = lint("if x == x:\n\treturn\n");
    let found = of_rule(&issues, "comparison-with-itself");
    assert_eq!(found.len(), 1);
    assert_eq!(found[0].line, 1);
    assert_eq!(found[0].column, 4);
}

#[test]
fn same_resource_loaded_twice() {
    let issues = lint("var a = load(\"res://a.tres\")\nvar b = load(\"res://a.tres\")\n");
    assert_eq!(issues.len(), 2);
    for (issue, line) in issues.iter().zip([1usize, 2]) {
        assert_eq!(issue.rule, "duplicated-load");
        assert_eq!(issue.severity, LintSeverity::Warning);
        assert_eq!(issue.line, line);
        assert_eq!(issue.column, 14);
        assert_eq!(
            issue.message,
            "Duplicated load of '\"res://a.tres\"'. Consider extracting to a constant."
        );
    }
}

#[test]
fn line_of_eighty_characters_is_accepted() {
    let line = format!("#{}\n", "a".repeat(79));
    let config = LinterConfig { disabled_rules: Vec::new(), max_line_length: 100 };
    let issues = lint_gdscript_with_config(&line, "test.gd", &config).unwrap();
    assert!(of_rule(&issues, "max-line-length").is_empty());
}

#[test]
fn line_of_one_hundred_and_one_characters_is_flagged() {
    let line = format!("#{}\n", "a".repeat(100));
    let issues = lint(&line);
    assert_eq!(issues.len(), 1);
    assert_eq!(issues[0].rule, "max-line-length");
    assert_eq!(issues[0].severity, LintSeverity::Warning);
    assert_eq!(issues[0].line, 1);
    assert_eq!(issues[0].column, 101);
    assert_eq!(
        issues[0].message,
        "Line is too long. Found 101 characters, maximum allowed is 100"
    );
}

#[test]
fn unused_argument_is_named() {
    let issues = lint("func f(unused):\n\treturn 1\n");
    assert_eq!(issues.len(), 1);
    assert_eq!(issues[0].rule, "unused-argument");
    assert_eq!(issues[0].severity, LintSeverity::Warning);
    assert_eq!(issues[0].line, 1);
    assert_eq!(issues[0].column, 8);
    assert_eq!(
        issues[0].message,
        "Function argument 'unused' is unused. Consider removing it or prefixing with '_'"
    );
}

#[test]
fn underscore_argument_is_exempt() {
    let issues = lint("func f(_unused):\n\treturn 1\n");
    assert!(issues.is_empty());
}
