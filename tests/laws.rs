use gdscript_linter::config::LinterConfig;
use gdscript_linter::issue::LintIssue;
use gdscript_linter::linter::{lint_gdscript, lint_gdscript_with_config, GDScriptLinter};

const MIXED: &str = "var BadName = 1\nsignal BadSignal\nfunc F(Arg):\n\tif 1 == 1:\n\t\treturn 2\n\telse:\n\t\treturn 3\nconst x = 2\n";

fn key(i: &LintIssue) -> (usize, usize, String, String) {
    (i.line, i.column, i.rule.clone(), i.message.clone())
}

#[test]
fn two_passes_agree() {
    let mut linter = GDScriptLinter::new(LinterConfig::default()).unwrap();
    let first = linter.lint(MIXED, "a.gd").unwrap();
    let second = linter.lint(MIXED, "a.gd").unwrap();
    assert!(!first.is_empty());
    assert_eq!(
        first.iter().map(key).collect::<Vec<_>>(),
        second.iter().map(key).collect::<Vec<_>>()
    );
}

#[test]
fn issues_come_ordered_by_position() {
    let issues = lint_gdscript(MIXED, "a.gd").unwrap();
    assert!(issues.len() >= 5);
    for pair in issues.windows(2) {
        let (a, b) = (&pair[0], &pair[1]);
        assert!(a.line < b.line || (a.line == b.line && a.column <= b.column));
    }
}

#[test]
fn disabled_rule_reports_nothing() {
    let config = LinterConfig {
        disabled_rules: vec!["function-name".to_string(), "signal-name".to_string()],
        max_line_length: 100,
    };
    let issues = lint_gdscript_with_config(MIXED, "a.gd", &config).unwrap();
    assert!(issues.iter().all(|i| i.rule != "function-name" && i.rule != "signal-name"));
    assert!(issues.iter().any(|i| i.rule == "variable-name"));
    let all = lint_gdscript(MIXED, "a.gd").unwrap();
    assert!(all.iter().any(|i| i.rule == "function-name"));
    assert!(all.iter().any(|i| i.rule == "signal-name"));
}

#[test]
fn suppression_removes_exactly_its_rule_on_its_line() {
    let plain = "func MyFunc(BadArg):\n\treturn BadArg\n";
    let before = lint_gdscript(plain, "a.gd").unwrap();
    assert_eq!(before.len(), 2);
    let marked = "func MyFunc(BadArg):  # gdlint-ignore function-name\n\treturn BadArg\n";
    let after = lint_gdscript(marked, "a.gd").unwrap();
    assert_eq!(after.len(), 1);
    assert_eq!(after[0].rule, "function-argument-name");
    assert_eq!(after[0].line, 1);
}

#[test]
fn suppression_of_another_rule_keeps_the_issue() {
    let marked = "func MyFunc():  # gdlint-ignore signal-name\n\tpass\n";
    let issues = lint_gdscript(marked, "a.gd").unwrap();
    assert_eq!(issues.len(), 1);
    assert_eq!(issues[0].rule, "function-name");
}

#[test]
fn suppression_of_the_next_line() {
    let marked = "# gdlint-ignore-next-line function-name\nfunc MyFunc():\n\tpass\nfunc OtherFunc():\n\tpass\n";
    let issues = lint_gdscript(marked, "a.gd").unwrap();
    assert_eq!(issues.len(), 1);
    assert_eq!(issues[0].line, 4);
}

#[test]
fn suppression_of_every_rule() {
    let marked = "func MyFunc(BadArg):  # gdlint-ignore\n\treturn BadArg\n";
    let issues = lint_gdscript(marked, "a.gd").unwrap();
    assert!(issues.is_empty());
}

#[test]
fn clean_file_has_no_issues() {
    let source = "class_name MyClass\nextends Node\n\nsignal value_changed\n\nenum State {IDLE, RUNNING}\n\nconst MAX_SPEED = 10\nconst Scene = preload(\"res://scene.tscn\")\n\nvar speed = 1\nvar _hidden = 2\n\nfunc _ready():\n\tfor item in [1, 2]:\n\t\tspeed += item\n\n\nfunc move(delta, _unused):\n\tif delta > 0:\n\t\treturn delta\n\treturn speed\n";
    let issues = lint_gdscript(source, "a.gd").unwrap();
    assert!(issues.is_empty(), "{:?}", issues);
}

#[test]
fn empty_file_has_no_issues() {
    assert!(lint_gdscript("", "a.gd").unwrap().is_empty());
}

#[test]
fn triple_load_gives_three_issues() {
    let source = "var a = load(\"res://x.tres\")\nvar b = preload(\"res://x.tres\")\nvar c = load(\"res://x.tres\")\nvar d = load(\"res://y.tres\")\n";
    let issues = lint_gdscript(source, "a.gd").unwrap();
    let dup: Vec<_> = issues.iter().filter(|i| i.rule == "duplicated-load").collect();
    assert_eq!(dup.len(), 3);
    assert!(dup.iter().all(|i| i.message.contains("res://x.tres")));
    assert_eq!(dup.iter().map(|i| i.line).collect::<Vec<_>>(), vec![1, 2, 3]);
}

#[test]
fn single_load_gives_no_issue() {
    let source = "var a = load(\"res://x.tres\")\nvar b = load(\"res://y.tres\")\n";
    let issues = lint_gdscript(source, "a.gd").unwrap();
    assert!(issues.is_empty());
}

#[test]
fn disabling_one_more_rule_removes_only_its_issues() {
    let base = LinterConfig { disabled_rules: vec!["signal-name".to_string()], max_line_length: 100 };
    let more = LinterConfig {
        disabled_rules: vec!["signal-name".to_string(), "variable-name".to_string()],
        max_line_length: 100,
    };
    let before = lint_gdscript_with_config(MIXED, "a.gd", &base).unwrap();
    let after = lint_gdscript_with_config(MIXED, "a.gd", &more).unwrap();
    assert!(before.iter().any(|i| i.rule == "variable-name"));
    let expected: Vec<_> = before.iter().filter(|i| i.rule != "variable-name").map(key).collect();
    assert_eq!(after.iter().map(key).collect::<Vec<_>>(), expected);
}

#[test]
fn threshold_changes_only_line_length_issues() {
    let narrow = LinterConfig { disabled_rules: Vec::new(), max_line_length: 10 };
    let wide = LinterConfig { disabled_rules: Vec::new(), max_line_length: 100 };
    let a = lint_gdscript_with_config(MIXED, "a.gd", &narrow).unwrap();
    let b = lint_gdscript_with_config(MIXED, "a.gd", &wide).unwrap();
    assert!(a.iter().any(|i| i.rule == "max-line-length"));
    assert!(b.iter().all(|i| i.rule != "max-line-length"));
    let other = |v: &Vec<LintIssue>| v.iter().filter(|i| i.rule != "max-line-length").map(key).collect::<Vec<_>>();
    assert_eq!(other(&a), other(&b));
}

#[test]
fn linter_construction_succeeds_and_passes_repeat() {
    let mut linter = GDScriptLinter::new(LinterConfig::default()).unwrap();
    let first = linter.lint("func MyFunc():\n\tpass\n", "a.gd").unwrap();
    let second = linter.lint("func MyFunc():\n\tpass\n", "a.gd").unwrap();
    assert_eq!(first.len(), 1);
    assert_eq!(first.iter().map(key).collect::<Vec<_>>(), second.iter().map(key).collect::<Vec<_>>());
}
