use gdscript_linter::config::LinterConfig;
use gdscript_linter::issue::{LintIssue, LintSeverity};
use gdscript_linter::linter::{lint_gdscript, lint_gdscript_with_config};
use gdscript_linter::registry::Rule;
use gdscript_linter::rules::constant_name::ConstantNameRule;
use gdscript_linter::rules::enum_member_name::EnumMemberNameRule;
use gdscript_linter::rules::enum_name::EnumNameRule;
use gdscript_linter::rules::function_argument_name::FunctionArgumentNameRule;
use gdscript_linter::rules::function_name::FunctionNameRule;
use gdscript_linter::rules::loop_variable_name::LoopVariableNameRule;
use gdscript_linter::rules::max_line_length::MaxLineLengthRule;
use gdscript_linter::rules::signal_name::SignalNameRule;
use gdscript_linter::rules::variable_name::VariableNameRule;
use gdscript_linter::tree::{SyntaxNode, SyntaxTree};

fn only(source: &str, rule: &str) -> Vec<LintIssue> {
    lint_gdscript(source, "t.gd")
        .unwrap()
        .into_iter()
        .filter(|i| i.rule == rule)
        .collect()
}

#[test]
fn class_name_must_be_pascal_case() {
    let found = only("class_name my_class\n", "class-name");
    assert_eq!(found.len(), 1);
    assert_eq!((found[0].line, found[0].column), (1, 12));
    assert_eq!(found[0].severity, LintSeverity::Error);
    assert_eq!(found[0].message, "Class name 'my_class' should be in PascalCase format");
    assert!(only("class_name MyClass\n", "class-name").is_empty());
}

#[test]
fn enum_name_must_be_pascal_case() {
    let found = only("enum my_enum {A, B}\n", "enum-name");
    assert_eq!(found.len(), 1);
    assert_eq!((found[0].line, found[0].column), (1, 6));
    assert_eq!(found[0].message, "Enum name 'my_enum' should be in PascalCase format");
    assert!(only("enum MyEnum {A, B}\n", "enum-name").is_empty());
}

#[test]
fn enum_members_must_be_constant_case() {
    let found = only("enum Named {a_value, B_VALUE, other}\n", "enum-member-name");
    assert_eq!(found.len(), 2);
    assert_eq!(found[0].message, "Enum element name 'a_value' should be in CONSTANT_CASE format");
    assert_eq!(found[1].message, "Enum element name 'other' should be in CONSTANT_CASE format");
    assert_eq!((found[0].line, found[0].column), (1, 13));
    assert!(only("enum {}\n", "enum-member-name").is_empty());
}

#[test]
fn constant_names() {
    let found = only("const my_const = 1\n", "constant-name");
    assert_eq!(found.len(), 1);
    assert_eq!(found[0].message, "Constant name 'my_const' should be in CONSTANT_CASE format");
    assert!(only("const MY_CONST = 1\nconst _HIDDEN = 2\n", "constant-name").is_empty());
    assert!(only("const Scene = preload(\"res://s.tscn\")\n", "constant-name").is_empty());
    let found = only("const bad_scene = preload(\"res://s.tscn\")\n", "constant-name");
    assert_eq!(
        found[0].message,
        "Preload constant name 'bad_scene' should be in PascalCase or CONSTANT_CASE format"
    );
    assert_eq!(only("const Scene = load(\"res://s.tscn\")\n", "constant-name").len(), 1);
}

#[test]
fn variable_names() {
    let found = only("var MyVar = 1\n", "variable-name");
    assert_eq!(found.len(), 1);
    assert_eq!((found[0].line, found[0].column), (1, 5));
    assert_eq!(
        found[0].message,
        "Variable name 'MyVar' should be in snake_case or _private_snake_case format"
    );
    assert!(only("var Scene = load(\"res://s.tscn\")\n", "variable-name").is_empty());
    let found = only("var BAD_NAME = load(\"res://s.tscn\")\n", "variable-name");
    assert_eq!(
        found[0].message,
        "Variable name 'BAD_NAME' should be in PascalCase, snake_case or _private_snake_case format"
    );
    assert!(only("var _private_thing = 3\n", "variable-name").is_empty());
}

#[test]
fn argument_names() {
    let found = only("func f(BadArg, good, Typed: int, Default = 1):\n\treturn [BadArg, good, Typed, Default]\n", "function-argument-name");
    assert_eq!(found.len(), 3);
    assert_eq!(
        found[0].message,
        "Function argument 'BadArg' should be in snake_case or _private_snake_case format"
    );
    assert_eq!(found[1].message.contains("'Typed'"), true);
    assert_eq!(found[2].message.contains("'Default'"), true);
    assert_eq!((found[0].line, found[0].column), (1, 8));
}

#[test]
fn loop_variables() {
    let found = only("func f():\n\tfor Item in [1]:\n\t\tprint(Item)\n", "loop-variable-name");
    assert_eq!(found.len(), 1);
    assert_eq!((found[0].line, found[0].column), (2, 6));
    assert_eq!(found[0].message, "Loop variable 'Item' should be in snake_case format");
    assert!(only("func f():\n\tfor item in [1]:\n\t\tprint(item)\n", "loop-variable-name").is_empty());
}

#[test]
fn signal_names() {
    let found = only("signal MySignal\n", "signal-name");
    assert_eq!(found.len(), 1);
    assert_eq!((found[0].line, found[0].column), (1, 8));
    assert_eq!(found[0].message, "Signal name 'MySignal' should be in snake_case format");
}

#[test]
fn else_after_return() {
    let found = only("func f(x):\n\tif x:\n\t\treturn 1\n\telse:\n\t\treturn 2\n", "no-else-return");
    assert_eq!(found.len(), 1);
    assert_eq!((found[0].line, found[0].column), (4, 2));
    assert_eq!(
        found[0].message,
        "Unnecessary 'else' after 'if'/'elif' blocks that end with 'return'"
    );
    assert!(only("func f(x):\n\tif x:\n\t\tprint(1)\n\telse:\n\t\treturn 2\n", "no-else-return").is_empty());
}

#[test]
fn elif_after_return() {
    let source = "func f(x):\n\tif x == 1:\n\t\treturn 1\n\telif x == 2:\n\t\tprint(2)\n\telse:\n\t\treturn 3\n";
    let found = only(source, "no-else-return");
    assert_eq!(found.len(), 1);
    assert_eq!(found[0].line, 4);
    assert_eq!(
        found[0].message,
        "Unnecessary 'elif' after 'if' block that ends with 'return'. Use 'if' instead"
    );
}

#[test]
fn pass_beside_other_statements() {
    let found = only("func f():\n\tpass\n\tprint(1)\n", "unnecessary-pass");
    assert_eq!(found.len(), 1);
    assert_eq!((found[0].line, found[0].column), (2, 2));
    assert_eq!(found[0].message, "Unnecessary 'pass' statement when other statements are present");
    assert!(only("func f():\n\tpass\n", "unnecessary-pass").is_empty());
}

#[test]
fn private_member_access() {
    let found = only("func f(o):\n\to._secret()\n\tprint(o._field)\n\tself._mine()\n", "private-access");
    assert_eq!(found.len(), 2);
    assert_eq!(found[0].message, "Private method '_secret' should not be called from outside its class");
    assert_eq!((found[0].line, found[0].column), (2, 4));
    assert_eq!(
        found[1].message,
        "Private variable '_field' should not be accessed from outside its class"
    );
    assert_eq!(found[1].line, 3);
}

#[test]
fn standalone_expressions() {
    let found = only("func f():\n\t1 + 2\n\tprint(3)\n", "standalone-expression");
    assert_eq!(found.len(), 1);
    assert_eq!((found[0].line, found[0].column), (2, 2));
    assert_eq!(
        found[0].message,
        "Standalone expression '1 + 2' is not assigned or used, the line may have no effect"
    );
}

#[test]
fn tabs_count_four_columns() {
    let source = format!("#{}\n", "\t".repeat(25));
    let found = only(&source, "max-line-length");
    assert_eq!(found.len(), 1);
    assert_eq!(found[0].message, "Line is too long. Found 101 characters, maximum allowed is 100");
}

#[test]
fn custom_maximum_and_crlf() {
    let config = LinterConfig { disabled_rules: Vec::new(), max_line_length: 10 };
    let source = "# 123456789\r\n# 12345678\r\n";
    let issues = lint_gdscript_with_config(source, "t.gd", &config).unwrap();
    assert_eq!(issues.len(), 1);
    assert_eq!((issues[0].line, issues[0].column), (1, 11));
    assert_eq!(issues[0].message, "Line is too long. Found 11 characters, maximum allowed is 10");
}

#[test]
fn max_line_length_rule_on_text() {
    let config = LinterConfig { disabled_rules: Vec::new(), max_line_length: 3 };
    let rule = MaxLineLengthRule::new(&config);
    assert_eq!(rule.max_line_length, 3);
    let issues = rule.check("abc\nabcd\n\nabcdefghijkl");
    assert_eq!(issues.len(), 2);
    assert_eq!((issues[0].line, issues[0].column), (2, 4));
    assert_eq!((issues[1].line, issues[1].column), (4, 4));
    assert_eq!(issues[1].message, "Line is too long. Found 12 characters, maximum allowed is 3");
}

#[test]
fn naming_predicates() {
    assert!(FunctionNameRule.is_valid_function_name("do_it_2"));
    assert!(FunctionNameRule.is_valid_function_name("_private"));
    assert!(!FunctionNameRule.is_valid_function_name("DoIt"));
    assert!(!FunctionNameRule.is_valid_function_name(""));
    assert!(EnumNameRule.is_valid_enum_name("MyEnum2"));
    assert!(!EnumNameRule.is_valid_enum_name("My_Enum"));
    assert!(EnumMemberNameRule.is_valid_enum_member_name("A_B_1"));
    assert!(!EnumMemberNameRule.is_valid_enum_member_name("_A"));
    assert!(ConstantNameRule.is_valid_constant_name("_A_B"));
    assert!(!ConstantNameRule.is_valid_constant_name("Ab"));
    assert!(ConstantNameRule.is_valid_load_constant_name("Ab"));
    assert!(VariableNameRule.is_valid_variable_name("a_b"));
    assert!(!VariableNameRule.is_valid_variable_name("A_b"));
    assert!(VariableNameRule.is_valid_load_variable_name("AB"));
    assert!(!VariableNameRule.is_valid_load_variable_name("_A"));
    assert!(FunctionArgumentNameRule.is_valid_argument_name("_x"));
    assert!(LoopVariableNameRule.is_valid_loop_variable_name("i"));
    assert!(!LoopVariableNameRule.is_valid_loop_variable_name("_i"));
    assert!(SignalNameRule.is_valid_signal_name("changed"));
    assert!(!SignalNameRule.is_valid_signal_name("Changed"));
}

#[test]
fn issue_format() {
    let issue = LintIssue::new(
        12,
        5,
        "function-name".to_string(),
        LintSeverity::Error,
        "bad name".to_string(),
    );
    assert_eq!(issue.format("dir/a.gd"), "dir/a.gd:12:function-name:error: bad name");
    let warning = LintIssue::new(7, 1, "unused-argument".to_string(), LintSeverity::Warning, "m".to_string());
    assert_eq!(warning.format("b.gd"), "b.gd:7:unused-argument:warning: m");
}

#[test]
fn default_config() {
    let c = LinterConfig::default();
    assert!(c.disabled_rules.is_empty());
    assert_eq!(c.max_line_length, 100);
    assert!(!c.disables("function-name"));
    let d = LinterConfig { disabled_rules: vec!["class-name".to_string()], max_line_length: 1 };
    assert!(d.disables("class-name"));
    assert!(!d.disables("class"));
}

#[test]
fn registry_order_and_names() {
    let names: Vec<&str> = Rule::all().iter().map(|r| r.name()).collect();
    assert_eq!(
        names,
        vec![
            "duplicated-load",
            "standalone-expression",
            "unnecessary-pass",
            "unused-argument",
            "comparison-with-itself",
            "private-access",
            "max-line-length",
            "no-else-return",
            "function-name",
            "class-name",
            "signal-name",
            "variable-name",
            "function-argument-name",
            "loop-variable-name",
            "enum-name",
            "enum-member-name",
            "constant-name",
        ]
    );
}

fn node(kind: &str, field: &str, text: &str, column: usize, parent: usize) -> SyntaxNode {
    SyntaxNode {
        kind: kind.to_string(),
        field: field.to_string(),
        text: text.to_string(),
        line: 3,
        column,
        parent,
    }
}

#[test]
fn rule_on_a_tree_built_by_hand() {
    let tree = SyntaxTree {
        nodes: vec![
            node("source", "", "signal BadOne", 1, 0),
            node("signal_statement", "", "signal BadOne", 1, 0),
            node("signal", "", "signal", 1, 1),
            node("name", "name", "BadOne", 8, 1),
        ],
    };
    let config = LinterConfig::default();
    let issues = Rule::SignalName.check(&tree, "signal BadOne", &config);
    assert_eq!(issues.len(), 1);
    assert_eq!((issues[0].line, issues[0].column), (3, 8));
    assert_eq!(issues[0].message, "Signal name 'BadOne' should be in snake_case format");
    assert!(Rule::FunctionName.check(&tree, "signal BadOne", &config).is_empty());
    assert_eq!(tree.children(1), vec![2, 3]);
    assert_eq!(tree.field_child(1, "name"), Some(3));
    assert_eq!(tree.first_child(1), Some(2));
    assert_eq!(tree.first_child(3), None);
}
