use pyguard::diagnostic::Diagnostic;
use pyguard::rules::Rule;
use pyguard::rules::all_rules;
use pyguard::engine::lint_source_with_rules;

fn lint_with_rule(source: &str, rule_name: &str) -> Vec<Diagnostic> {
    let rules: Vec<Rule> = all_rules().into_iter().filter(|r| r.name() == rule_name).collect();
    lint_source_with_rules(source, "<test>", &rules)
}

#[test]
fn bare_print() {
    let d = lint_with_rule("print(\"hello\")", "no-print");
    assert_eq!(d.len(), 1);
    assert_eq!(d[0].line, 1);
}

#[test]
fn print_with_args() {
    let d = lint_with_rule("print(x, y, sep=\",\")", "no-print");
    assert_eq!(d.len(), 1);
}

#[test]
fn builtins_print() {
    let d = lint_with_rule("builtins.print(\"hello\")", "no-print");
    assert_eq!(d.len(), 1);
}

#[test]
fn no_print_in_comment() {
    let d = lint_with_rule("# print(\"hello\")", "no-print");
    assert_eq!(d.len(), 0);
}

#[test]
fn no_print_in_string() {
    let d = lint_with_rule("x = \"print('hello')\"", "no-print");
    assert_eq!(d.len(), 0);
}

#[test]
fn no_print_inside_function() {
    let source = "def f():\n    print(\"debug\")";
    let d = lint_with_rule(source, "no-print");
    assert_eq!(d.len(), 1);
    assert_eq!(d[0].line, 2);
}

#[test]
fn multiple() {
    let source = "print(\"a\")\nprint(\"b\")\nprint(\"c\")";
    let d = lint_with_rule(source, "no-print");
    assert_eq!(d.len(), 3);
}

#[test]
fn logging_ok() {
    let d = lint_with_rule("logging.info(\"hello\")", "no-print");
    assert_eq!(d.len(), 0);
}

#[test]
fn pprint_ok() {
    let d = lint_with_rule("pprint(obj)", "no-print");
    assert_eq!(d.len(), 0);
}
