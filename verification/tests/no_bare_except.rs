use pyguard::diagnostic::Diagnostic;
use pyguard::rules::Rule;
use pyguard::rules::all_rules;
use pyguard::engine::lint_source_with_rules;

fn lint_with_rule(source: &str, rule_name: &str) -> Vec<Diagnostic> {
    let rules: Vec<Rule> = all_rules().into_iter().filter(|r| r.name() == rule_name).collect();
    lint_source_with_rules(source, "<test>", &rules)
}

#[test]
fn bare_except() {
    let source = "try:\n    pass\nexcept:\n    pass";
    let d = lint_with_rule(source, "no-bare-except");
    assert_eq!(d.len(), 1);
    assert_eq!(d[0].line, 3);
}

#[test]
fn no_bare_except_specific_type_ok() {
    let source = "try:\n    pass\nexcept ValueError:\n    pass";
    let d = lint_with_rule(source, "no-bare-except");
    assert_eq!(d.len(), 0);
}

#[test]
fn tuple_ok() {
    let source = "try:\n    pass\nexcept (KeyError, TypeError):\n    pass";
    let d = lint_with_rule(source, "no-bare-except");
    assert_eq!(d.len(), 0);
}

#[test]
fn mixed_clauses_bare_second() {
    let source = "try:\n    pass\nexcept ValueError:\n    pass\nexcept:\n    pass";
    let d = lint_with_rule(source, "no-bare-except");
    assert_eq!(d.len(), 1);
    assert_eq!(d[0].line, 5);
}

#[test]
fn no_bare_except_in_comment() {
    let d = lint_with_rule("# except:", "no-bare-except");
    assert_eq!(d.len(), 0);
}
