use pyguard::rules::no_todo_comment::is_word_boundary;
use pyguard::rules::no_sentinel_default::{is_placeholder_keyword, is_placeholder_uuid, is_sentinel_text};
use pyguard::rules::no_bare_except::find_exception_type;
use pyguard::rules::no_sentinel_default::extract_string_content;
use pyguard::config::{active_rules, discover_config, Config, Pyproject, ToolTable};
use pyguard::diagnostic::{Diagnostic, Severity};
use pyguard::engine::{build_dispatch_map, lint_source, lint_source_with_config, lint_source_with_rules, lint_tree};
use pyguard::report::{has_violations, severity_counts, sort_by_position, summary_line};
use pyguard::rules::max_function_params::MaxFunctionParams;
use pyguard::rules::no_assert::is_test_file;
use pyguard::rules::{all_rules, Rule};
use pyguard::suppression::{filter_suppressed, is_suppressed};
use pyguard::syntax::parse_python;

fn count_rule(diagnostics: &[Diagnostic], rule_id: &str) -> usize {
    diagnostics.iter().filter(|d| d.rule_id == rule_id).count()
}

fn lint_with_rule(source: &str, rule_name: &str) -> Vec<Diagnostic> {
    let rules: Vec<Rule> = all_rules().into_iter().filter(|r| r.name() == rule_name).collect();
    lint_source_with_rules(source, "<test>", &rules)
}

fn diag(path: &str, line: usize, col: usize, rule_id: &'static str, severity: Severity) -> Diagnostic {
    let mut d = Diagnostic::new(rule_id, line, col, format!("m{line}:{col}"));
    d.path = path.to_string();
    d.severity = severity;
    d
}

const MIXED: &str = "import dataclasses\nhasattr(obj, \"x\")\nprint(True)\n# TODO: later\ndef f():\n    import os\n    assert x\n";

// --- the rules are independent --------------------------------------------

#[test]
fn each_rule_reports_alone_what_it_reports_among_all() {
    let all = lint_source(MIXED, "<test>");
    for rule in all_rules() {
        let alone = lint_with_rule(MIXED, rule.name());
        let among: Vec<(usize, usize, String)> = all
            .iter()
            .filter(|d| d.rule_id == rule.name())
            .map(|d| (d.line, d.col, d.message.clone()))
            .collect();
        let single: Vec<(usize, usize, String)> =
            alone.iter().map(|d| (d.line, d.col, d.message.clone())).collect();
        assert_eq!(among, single, "rule {}", rule.name());
    }
}

#[test]
fn findings_come_in_tree_order() {
    let all = lint_source(MIXED, "<test>");
    let lines: Vec<usize> = all.iter().map(|d| d.line).collect();
    let mut sorted = lines.clone();
    sorted.sort();
    assert_eq!(lines, sorted);
}

// --- path, severity, exclusion, test files ---------------------------------

#[test]
fn every_finding_carries_the_path() {
    let d = lint_source(MIXED, "pkg/module.py");
    assert!(!d.is_empty());
    assert!(d.iter().all(|x| x.path == "pkg/module.py"));
}

#[test]
fn severity_comes_from_the_rule() {
    let d = lint_source(MIXED, "<test>");
    for x in &d {
        let rule = all_rules().into_iter().find(|r| r.name() == x.rule_id).unwrap();
        assert!(x.severity == rule.severity(), "{}", x.rule_id);
    }
    let p = lint_with_rule("print(1)", "no-print");
    assert!(p[0].severity == Severity::Error);
    let t = lint_with_rule("# TODO: x", "no-todo-comment");
    assert!(t[0].severity == Severity::Warning);
    let g = lint_with_rule("def f():\n    import os", "guarded-function-import");
    assert!(g[0].severity == Severity::Warning);
}

#[test]
fn excluded_rules_report_nothing() {
    let config = Config { exclude: vec!["no-print".to_string(), "no-dataclass".to_string()] };
    let d = lint_source_with_config(MIXED, "<test>", &config);
    assert_eq!(count_rule(&d, "no-print"), 0);
    assert_eq!(count_rule(&d, "no-dataclass"), 0);
    assert!(count_rule(&d, "no-hasattr-getattr") >= 1);
}

#[test]
fn active_rules_drop_the_excluded_in_registry_order() {
    let config = Config { exclude: vec!["no-print".to_string(), "unknown-rule".to_string()] };
    let names: Vec<&str> = active_rules(&config).iter().map(|r| r.name()).collect();
    let all: Vec<&str> = all_rules().iter().map(|r| r.name()).filter(|n| *n != "no-print").collect();
    assert_eq!(names, all);
    assert_eq!(active_rules(&Config::default()).len(), 17);
}

#[test]
fn test_files_drop_only_no_assert() {
    let source = "assert x\nprint(1)";
    let in_tests = lint_source(source, "tests/test_a.py");
    assert_eq!(count_rule(&in_tests, "no-assert"), 0);
    assert_eq!(count_rule(&in_tests, "no-print"), 1);
    let in_src = lint_source(source, "src/a.py");
    assert_eq!(count_rule(&in_src, "no-assert"), 1);
}

#[test]
fn test_file_paths() {
    assert!(is_test_file("test_foo.py"));
    assert!(is_test_file("pkg/foo_test.py"));
    assert!(is_test_file("a/tests/b.py"));
    assert!(is_test_file("test/b.py"));
    assert!(is_test_file("a\\testing\\b.py"));
    assert!(!is_test_file("src/contest.py"));
    assert!(!is_test_file("src/latest/b.py"));
    assert!(!is_test_file("src/module.py"));
}

#[test]
fn custom_parameter_limit() {
    let rules = vec![Rule::MaxFunctionParams(MaxFunctionParams { max: 2 })];
    let d = lint_source_with_rules("def f(a, b, c):\n    pass", "<test>", &rules);
    assert_eq!(d.len(), 1);
    assert_eq!(d[0].message, "Function has 3 parameters (max 2); group related parameters into a dataclass or model");
    let ok = lint_source_with_rules("def f(self, a, b):\n    pass", "<test>", &rules);
    assert_eq!(ok.len(), 0);
}

// --- suppression --------------------------------------------------------------

#[test]
fn suppression_forms() {
    assert!(is_suppressed("x = 1  # pyguard: ignore", "no-print"));
    assert!(is_suppressed("x = 1  # pyguard: ignore   ", "no-print"));
    assert!(is_suppressed("x  # pyguard: ignore[no-print]", "no-print"));
    assert!(is_suppressed("x  # pyguard: ignore[ no-assert ,  no-print ]", "no-print"));
    assert!(!is_suppressed("x  # pyguard: ignore[no-assert]", "no-print"));
    assert!(!is_suppressed("x  # pyguard: ignore[no-print", "no-print"));
    assert!(!is_suppressed("x  # pyguard: ignored", "no-print"));
    assert!(!is_suppressed("x  # pyguard: ignore because", "no-print"));
    assert!(!is_suppressed("x  # some comment", "no-print"));
    assert!(!is_suppressed("", "no-print"));
    assert!(is_suppressed("x  # slopcop: ignore[no-print]", "no-print"));
}

#[test]
fn suppression_uses_the_first_marker_only() {
    assert!(!is_suppressed("# pyguard: ignore[no-assert]  # pyguard: ignore", "no-print"));
}

#[test]
fn filter_suppressed_keeps_order_and_reads_each_line() {
    let source = "a  # pyguard: ignore\r\nb\r\nc  # pyguard: ignore[no-print]\n";
    let ds = vec![
        diag("f.py", 3, 0, "no-print", Severity::Error),
        diag("f.py", 2, 0, "no-print", Severity::Error),
        diag("f.py", 1, 0, "no-assert", Severity::Error),
        diag("f.py", 3, 1, "no-assert", Severity::Error),
        diag("f.py", 0, 0, "no-print", Severity::Error),
        diag("f.py", 9, 0, "no-print", Severity::Error),
    ];
    let kept = filter_suppressed(ds, source);
    let keys: Vec<(usize, usize, &str)> = kept.iter().map(|d| (d.line, d.col, d.rule_id)).collect();
    assert_eq!(keys, vec![(2, 0, "no-print"), (3, 1, "no-assert"), (0, 0, "no-print"), (9, 0, "no-print")]);
}

#[test]
fn carriage_return_ends_a_line_only_before_newline() {
    let ds = vec![diag("f.py", 1, 0, "no-print", Severity::Error)];
    let kept = filter_suppressed(ds, "x  # pyguard: ignore[no-print]\r\n");
    assert_eq!(kept.len(), 0);
}

// --- diagnostics ------------------------------------------------------------------

#[test]
fn new_diagnostic_has_no_path_and_error_severity() {
    let d = Diagnostic::new("no-print", 3, 4, "msg".to_string());
    assert_eq!(d.path, "");
    assert_eq!(d.line, 3);
    assert_eq!(d.col, 4);
    assert!(d.severity == Severity::Error);
}

#[test]
fn rendering() {
    let d = diag("src/a.py", 12, 0, "no-todo-comment", Severity::Warning);
    assert_eq!(d.to_string(), "src/a.py:12:0  [no-todo-comment] m12:0");
    let e = diag("b.py", 1, 10, "no-print", Severity::Error);
    assert_eq!(e.to_string(), "b.py:1:10  [no-print] m1:10");
}

// --- configuration discovery -------------------------------------------------------

fn pyproject(table: Option<Vec<&str>>) -> Option<Pyproject> {
    Some(Pyproject {
        tool: Some(ToolTable {
            pyguard: table.map(|v| Config { exclude: v.into_iter().map(String::from).collect() }),
        }),
    })
}

#[test]
fn nearest_pyguard_table_wins() {
    let found = vec![None, pyproject(None), pyproject(Some(vec!["no-print"])), pyproject(Some(vec!["no-assert"]))];
    assert_eq!(discover_config(found).exclude, vec!["no-print".to_string()]);
}

#[test]
fn no_table_means_no_exclusions() {
    let found = vec![None, pyproject(None), Some(Pyproject { tool: None })];
    assert!(discover_config(found).exclude.is_empty());
    assert!(discover_config(Vec::new()).exclude.is_empty());
}

// --- reporting ----------------------------------------------------------------------

#[test]
fn sorting_by_path_line_column_is_stable() {
    let ds = vec![
        diag("b.py", 1, 0, "no-print", Severity::Error),
        diag("a.py", 2, 5, "no-print", Severity::Error),
        diag("a.py", 2, 1, "no-assert", Severity::Error),
        diag("a.py", 2, 1, "no-print", Severity::Warning),
        diag("a.py", 10, 0, "no-print", Severity::Error),
        diag("B.py", 7, 0, "no-print", Severity::Error),
    ];
    let sorted = sort_by_position(&ds);
    let keys: Vec<(&str, usize, usize, &str)> =
        sorted.iter().map(|d| (d.path.as_str(), d.line, d.col, d.rule_id)).collect();
    assert_eq!(
        keys,
        vec![
            ("B.py", 7, 0, "no-print"),
            ("a.py", 2, 1, "no-assert"),
            ("a.py", 2, 1, "no-print"),
            ("a.py", 2, 5, "no-print"),
            ("a.py", 10, 0, "no-print"),
            ("b.py", 1, 0, "no-print"),
        ]
    );
}

#[test]
fn counts_and_verdict() {
    let ds = vec![
        diag("a.py", 1, 0, "no-print", Severity::Error),
        diag("a.py", 2, 0, "no-todo-comment", Severity::Warning),
        diag("a.py", 3, 0, "no-todo-comment", Severity::Warning),
    ];
    assert_eq!(severity_counts(&ds), (1, 2));
    assert!(has_violations(1, 2, false));
    assert!(has_violations(0, 2, false));
    assert!(!has_violations(0, 2, true));
    assert!(has_violations(1, 0, true));
    assert!(!has_violations(0, 0, false));
}

#[test]
fn summary_lines() {
    assert_eq!(summary_line(0, 0, 0), None);
    assert_eq!(
        summary_line(1, 0, 1).unwrap(),
        "\nFound 1 violation (1 error, 0 warnings) across 1 file."
    );
    assert_eq!(
        summary_line(2, 1, 3).unwrap(),
        "\nFound 3 violations (2 errors, 1 warning) across 3 files."
    );
}

// --- the rule registry and the dispatch map -----------------------------------------

#[test]
fn registry_names_and_advice() {
    let names: Vec<&str> = all_rules().iter().map(|r| r.name()).collect();
    assert_eq!(names.len(), 17);
    let mut unique = names.clone();
    unique.sort();
    unique.dedup();
    assert_eq!(unique.len(), 17);
    let hasattr = &all_rules()[0];
    assert_eq!(hasattr.name(), "no-hasattr-getattr");
    assert!(hasattr.help().starts_with("`hasattr()` and `getattr()` hide AttributeError"));
    assert_eq!(all_rules()[5].help(), "");
    assert_eq!(all_rules()[3].node_kinds(), vec!["decorator", "import_statement", "import_from_statement"]);
}

#[test]
fn dispatch_map_lists_each_kind_once_with_its_rules_in_order() {
    let rules = all_rules();
    let map = build_dispatch_map(&rules);
    assert_eq!(map.kinds.len(), map.rules.len());
    let mut kinds = map.kinds.clone();
    kinds.sort();
    kinds.dedup();
    assert_eq!(kinds.len(), map.kinds.len());
    let at = |k: &str| map.rules[map.kinds.iter().position(|x| *x == k).unwrap()].clone();
    assert_eq!(at("call"), vec![0, 5, 8, 9]);
    assert_eq!(at("import_from_statement"), vec![1, 3, 16]);
    assert_eq!(at("except_clause"), vec![4, 10, 13]);
    assert_eq!(at("assignment"), vec![14]);
    assert_eq!(map.kinds.len(), 14);
}

// --- the parsed tree ------------------------------------------------------------------

#[test]
fn parsed_tree_positions_and_text() {
    let source = "x = 1\nprint(x)\n";
    let root = parse_python(source).unwrap();
    assert_eq!(root.kind, "module");
    assert_eq!(root.line, 1);
    let second = &root.children[1];
    assert_eq!(second.line, 2);
    assert_eq!(second.col, 0);
    assert_eq!(second.text_str(source.as_bytes()), Some("print(x)"));
    let call = &second.children[0];
    assert_eq!(call.kind, "call");
    let callee = call.field_child("function").unwrap();
    assert_eq!(callee.text_str(source.as_bytes()), Some("print"));
    assert!(callee.named);
    let d = lint_tree(&root, source, "m.py", &all_rules());
    assert_eq!(d.len(), 1);
    assert_eq!(d[0].rule_id, "no-print");
    assert_eq!((d[0].line, d[0].col), (2, 0));
}

#[test]
fn non_ascii_text_keeps_byte_columns() {
    let source = "s = \"é\"; print(s)";
    let d = lint_with_rule(source, "no-print");
    assert_eq!(d.len(), 1);
    assert_eq!(d[0].col, 10);
}

// --- helpers of the rules ---------------------------------------------------------------

#[test]
fn word_boundaries_are_bytes_outside_identifiers() {
    assert!(is_word_boundary(None));
    assert!(is_word_boundary(Some(b' ')));
    assert!(is_word_boundary(Some(b':')));
    assert!(is_word_boundary(Some(0xC3)));
    assert!(!is_word_boundary(Some(b'a')));
    assert!(!is_word_boundary(Some(b'Z')));
    assert!(!is_word_boundary(Some(b'7')));
    assert!(!is_word_boundary(Some(b'_')));
}

#[test]
fn todo_marker_next_to_non_ascii_counts() {
    let d = lint_with_rule("# éTODO: later", "no-todo-comment");
    assert_eq!(d.len(), 1);
    let none = lint_with_rule("# TODOLIST", "no-todo-comment");
    assert_eq!(none.len(), 0);
}

#[test]
fn todo_marker_counts_wherever_it_stands_as_a_word() {
    let d = lint_with_rule("# TODOLIST first, then TODO: fix", "no-todo-comment");
    assert_eq!(d.len(), 1);
    assert_eq!(d[0].message, "Found `TODO` comment; resolve or track in an issue");
}

#[test]
fn lint_uses_the_tree_of_the_given_source() {
    let a = lint_with_rule("print(1)", "no-print");
    let b = lint_with_rule("x = 1", "no-print");
    assert_eq!(a.len(), 1);
    assert_eq!(b.len(), 0);
    assert!(parse_python("x = 1").is_some());
}

#[test]
fn assert_exemption_depends_on_the_path() {
    let rules: Vec<Rule> = all_rules().into_iter().filter(|r| r.name() == "no-assert").collect();
    assert_eq!(lint_source_with_rules("assert x > 0", "tests/test_mod.py", &rules).len(), 0);
    assert_eq!(lint_source_with_rules("assert x > 0", "<test>", &rules).len(), 1);
}

#[test]
fn config_only_removes_excluded_rules() {
    let config = Config { exclude: vec!["no-print".to_string(), "not-a-rule".to_string()] };
    let with_config = lint_source_with_config(MIXED, "<test>", &config);
    let filtered: Vec<(usize, usize, &str)> = lint_source(MIXED, "<test>")
        .iter()
        .filter(|d| !config.exclude.iter().any(|e| e == d.rule_id))
        .map(|d| (d.line, d.col, d.rule_id))
        .collect();
    let got: Vec<(usize, usize, &str)> = with_config.iter().map(|d| (d.line, d.col, d.rule_id)).collect();
    assert_eq!(got, filtered);
}

#[test]
fn placeholder_texts() {
    assert!(is_placeholder_uuid("00000000-0000-0000-0000-000000000000"));
    assert!(is_placeholder_uuid("123e4567-e89b-12d3-a456-426614174000"));
    assert!(is_placeholder_uuid("12345678-9abc-4def-8123-456789abcdef"));
    assert!(is_placeholder_uuid("aaaaaaaa-bbbb-aaaa-cccc-aaaaaaaaaaaa"));
    assert!(!is_placeholder_uuid("f47ac10b-58cc-4372-a567-0e02b2c3d479"));
    assert!(!is_placeholder_uuid("00000000-0000-0000-0000-00000000000g"));
    assert!(!is_placeholder_uuid("0000000-0000-0000-0000-000000000000"));
    assert!(is_placeholder_keyword("changeme"));
    assert!(is_placeholder_keyword("lorem ipsum"));
    assert!(!is_placeholder_keyword("ChangeMe"));
    assert!(is_sentinel_text("ChangeMe"));
    assert!(is_sentinel_text("https://api.Example.com/v1"));
    assert!(is_sentinel_text("/path/to/file"));
    assert!(is_sentinel_text("sk-abc"));
    assert!(!is_sentinel_text("production"));
}

#[test]
fn exception_type_of_except_clauses() {
    let source = "try:\n    pass\nexcept (KeyError, TypeError) as e:\n    pass\nexcept:\n    pass";
    let root = parse_python(source).unwrap();
    let try_stmt = &root.children[0];
    let clauses: Vec<_> = try_stmt.children.iter().filter(|c| c.kind == "except_clause").collect();
    assert_eq!(clauses.len(), 2);
    let t = find_exception_type(clauses[0], source.as_bytes()).unwrap();
    assert_eq!(t.text_str(source.as_bytes()), Some("(KeyError, TypeError)"));
    assert!(find_exception_type(clauses[1], source.as_bytes()).is_none());
}

#[test]
fn string_content_of_a_literal() {
    let source = "x = \"changeme\"";
    let root = parse_python(source).unwrap();
    let assignment = &root.children[0].children[0];
    let value = assignment.field_child("right").unwrap();
    assert_eq!(value.kind, "string");
    let content: String = extract_string_content(value, source.as_bytes()).into_iter().collect();
    assert_eq!(content, "changeme");
}
