use phpmd_lsp::rules::{
    classify, determine_diagnostic_range, find_property_line, property_name, resolve_range, severity_for,
    RuleClass, Severity, Span, FAR_END,
};

fn php_class() -> String {
    let mut s = String::from("<?php\n");
    s.push_str("class Legacy\n");
    s.push_str("{\n");
    s.push_str("    // $legacy_field is kept for old callers\n");
    s.push_str("    public function read($legacy_field)\n");
    s.push_str("    {\n");
    s.push_str("    private $legacy_field;\n");
    s.push_str("}\n");
    s
}

#[test]
fn class_rule_collapses_to_begin_line() {
    assert_eq!(determine_diagnostic_range(10, 50, "TooManyMethods", "too many", None), (10, 10));
    let r = resolve_range(10, 50, "ExcessiveClassLength", "long", None);
    assert_eq!(r.start_line, 9);
    assert_eq!(r.end_line, 9);
}

#[test]
fn property_rule_moves_to_declaration() {
    let text = php_class();
    let d = "The property $legacy_field is not named in camelCase.";
    assert_eq!(determine_diagnostic_range(1, 1, "CamelCasePropertyName", d, Some(&text)), (7, 7));
    let r = resolve_range(1, 1, "CamelCasePropertyName", d, Some(&text));
    assert_eq!(r, Span { start_line: 6, start_char: 4, end_line: 6, end_char: 26 });
}

#[test]
fn property_rule_without_declaration_stays_on_begin_line() {
    let d = "The property $missing is not named in camelCase.";
    assert_eq!(determine_diagnostic_range(2, 9, "CamelCasePropertyName", d, Some("<?php\n$x = 1;\n")), (2, 2));
    assert_eq!(determine_diagnostic_range(2, 9, "CamelCaseParameterName", "no dollar", None), (2, 2));
}

#[test]
fn method_rule_collapses_long_spans_only() {
    assert_eq!(determine_diagnostic_range(3, 40, "CyclomaticComplexity", "d", None), (3, 3));
    assert_eq!(determine_diagnostic_range(3, 9, "NPathComplexity", "d", None), (3, 3));
    assert_eq!(determine_diagnostic_range(3, 8, "ExcessiveMethodLength", "d", None), (3, 8));
}

#[test]
fn single_line_rules_use_begin_line() {
    for rule in [
        "ElseExpression",
        "ShortVariable",
        "LongVariable",
        "ShortMethodName",
        "ShortClassName",
        "LongClassName",
        "GotoStatement",
        "ExitExpression",
        "EvalExpression",
    ] {
        assert_eq!(determine_diagnostic_range(4, 6, rule, "d", None), (4, 4));
    }
}

#[test]
fn other_rules_keep_spans_up_to_ten_lines() {
    assert_eq!(determine_diagnostic_range(5, 15, "UnusedLocalVariable", "d", None), (5, 15));
    assert_eq!(determine_diagnostic_range(5, 16, "UnusedLocalVariable", "d", None), (5, 5));
    assert_eq!(determine_diagnostic_range(9, 4, "UnusedLocalVariable", "d", None), (9, 4));
}

#[test]
fn rule_classes() {
    assert_eq!(classify("CamelCasePropertyName"), RuleClass::Property);
    assert_eq!(classify("CamelCaseVariableName"), RuleClass::Class);
    assert_eq!(classify("CouplingBetweenObjects"), RuleClass::Class);
    assert_eq!(classify("UnusedFormalParameter"), RuleClass::Method);
    assert_eq!(classify("GotoStatement"), RuleClass::SingleLine);
    assert_eq!(classify("ShortMethodName"), RuleClass::SingleLine);
    assert_eq!(classify("LongClassName"), RuleClass::SingleLine);
    assert_eq!(classify("CyclomaticComplexity"), RuleClass::Method);
    assert_eq!(classify("Superglobals"), RuleClass::Default);
    assert_eq!(classify(""), RuleClass::Default);
}

#[test]
fn severity_by_priority() {
    assert_eq!(severity_for(1), Severity::Error);
    assert_eq!(severity_for(2), Severity::Error);
    assert_eq!(severity_for(3), Severity::Warning);
    assert_eq!(severity_for(4), Severity::Warning);
    assert_eq!(severity_for(5), Severity::Information);
    assert_eq!(severity_for(0), Severity::Information);
}

#[test]
fn character_bounds_skip_indentation() {
    let text = "<?php\n  if ($a) {\n      return 1;\n  }\n";
    let r = resolve_range(2, 4, "UnusedLocalVariable", "d", Some(text));
    assert_eq!(r, Span { start_line: 1, start_char: 2, end_line: 3, end_char: 3 });
}

#[test]
fn lines_outside_document_use_far_end() {
    let r = resolve_range(20, 20, "UnusedLocalVariable", "d", Some("<?php\n"));
    assert_eq!(r, Span { start_line: 19, start_char: 0, end_line: 19, end_char: FAR_END });
    let r = resolve_range(1, 30, "UnusedLocalVariable", "d", Some("<?php\n$a = 1;\n"));
    assert_eq!(r.end_char, 5);
    let r = resolve_range(1, 5, "UnusedLocalVariable", "d", Some("<?php\n$a = 1;\n"));
    assert_eq!(r.end_char, FAR_END);
    let r = resolve_range(0, 0, "UnusedLocalVariable", "d", None);
    assert_eq!(r, Span { start_line: 0, start_char: 0, end_line: 0, end_char: 999 });
}

#[test]
fn windows_line_endings() {
    let text = "<?php\r\n    $abc = 1;\r\n";
    let r = resolve_range(2, 2, "ShortVariable", "d", Some(text));
    assert_eq!(r, Span { start_line: 1, start_char: 4, end_line: 1, end_char: 13 });
}

#[test]
fn property_line_search() {
    let text = php_class();
    assert_eq!(find_property_line("legacy_field", &text), Some(7));
    assert_eq!(find_property_line("other", &text), None);
    assert_eq!(find_property_line("a", "<?php\n$this->a = 1;\nself::$a;\n$a = 2;\n"), Some(4));
    assert_eq!(find_property_line("x", "/* $x; */\n * $x;\nvar $x;\n"), Some(3));
    assert_eq!(find_property_line("y", "static $y\n"), Some(1));
}

#[test]
fn property_names_from_descriptions() {
    assert_eq!(property_name("The property $legacy_field is bad."), Some("legacy_field".to_string()));
    assert_eq!(property_name("The parameter $a1_b."), Some("a1_b".to_string()));
    assert_eq!(property_name("ends with $"), Some(String::new()));
    assert_eq!(property_name("no name"), None);
}
