use phpmd_lsp::analyzer::{
    build_invocation, discover_rulesets, fresh_temp_file_name, is_ruleset_config, temp_file_name, ConfigCandidate,
    DEFAULT_RULESETS,
};
use phpmd_lsp::engine::{DiagnosticsEngine, Report, Step};
use phpmd_lsp::json::parse_phpmd_output;
use phpmd_lsp::report::{convert_violation_to_diagnostic, decode_violation, RawViolation, Violation};
use phpmd_lsp::rules::Severity;
use phpmd_lsp::slots::{SlotPool, ANALYZER_SLOTS};
use phpmd_lsp::json::violations_of;
use phpmd_lsp::store::{checksum, compress_document, decompress_document, DecodeError};

fn long_method() -> String {
    let mut s = String::from("<?php\nclass A {\n    public function run($x)\n    {\n");
    for i in 0..40 {
        s.push_str(&format!("        if ($x == {}) {{ return {}; }}\n", i, i));
    }
    s.push_str("    }\n}\n");
    s
}

fn report_for(begin: u32, end: u32, rule: &str, priority: u32) -> String {
    format!(
        "PHPMD 2.15\n{{\"version\":\"2.15\",\"files\":[{{\"file\":\"/tmp/x.php\",\"violations\":[{{\"beginLine\":{},\"endLine\":{},\"package\":null,\"function\":null,\"class\":\"A\",\"method\":\"run\",\"description\":\"The method run() has a Cyclomatic Complexity of 41.\",\"rule\":\"{}\",\"ruleSet\":\"Code Size Rules\",\"externalInfoUrl\":\"https://phpmd.org/rules/codesize.html\",\"priority\":{}}}]}}]}}\n",
        begin, end, rule, priority
    )
}

#[test]
fn checksum_is_stable_and_sensitive() {
    assert_eq!(checksum("abc"), "ba7816bf8f01cfea414140de5dae2223b00361a396177a9cb410ff61f20015ad");
    assert_eq!(checksum("<?php echo 1;"), checksum("<?php echo 1;"));
    assert_ne!(checksum("<?php echo 1;"), checksum("<?php echo 2;"));
}

#[test]
fn documents_read_back() {
    let text = long_method();
    let doc = compress_document(&text);
    assert_eq!(doc.original_size, text.len());
    assert_ne!(doc.compressed_data, text.as_bytes().to_vec());
    assert_eq!(doc.checksum, checksum(&text));
    assert_eq!(decompress_document(&doc).unwrap(), text);
    let empty = compress_document("");
    assert_eq!(decompress_document(&empty).unwrap(), "");
}

#[test]
fn corrupt_documents_fail_to_decode() {
    let mut doc = compress_document("hello");
    doc.compressed_data = vec![1, 2];
    assert!(decompress_document(&doc).is_err());
}

#[test]
fn end_to_end_long_method() {
    let text = long_method();
    let mut e = DiagnosticsEngine::new();
    e.open("file:///w/a.php", &text);
    let (content, sum) = match e.begin_request("file:///w/a.php", None) {
        Step::Analyze { content, checksum } => (content, checksum),
        _ => panic!("expected an analysis"),
    };
    assert_eq!(content, text);
    assert_eq!(sum, checksum(&text));
    let report = e.finish_request("file:///w/a.php", &sum, &report_for(3, 40, "CyclomaticComplexity", 3));
    let (rid, ds) = match report {
        Report::Full { result_id, diagnostics } => (result_id, diagnostics),
        _ => panic!("expected a full report"),
    };
    assert_eq!(ds.len(), 1);
    let d = &ds[0];
    assert_eq!(d.severity, Severity::Warning);
    assert_eq!(d.range.start_line, 2);
    assert_eq!(d.range.end_line, 2);
    assert_eq!(d.range.start_char, 4);
    assert_eq!(d.range.end_char, 27);
    assert_eq!(d.code.as_deref(), Some("CyclomaticComplexity"));
    assert_eq!(d.source, "phpmd");
    assert_eq!(d.code_href.as_deref(), Some("https://phpmd.org/rules/codesizerules.html"));
    assert_eq!(d.class.as_deref(), Some("A"));
    assert_eq!(d.function, None);
    assert!(rid.is_some());

    match e.begin_request("file:///w/a.php", None) {
        Step::Done(Report::Full { result_id, diagnostics }) => {
            assert_eq!(result_id, rid);
            assert_eq!(diagnostics.len(), 1);
            assert_eq!(diagnostics[0].range, d.range);
            assert_eq!(diagnostics[0].message, d.message);
        }
        _ => panic!("expected cached diagnostics"),
    }
    match e.begin_request("file:///w/a.php", rid) {
        Step::Done(Report::Unchanged(x)) => assert_eq!(Some(x), rid),
        _ => panic!("expected unchanged"),
    }
}

#[test]
fn change_discards_cached_results() {
    let mut e = DiagnosticsEngine::new();
    e.open("a", "<?php\n");
    let sum = checksum("<?php\n");
    e.finish_request("a", &sum, "{\"files\":[]}");
    assert!(matches!(e.begin_request("a", None), Step::Done(Report::Full { .. })));
    e.change("a", "<?php\n$b = 1;\n");
    match e.begin_request("a", None) {
        Step::Analyze { content, checksum: c } => {
            assert_eq!(content, "<?php\n$b = 1;\n");
            assert_ne!(c, sum);
        }
        _ => panic!("expected a new analysis"),
    }
}

#[test]
fn stale_results_of_superseded_text_are_not_served() {
    let mut e = DiagnosticsEngine::new();
    e.open("a", "one");
    let old_sum = checksum("one");
    e.change("a", "two");
    e.finish_request("a", &old_sum, "{\"files\":[]}");
    assert!(matches!(e.begin_request("a", None), Step::Analyze { .. }));
}

#[test]
fn closed_and_unknown_documents() {
    let mut e = DiagnosticsEngine::new();
    assert!(matches!(e.begin_request("b", None), Step::NeedsDocument));
    e.open("b", "x");
    e.close("b");
    assert!(matches!(e.begin_request("b", None), Step::NeedsDocument));
}

#[test]
fn settings_and_workspace_changes_drop_results() {
    let mut e = DiagnosticsEngine::new();
    e.open("a", "x");
    e.finish_request("a", &checksum("x"), "");
    assert!(matches!(e.begin_request("a", None), Step::Done(_)));
    e.settings_changed(Some("naming".to_string()), None);
    assert_eq!(e.rulesets().as_deref(), Some("naming"));
    assert!(matches!(e.begin_request("a", None), Step::Analyze { .. }));
    e.settings_changed(Some("naming".to_string()), Some("design".to_string()));
    assert_eq!(e.rulesets().as_deref(), Some("design"));
    e.finish_request("a", &checksum("x"), "");
    e.choose_analyzer_path(None, None);
    e.workspace_changed();
    assert_eq!(e.analyzer_path(), None);
    assert!(matches!(e.begin_request("a", None), Step::Analyze { .. }));
}

#[test]
fn result_ids_are_fresh() {
    let mut e = DiagnosticsEngine::new();
    e.open("a", "x");
    let r1 = match e.finish_request("a", &checksum("x"), "") {
        Report::Full { result_id, .. } => result_id.unwrap(),
        _ => panic!(),
    };
    let r2 = match e.finish_request("a", &checksum("x"), "") {
        Report::Full { result_id, .. } => result_id.unwrap(),
        _ => panic!(),
    };
    assert_ne!(r1, r2);
}

#[test]
fn memory_stats_count_documents() {
    let mut e = DiagnosticsEngine::new();
    e.open("a", "hello");
    e.open("b", "world!");
    e.open("a", "hi");
    let s = e.memory_stats();
    assert_eq!(s.documents, 2);
    assert_eq!(s.original_bytes, 8);
    assert_eq!(s.cached_results, 0);
    e.shutdown();
    assert_eq!(e.memory_stats().documents, 0);
}

#[test]
fn parse_reports() {
    let vs = parse_phpmd_output("{\"files\":[{\"file\":\"a\",\"violations\":[{\"beginLine\":4,\"description\":\"d\",\"rule\":\"GotoStatement\"}]},{\"file\":\"b\",\"violations\":[{\"beginLine\":1,\"endLine\":2,\"description\":\"e\",\"rule\":7,\"ruleSet\":\"Design Rules\",\"priority\":1}]}]}");
    assert_eq!(vs.len(), 2);
    assert_eq!(vs[0].begin_line, 4);
    assert_eq!(vs[0].end_line, 4);
    assert_eq!(vs[0].priority, 3);
    assert_eq!(vs[0].rule_set, "");
    assert_eq!(vs[1].rule, "");
    assert_eq!(vs[1].priority, 1);
    assert_eq!(vs[1].rule_set, "Design Rules");
}

#[test]
fn malformed_reports_hold_no_findings() {
    assert!(parse_phpmd_output("").is_empty());
    assert!(parse_phpmd_output("   \n").is_empty());
    assert!(parse_phpmd_output("{\"files\":").is_empty());
    assert!(parse_phpmd_output("{\"nofiles\":[]}").is_empty());
    assert!(parse_phpmd_output("{\"files\":[{\"violations\":[{\"description\":\"no line\",\"rule\":\"X\"}]}]}").is_empty());
    assert!(parse_phpmd_output("{\"files\":[{\"violations\":[{\"beginLine\":1,\"description\":\"no rule\"}]}]}").is_empty());
}

fn raw(begin: Option<u64>, description: Option<&str>, has_rule: bool) -> RawViolation {
    RawViolation {
        begin_line: begin,
        end_line: None,
        description: description.map(|s| s.to_string()),
        has_rule,
        rule: None,
        rule_set: None,
        priority: None,
        class: None,
        method: None,
        function: None,
    }
}

#[test]
fn decoding_records() {
    assert!(decode_violation(&raw(None, Some("d"), true)).is_none());
    assert!(decode_violation(&raw(Some(1), None, true)).is_none());
    assert!(decode_violation(&raw(Some(1), Some("d"), false)).is_none());
    let v = decode_violation(&raw(Some(7), Some("d"), true)).unwrap();
    assert_eq!((v.begin_line, v.end_line, v.priority), (7, 7, 3));
    assert_eq!(v.rule, "");
}

#[test]
fn diagnostic_without_rule_set_has_no_link() {
    let v = Violation {
        begin_line: 1,
        end_line: 1,
        description: "d".to_string(),
        rule: String::new(),
        rule_set: String::new(),
        priority: 5,
        class: None,
        method: None,
        function: Some("f".to_string()),
    };
    let d = convert_violation_to_diagnostic(&v, None).unwrap();
    assert_eq!(d.code, None);
    assert_eq!(d.code_href, None);
    assert_eq!(d.severity, Severity::Information);
    assert_eq!(d.function.as_deref(), Some("f"));
}

#[test]
fn invocations() {
    let plain = build_invocation("/w/vendor/bin/phpmd", "/tmp/t.php", Some("naming"));
    assert_eq!(plain.program, "/w/vendor/bin/phpmd");
    assert_eq!(plain.args, vec!["/tmp/t.php", "json", "--error-file", "/dev/null", "naming"]);
    let phar = build_invocation("/opt/phpmd.phar", "/tmp/t.php", None);
    assert_eq!(phar.program, "php");
    assert_eq!(phar.args.len(), 14);
    assert_eq!(phar.args[1], "error_reporting=0");
    assert_eq!(phar.args[8], "/opt/phpmd.phar");
    assert_eq!(phar.args[13], DEFAULT_RULESETS);
}

#[test]
fn engine_invocation_uses_current_rulesets() {
    let mut e = DiagnosticsEngine::new();
    assert!(e.needs_discovery());
    assert_eq!(e.invocation("phpmd", "t.php").args[4], DEFAULT_RULESETS);
    e.set_rulesets(DEFAULT_RULESETS.to_string());
    assert!(e.needs_discovery());
    assert!(!e.apply_initialization(Some("/w/phpmd.xml".to_string())));
    assert!(!e.needs_discovery());
    assert_eq!(e.invocation("phpmd", "t.php").args[4], "/w/phpmd.xml");
    assert!(e.apply_initialization(None));
}

#[test]
fn analyzer_choice() {
    let mut e = DiagnosticsEngine::new();
    assert_eq!(e.choose_analyzer_path(Some("/w/vendor/bin/phpmd".to_string()), Some("/b/phpmd.phar".to_string())), "/w/vendor/bin/phpmd");
    assert_eq!(e.choose_analyzer_path(None, Some("/b/phpmd.phar".to_string())), "/b/phpmd.phar");
    assert_eq!(e.analyzer_path().as_deref(), Some("/b/phpmd.phar"));
    assert_eq!(e.choose_analyzer_path(None, None), "phpmd");
}

#[test]
fn temp_files() {
    assert_eq!(temp_file_name("abc"), "phpmd-abc.php");
    let a = fresh_temp_file_name();
    let b = fresh_temp_file_name();
    assert_eq!(a.len(), 6 + 36 + 4);
    assert!(a.starts_with("phpmd-") && a.ends_with(".php"));
    assert_ne!(a, b);
}

#[test]
fn configuration_discovery() {
    let cs = vec![
        ConfigCandidate { path: "/w/phpmd.xml".to_string(), contents: Some("<xml/>".to_string()) },
        ConfigCandidate { path: "/w/phpmd.xml.dist".to_string(), contents: None },
        ConfigCandidate { path: "/w/.phpmd.xml".to_string(), contents: Some("<ruleset name=\"x\"></ruleset>".to_string()) },
    ];
    assert_eq!(discover_rulesets(&cs), "/w/.phpmd.xml");
    let unusable = vec![
        ConfigCandidate { path: "/w/phpmd.xml".to_string(), contents: Some("<xml/>".to_string()) },
        ConfigCandidate { path: "/w/phpmd.xml.dist".to_string(), contents: None },
    ];
    assert_eq!(discover_rulesets(&unusable), DEFAULT_RULESETS);
    assert!(is_ruleset_config("<ruleset>\n</ruleset>"));
    assert!(!is_ruleset_config("<ruleset>"));
}

#[test]
fn slot_pool_never_exceeds_capacity() {
    let mut p = SlotPool::new(ANALYZER_SLOTS);
    let mut entered = 0;
    for _ in 0..10 {
        if p.try_enter() {
            entered += 1;
        }
        assert!(p.in_use() <= p.capacity());
    }
    assert_eq!(entered, 4);
    p.leave();
    assert_eq!(p.in_use(), 3);
    assert!(p.try_enter());
    assert!(!p.try_enter());
}

#[test]
fn undecodable_documents_name_the_failure() {
    let mut doc = compress_document("hello");
    doc.compressed_data = vec![1, 2];
    assert_eq!(decompress_document(&doc), Err(DecodeError::Corrupt));
    doc.compressed_data = lz4_flex::compress_prepend_size(&[0xff, 0xfe, 0x41]);
    assert_eq!(decompress_document(&doc), Err(DecodeError::NotText));
    assert_eq!(checksum("").len(), 64);
}

#[test]
fn reports_flatten_in_file_then_record_order() {
    let report = "{\"files\":[{\"file\":\"/a\",\"violations\":[{\"beginLine\":1,\"description\":\"x\",\"rule\":\"R\"},{\"beginLine\":2,\"description\":\"y\",\"rule\":\"R\"}]},{\"file\":\"/other\"},{\"file\":\"/b\",\"violations\":[{\"beginLine\":1,\"description\":\"x\",\"rule\":\"R\"}]}]}";
    let vs = parse_phpmd_output(report);
    assert_eq!(vs.len(), 3);
    assert_eq!((vs[0].begin_line, vs[1].begin_line, vs[2].begin_line), (1, 2, 1));
    assert_eq!(vs[0].description, vs[2].description);
    assert!(parse_phpmd_output("[1, 2]").is_empty());
    assert!(parse_phpmd_output("{\"files\": 3}").is_empty());
}

#[test]
fn records_of_each_file() {
    let files = vec![Some(vec![raw(Some(5), Some("a"), true), raw(None, Some("b"), true)]), None, Some(vec![raw(Some(6), Some("c"), true)])];
    let vs = violations_of(&files);
    assert_eq!(vs.len(), 2);
    assert_eq!(vs[0].description, "a");
    assert_eq!(vs[1].begin_line, 6);
}

#[test]
fn plain_rule_sets_always_give_a_diagnostic() {
    let v = Violation {
        begin_line: 3,
        end_line: 40,
        description: "d".to_string(),
        rule: "CyclomaticComplexity".to_string(),
        rule_set: "Code Size Rules 2".to_string(),
        priority: 3,
        class: None,
        method: None,
        function: None,
    };
    let d = convert_violation_to_diagnostic(&v, None).unwrap();
    assert_eq!(d.code_href.as_deref(), Some("https://phpmd.org/rules/codesizerules2.html"));
    assert_eq!((d.range.start_line, d.range.end_line), (2, 2));
    assert_eq!(d.severity, Severity::Warning);
}

#[test]
fn failed_requests_answer_nothing() {
    let e = DiagnosticsEngine::new();
    match e.fail_request() {
        Report::Full { result_id, diagnostics } => {
            assert_eq!(result_id, None);
            assert!(diagnostics.is_empty());
        }
        _ => panic!("expected a full report"),
    }
}

#[test]
fn numbers_that_are_not_line_numbers() {
    let vs = parse_phpmd_output("{\"files\":[{\"violations\":[{\"beginLine\":1.5,\"description\":\"a\",\"rule\":\"R\"},{\"beginLine\":2,\"description\":\"b\",\"rule\":\"R\",\"priority\":-1}]}]}");
    assert_eq!(vs.len(), 1);
    assert_eq!(vs[0].description, "b");
    assert_eq!(vs[0].priority, 3);
}
