use phpmd_lsp::extract::extract_json_from_output;

#[test]
fn payload_between_log_lines() {
    let raw = "DEBUG: starting\n{\"files\":[]}\nDEBUG: done";
    assert_eq!(extract_json_from_output(raw), "{\"files\":[]}");
}

#[test]
fn output_without_object_is_unchanged() {
    assert_eq!(extract_json_from_output("no json here"), "no json here");
    assert_eq!(extract_json_from_output(""), "");
}

#[test]
fn unbalanced_object_is_unchanged() {
    let raw = "log {\"files\": [";
    assert_eq!(extract_json_from_output(raw), raw);
}

#[test]
fn braces_inside_strings_do_not_count() {
    let raw = "x {\"a\":\"}{\\\"}\"} tail }";
    assert_eq!(extract_json_from_output(raw), "{\"a\":\"}{\\\"}\"}");
}

#[test]
fn nested_objects_close_at_the_outer_brace() {
    let raw = "{\"a\":{\"b\":{}}} {\"c\":1}";
    assert_eq!(extract_json_from_output(raw), "{\"a\":{\"b\":{}}}");
}
