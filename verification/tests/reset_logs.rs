use edgerouter_scripts::reset_logs::{
    bookmark_line_number, last_nonempty_line, logs_body_json, new_log_lines,
};

#[test]
fn logs_body_json_escapes_newlines_and_quotes() {
    let json = logs_body_json("line 1\nline \"two\"");
    assert_eq!(json, r#"{"logs":"line 1\nline \"two\""}"#);
}

#[test]
fn logs_body_json_escapes_controls_and_backslash() {
    assert_eq!(logs_body_json("a\\b\t\u{1}é"), "{\"logs\":\"a\\\\b\\t\\u0001é\"}");
    assert_eq!(logs_body_json(""), r#"{"logs":""}"#);
}

#[test]
fn bookmark_is_last_matching_line() {
    let log = "a\nb\na\nc\n";
    assert_eq!(bookmark_line_number(log, "a\n"), 3);
    assert_eq!(bookmark_line_number(log, "a"), 3);
    assert_eq!(bookmark_line_number(log, "b\n\n"), 2);
    assert_eq!(bookmark_line_number(log, "zzz"), 0);
    assert_eq!(bookmark_line_number("", "a"), 0);
}

#[test]
fn new_lines_skip_uploaded_and_empty_lines() {
    let log = "one\n\ntwo\nthree\n\nfour\n";
    assert_eq!(new_log_lines(log, 0), "one\ntwo\nthree\nfour");
    assert_eq!(new_log_lines(log, 3), "three\nfour");
    assert_eq!(new_log_lines(log, 6), "");
    assert_eq!(new_log_lines(log, 60), "");
    assert_eq!(new_log_lines("x\r\ny", 0), "x\ny");
}

#[test]
fn last_nonempty_line_of_upload() {
    assert_eq!(last_nonempty_line("one\ntwo\n\n"), "two");
    assert_eq!(last_nonempty_line(""), "");
    assert_eq!(last_nonempty_line("\n\n"), "");
}

#[test]
fn uploaded_text_then_bookmark_leaves_nothing_new() {
    let log = "2024 one\n2024 two\n\n";
    let start = 0;
    let body = new_log_lines(log, start);
    let last = last_nonempty_line(&body);
    let next_start = bookmark_line_number(log, &last);
    assert_eq!(next_start, 2);
    assert_eq!(new_log_lines(log, next_start), "");
}
