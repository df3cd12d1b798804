use container_logs::patterns::PatternSet;
use container_logs::recolor::FaultKind;
use container_logs::render::{
    application_line, is_quiet_level, notice_line, parse_log_str, recolor, render_line,
    RenderDecision, RenderError,
};

fn patterns() -> PatternSet {
    PatternSet::new().unwrap()
}

fn printed(line: &str) -> String {
    match parse_log_str(&patterns(), line) {
        Ok(RenderDecision::Print(text)) => console::strip_ansi_codes(&text).into_owned(),
        other => panic!("not printed: {:?}", other),
    }
}

fn suppressed(line: &str) -> bool {
    matches!(parse_log_str(&patterns(), line), Ok(RenderDecision::Suppress))
}

#[test]
fn the_patterns_compile() {
    assert!(PatternSet::new().is_ok());
}

#[test]
fn application_line_is_printed_with_time_level_class_and_message() {
    let text =
        printed(r#"[2024-01-01T10:00:00+00:00] app.ERROR: [Exception] failure {"code":500}"#);
    assert!(text.starts_with('['));
    let rest = text.split_once("] ").unwrap().1;
    assert_eq!(rest, r#"app.ERROR: [Exception] failure {"code":500}"#);
    let time = &text[1..text.find("] ").unwrap()];
    assert_eq!(time.len(), 17);
}

#[test]
fn application_line_with_fraction_and_without_class() {
    let text = printed("[2024-01-01T10:00:00.123456+02:00] request.WARNING: slow { \"ms\" : 12 }");
    let rest = text.split_once("] ").unwrap().1;
    assert_eq!(rest, "request.WARNING: slow {\"ms\":12}");
}

#[test]
fn application_line_of_a_recent_time_reads_relative() {
    let at = chrono::Utc::now() - chrono::TimeDelta::minutes(5) - chrono::TimeDelta::seconds(2);
    let line = format!("[{}] app.INFO: fresh", at.to_rfc3339());
    assert_eq!(printed(&line), "[5 minutes ago] app.INFO: fresh");
}

#[test]
fn quiet_levels_are_left_out() {
    assert!(suppressed("[2024-01-01T10:00:00+00:00] security.DEBUG: checking"));
    assert!(suppressed("[2024-01-01T10:00:00+00:00] security.INFO: [Firewall] ok"));
    assert!(!suppressed("[2024-01-01T10:00:00+00:00] security.ERROR: denied"));
}

#[test]
fn quiet_levels_are_named_exactly() {
    assert!(is_quiet_level(&"security.DEBUG".to_string()));
    assert!(is_quiet_level(&"security.INFO".to_string()));
    assert!(!is_quiet_level(&"security.WARNING".to_string()));
    assert!(!is_quiet_level(&"app.DEBUG".to_string()));
    assert!(!is_quiet_level(&"".to_string()));
}

#[test]
fn quiet_level_is_left_out_even_with_an_unreadable_timestamp() {
    assert!(suppressed("[2024-13-01T10:00:00+00:00] security.DEBUG: checking"));
}

#[test]
fn unreadable_timestamp_is_an_error() {
    let outcome = parse_log_str(&patterns(), "[2024-13-01T10:00:00+00:00] app.ERROR: broken");
    match outcome {
        Err(RenderError::BadTimestamp(stamp)) => assert_eq!(stamp, "2024-13-01T10:00:00+00:00"),
        other => panic!("no error: {:?}", other),
    }
}

#[test]
fn notice_is_printed_with_timestamp_and_level() {
    let text = printed(
        "NOTICE: PHP message: 2024-01-01T10:00:00+00:00 [warning] cache miss {\"key\": 1}",
    );
    assert_eq!(text, "[2024-01-01T10:00:00+00:00] warning cache miss {\"key\": 1}");
}

#[test]
fn web_server_access_line_is_left_out() {
    assert!(suppressed(r#""01/Jan/2024:10:00:00 +0000" GET /index.php 200"#));
}

#[test]
fn reverse_proxy_access_line_is_left_out() {
    assert!(suppressed(
        r#"10.0.0.1 - - [01/Jan/2024:10:00:00 +0000] "GET / HTTP/1.1" 200 612"#
    ));
    assert!(suppressed(
        r#"192.168.1.20 - alice [01/Jan/2024:10:00:00 +0000] "POST /login HTTP/1.1" 302 0"#
    ));
}

#[test]
fn gateway_error_marker_is_left_out() {
    assert!(suppressed(
        "2024/01/01 10:00:00 [error] 7#7: *1 FastCGI sent in stderr: \"PHP message\""
    ));
}

#[test]
fn process_manager_line_is_left_out() {
    assert!(suppressed("[01-Jan-2024 10:00:00] NOTICE: [pool www] child 12 started"));
}

#[test]
fn empty_and_blank_lines_are_left_out() {
    assert!(suppressed(""));
    assert!(suppressed("   "));
    assert!(suppressed("\t \r"));
    assert!(suppressed("\u{a0}\u{2003}\u{3000}"));
}

#[test]
fn line_of_no_known_format_is_printed_with_the_mark() {
    assert_eq!(printed("hello world"), "hello world↵");
    assert_eq!(printed("  indented"), "  indented↵");
}

#[test]
fn line_of_no_known_format_has_its_json_recoloured() {
    assert_eq!(printed("state { \"up\" : true } now"), "state {\"up\":true} now↵");
}

#[test]
fn rendering_twice_gives_the_same_text() {
    let set = patterns();
    for line in ["plain words", "with {braces} inside", "json {\"a\": [1, 2]} here", "open {"] {
        let first = match parse_log_str(&set, line) {
            Ok(RenderDecision::Print(text)) => text,
            other => panic!("not printed: {:?}", other),
        };
        let second = match parse_log_str(&set, line) {
            Ok(RenderDecision::Print(text)) => text,
            other => panic!("not printed: {:?}", other),
        };
        assert_eq!(first, second);
    }
    assert_eq!(printed("with {braces} inside"), "with {braces} inside↵");
}

#[test]
fn complete_objects_are_recoloured_before_a_dangling_brace() {
    assert_eq!(
        console::strip_ansi_codes(&recolor("a { \"x\" : 1 } b {")).into_owned(),
        "a {\"x\":1} b {"
    );
    assert_eq!(recolor("a { { \"x\" : 1 } b"), "a { { \"x\" : 1 } b");
}

#[test]
fn application_line_parts_are_joined() {
    assert_eq!(application_line("t", "l", Some("c"), "m"), "[t] l: [c] m");
    assert_eq!(application_line("t", "l", None, "m"), "[t] l: m");
    assert_eq!(application_line("", "", None, ""), "[] : ");
}

#[test]
fn notice_line_parts_are_joined() {
    assert_eq!(notice_line("t", "l", "m"), "[t] l m");
}

#[test]
fn first_format_wins() {
    // The gateway marker inside the message of an application line does not
    // make the line a gateway error.
    let text = printed("[2024-01-01T10:00:00+00:00] app.ERROR: FastCGI sent in stderr");
    assert!(text.ends_with("] app.ERROR: FastCGI sent in stderr"));
}

#[test]
fn kept_spans_are_listed_beside_the_decision() {
    let set = patterns();
    let done = render_line(&set, "state {up} and {\"n\": 1}").unwrap();
    assert!(matches!(done.decision, RenderDecision::Print(_)));
    assert_eq!(done.faults.len(), 1);
    assert_eq!(done.faults[0].span, 6..10);
    assert_eq!(done.faults[0].kind, FaultKind::NotJson);

    let done =
        render_line(&set, "[2024-01-01T10:00:00+00:00] app.ERROR: failed {oops} badly").unwrap();
    assert_eq!(done.faults.len(), 1);
    assert_eq!(done.faults[0].span, 7..13);

    let done = render_line(&set, "[2024-01-01T10:00:00+00:00] security.INFO: {oops}").unwrap();
    assert!(matches!(done.decision, RenderDecision::Suppress));
    assert!(done.faults.is_empty());

    let done = render_line(&set, "plain words").unwrap();
    assert!(done.faults.is_empty());
}

#[test]
fn render_line_decides_as_parse_log_str_does() {
    let set = patterns();
    for line in ["", "words", "\"01/Jan/2024:10:00:00 +0000\" GET /", "json {\"a\": 1}"] {
        let decision = format!("{:?}", render_line(&set, line).map(|done| done.decision));
        assert_eq!(decision, format!("{:?}", parse_log_str(&set, line)));
    }
    assert!(render_line(&set, "[2024-99-01T10:00:00+00:00] app.ERROR: x").is_err());
}
