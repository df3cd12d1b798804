use container_logs::recolor::{
    color_json_spans, find_and_color_json, make_json_colored, splice_spans, FaultKind,
};
use container_logs::spans::search_json;

fn plain(text: &str) -> String {
    console::strip_ansi_codes(text).into_owned()
}

#[test]
fn splice_puts_replacements_in_place() {
    let text = "a {x} b {y} c";
    let spans = vec![2..5, 8..11];
    let replacements = vec![Some("<1>".to_string()), Some("<two>".to_string())];
    assert_eq!(splice_spans(text, &spans, &replacements), "a <1> b <two> c");
}

#[test]
fn splice_keeps_spans_without_replacement() {
    let text = "a {x} b {y} c";
    let spans = vec![2..5, 8..11];
    let replacements = vec![None, Some("".to_string())];
    assert_eq!(splice_spans(text, &spans, &replacements), "a {x} b  c");
}

#[test]
fn splice_without_spans_is_the_text() {
    assert_eq!(splice_spans("héllo", &vec![], &vec![]), "héllo");
}

#[test]
fn splice_handles_spans_at_both_ends() {
    let text = "{a}{b}";
    let spans = vec![0..3, 3..6];
    let replacements = vec![Some("1".to_string()), Some("2".to_string())];
    assert_eq!(splice_spans(text, &spans, &replacements), "12");
}

#[test]
fn valid_json_is_written_again_in_compact_form() {
    let text = "got { \"a\" : 1 ,\"b\":[1, 2] } here";
    let out = make_json_colored(text, search_json(text));
    assert_eq!(plain(&out), "got {\"a\":1,\"b\":[1,2]} here");
}

#[test]
fn span_that_is_not_json_is_left_untouched() {
    let text = "got {not json} and {\"ok\": true}";
    let out = make_json_colored(text, search_json(text));
    assert_eq!(plain(&out), "got {not json} and {\"ok\":true}");
    assert!(out.starts_with("got {not json} and "));
}

#[test]
fn later_spans_stay_in_place_when_an_earlier_one_changes_length() {
    let text = "{ \"first\" : 1 } mid {\"second\":   2} end";
    let out = make_json_colored(text, search_json(text));
    assert_eq!(plain(&out), "{\"first\":1} mid {\"second\":2} end");
}

#[test]
fn no_ranges_means_no_change() {
    assert_eq!(make_json_colored("{\"a\": 1}", vec![]), "{\"a\": 1}");
}

#[test]
fn find_and_color_json_changes_the_text_in_place() {
    let mut text = String::from("x { \"a\" : [ ] } y");
    let shown = find_and_color_json(&mut text).to_string();
    assert_eq!(plain(&shown), "x {\"a\":[]} y");
    assert_eq!(shown, text);
}

#[test]
fn find_and_color_json_keeps_text_without_json() {
    let mut text = String::from("nothing {here");
    assert_eq!(find_and_color_json(&mut text), "nothing {here");
    assert_eq!(text, "nothing {here");
}

#[test]
fn spans_that_are_no_json_are_reported() {
    let text = "a {not json} b {\"ok\": 1} c {also: bad}";
    let out = color_json_spans(text, search_json(text));
    assert_eq!(plain(&out.text), "a {not json} b {\"ok\":1} c {also: bad}");
    assert_eq!(out.faults.len(), 2);
    assert_eq!(out.faults[0].span, 2..12);
    assert_eq!(out.faults[0].kind, FaultKind::NotJson);
    assert_eq!(&text[out.faults[1].span.clone()], "{also: bad}");
    assert_eq!(out.faults[1].kind, FaultKind::NotJson);
    assert!(!out.faults[0].cause.to_string().is_empty());
}

#[test]
fn valid_spans_leave_no_fault() {
    let text = "{\"a\": 1} and {\"b\": [true, null]}";
    let out = color_json_spans(text, search_json(text));
    assert!(out.faults.is_empty());
    assert_eq!(plain(&out.text), "{\"a\":1} and {\"b\":[true,null]}");
    assert!(color_json_spans("no spans", vec![]).faults.is_empty());
}

#[test]
fn the_written_form_is_the_plain_or_the_coloured_one() {
    let text = "{ \"a\" : 1 }";
    let out = make_json_colored(text, search_json(text));
    let compact = "{\"a\":1}";
    assert!(out == compact || (out != compact && plain(&out) == compact));
}
