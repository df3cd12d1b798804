use container_logs::patterns::PatternSet;
use container_logs::render::{parse_log_str, RenderDecision};

fn printed(line: &str) -> String {
    match parse_log_str(&PatternSet::new().unwrap(), line) {
        Ok(RenderDecision::Print(text)) => text,
        other => panic!("not printed: {:?}", other),
    }
}

#[test]
fn styles_show_only_where_colours_are_enabled() {
    console::set_colors_enabled(true);
    let text = printed("[2024-01-01T10:00:00+00:00] app.ERROR: [Exception] failure");
    assert!(text.starts_with("[\x1b[33m"));
    assert!(text.contains("\x1b[0m] \x1b[1m\x1b[4mapp.ERROR\x1b[0m: [\x1b[35mException\x1b[0m] failure"));
    let notice = printed("NOTICE: PHP message: 2024-01-01T10:00:00+00:00 [warning] cache miss");
    assert_eq!(
        notice,
        "[\x1b[33m2024-01-01T10:00:00+00:00\x1b[0m] \x1b[1mwarning\x1b[0m cache miss"
    );
    console::set_colors_enabled(false);
    let notice = printed("NOTICE: PHP message: 2024-01-01T10:00:00+00:00 [warning] cache miss");
    assert_eq!(notice, "[2024-01-01T10:00:00+00:00] warning cache miss");
}
