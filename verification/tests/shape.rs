use container_logs::patterns::{Format, PatternSet};
use container_logs::shape::{application_record, classify, is_blank, notice_record, LineShape};

fn groups(parts: &[Option<&str>]) -> Option<Vec<Option<String>>> {
    Some(parts.iter().map(|part| part.map(|text| text.to_string())).collect())
}

#[test]
fn blank_means_only_white_space() {
    assert!(is_blank(""));
    assert!(is_blank(" \t\n\r\u{b}\u{c}"));
    assert!(is_blank("\u{85}\u{a0}\u{1680}\u{2000}\u{200a}\u{2028}\u{2029}\u{202f}\u{205f}\u{3000}"));
    assert!(!is_blank(" a "));
    assert!(!is_blank("\u{200b}"));
    assert!(!is_blank("\u{8}"));
    assert!(!is_blank("\u{e}"));
}

#[test]
fn blank_agrees_with_trimming() {
    for text in ["", " ", "x", " x", "\u{a0}", "\u{feff}", "\u{180e}", "\u{1f}", "\u{2000} \t"] {
        assert_eq!(is_blank(text), text.trim().is_empty());
    }
}

#[test]
fn application_record_takes_its_fields() {
    let record =
        application_record(groups(&[Some("all"), Some("t"), Some("l"), Some("c"), Some("m")]))
            .unwrap();
    assert_eq!(record.timestamp, "t");
    assert_eq!(record.level, "l");
    assert_eq!(record.class.as_deref(), Some("c"));
    assert_eq!(record.message, "m");
    let record =
        application_record(groups(&[Some("all"), Some("t"), Some("l"), None, Some("m")])).unwrap();
    assert_eq!(record.class, None);
}

#[test]
fn application_record_needs_five_groups_and_the_three_fields() {
    assert!(application_record(None).is_none());
    assert!(application_record(groups(&[Some("all"), Some("t"), Some("l"), Some("m")])).is_none());
    assert!(application_record(groups(&[Some("all"), None, Some("l"), None, Some("m")])).is_none());
    assert!(application_record(groups(&[Some("all"), Some("t"), None, None, Some("m")])).is_none());
    assert!(application_record(groups(&[Some("all"), Some("t"), Some("l"), None, None])).is_none());
}

#[test]
fn notice_record_takes_its_fields() {
    let record = notice_record(groups(&[Some("all"), Some("t"), Some("l"), Some("m")])).unwrap();
    assert_eq!(record.timestamp, "t");
    assert_eq!(record.level, "l");
    assert_eq!(record.message, "m");
    assert!(notice_record(None).is_none());
    assert!(notice_record(groups(&[Some("all"), Some("t"), Some("l")])).is_none());
    assert!(notice_record(groups(&[Some("all"), Some("t"), None, Some("m")])).is_none());
}

#[test]
fn captures_list_every_group() {
    let set = PatternSet::new().unwrap();
    let line = "[2024-01-01T10:00:00+00:00] app.ERROR: [Exception] failure";
    let found = set.captures(Format::Application, line).unwrap();
    assert_eq!(
        found,
        vec![
            Some(line.to_string()),
            Some("2024-01-01T10:00:00+00:00".to_string()),
            Some("app.ERROR".to_string()),
            Some("Exception".to_string()),
            Some("failure".to_string()),
        ]
    );
    let found = set.captures(Format::Application, "[2024-01-01T10:00:00+00:00] a.B: m").unwrap();
    assert_eq!(found[3], None);
    assert!(set.captures(Format::Application, "nothing").is_none());
    assert!(set.is_match(Format::GatewayError, "x FastCGI sent in stderr y"));
    assert!(!set.is_match(Format::GatewayError, "fastcgi sent in stderr"));
}

#[test]
fn lines_are_classified_in_order() {
    let set = PatternSet::new().unwrap();
    assert!(matches!(
        classify(&set, "[2024-01-01T10:00:00+00:00] app.ERROR: x"),
        LineShape::Application(_)
    ));
    assert!(matches!(
        classify(&set, "NOTICE: PHP message: 2024-01-01T10:00:00+00:00 [info] x"),
        LineShape::Notice(_)
    ));
    assert!(matches!(
        classify(&set, "\"01/Jan/2024:10:00:00 +0000\" GET /"),
        LineShape::WebAccess
    ));
    assert!(matches!(
        classify(&set, "10.0.0.1 - - [01/Jan/2024:10:00:00 +0000] GET /"),
        LineShape::ProxyAccess
    ));
    assert!(matches!(classify(&set, "FastCGI sent in stderr"), LineShape::GatewayError));
    assert!(matches!(
        classify(&set, "[01-Jan-2024 10:00:00] NOTICE: [pool www] up"),
        LineShape::ProcessManager
    ));
    assert!(matches!(classify(&set, "anything else"), LineShape::Unrecognized));
    assert!(matches!(classify(&set, " \t"), LineShape::Blank));
}
