use container_logs::lines::split_text;

#[test]
fn split_text_at_newlines() {
    assert_eq!(split_text("a\nb"), vec!["a", "b"]);
    assert_eq!(split_text("a\n"), vec!["a", ""]);
    assert_eq!(split_text("\na"), vec!["", "a"]);
    assert_eq!(split_text(""), vec![""]);
    assert_eq!(split_text("\n\n"), vec!["", "", ""]);
    assert_eq!(split_text("no newline"), vec!["no newline"]);
}

#[test]
fn split_text_keeps_characters_whole() {
    assert_eq!(split_text("grüße\n✓ ok\nü"), vec!["grüße", "✓ ok", "ü"]);
}

#[test]
fn split_text_agrees_with_the_standard_split() {
    for text in ["", "x", "\n", "a\n\nb\n", "é\nü", "one\r\ntwo"] {
        let expected: Vec<String> = text.split('\n').map(|part| part.to_string()).collect();
        assert_eq!(split_text(text), expected);
    }
}

#[test]
fn joining_the_lines_gives_the_text_back() {
    for text in ["a\nb\n\nc", "\n", "", "xyz", "é\n✓"] {
        let lines = split_text(text);
        assert_eq!(lines.join("\n"), text);
        assert!(lines.iter().all(|line| !line.contains('\n')));
    }
}
