use container_logs::stream::StreamReassembler;

#[test]
fn multi_line_json_is_one_line() {
    let mut lines = StreamReassembler::new();
    let out = lines.push_chunk(b"{\n\"a\": 1\n}\n");
    assert_eq!(out, vec!["{\"a\": 1}".to_string()]);
    assert_eq!(lines.pending_len(), 0);
}

#[test]
fn multi_line_json_followed_by_more_text() {
    let mut lines = StreamReassembler::new();
    let out = lines.push_chunk(b"{\n\"a\": 1\n}\nnext");
    assert_eq!(out, vec!["{\"a\": 1}".to_string()]);
    assert_eq!(lines.pending_len(), 4);
}

#[test]
fn each_newline_ends_a_line() {
    let mut lines = StreamReassembler::new();
    assert_eq!(lines.push_chunk(b"one\ntwo\nthree\n"), vec!["one", "two", "three"]);
}

#[test]
fn line_without_newline_waits_for_the_next_chunk() {
    let mut lines = StreamReassembler::new();
    assert!(lines.push_chunk(b"hel").is_empty());
    assert_eq!(lines.pending_len(), 3);
    assert!(lines.push_chunk(b"lo wor").is_empty());
    assert_eq!(lines.push_chunk(b"ld\nnext"), vec!["hello world"]);
    assert_eq!(lines.pending_len(), 4);
    assert_eq!(lines.push_chunk(b"\n"), vec!["next"]);
    assert_eq!(lines.pending_len(), 0);
}

#[test]
fn json_split_over_chunks_waits_until_it_balances() {
    let mut lines = StreamReassembler::new();
    assert!(lines.push_chunk(b"payload {\"a\":\n").is_empty());
    assert!(lines.push_chunk(b"{\"b\": 2}\n").is_empty());
    assert_eq!(lines.push_chunk(b"}\n"), vec!["payload {\"a\":{\"b\": 2}}"]);
}

#[test]
fn empty_lines_are_not_handed_out() {
    let mut lines = StreamReassembler::new();
    assert_eq!(lines.push_chunk(b"\n\na\n\n"), vec!["a"]);
    assert!(lines.push_chunk(b"").is_empty());
    assert!(lines.push_chunk(b"\n").is_empty());
}

#[test]
fn character_cut_by_a_chunk_boundary_is_whole_again() {
    let bytes = "grüße\n".as_bytes();
    let mut lines = StreamReassembler::new();
    assert!(lines.push_chunk(&bytes[..3]).is_empty());
    assert_eq!(lines.push_chunk(&bytes[3..]), vec!["grüße"]);
}

#[test]
fn invalid_bytes_in_a_chunk_are_replaced() {
    let mut lines = StreamReassembler::new();
    assert_eq!(lines.push_chunk(b"a\xc3\n"), vec!["a\u{fffd}"]);
}

#[test]
fn brace_inside_a_string_does_not_hold_the_line_back() {
    let mut lines = StreamReassembler::new();
    assert_eq!(lines.push_chunk(b"say \"{\" now\n"), vec!["say \"{\" now"]);
}

#[test]
fn lines_do_not_depend_on_where_the_stream_is_cut() {
    let stream = "first\n{\n\"a\": [1,\n2]\n}\nlast {\"b\":1}\nrest".as_bytes();
    let mut whole = StreamReassembler::new();
    let expected = whole.push_chunk(stream);
    assert_eq!(expected, vec!["first", "{\"a\": [1,2]}", "last {\"b\":1}"]);
    for cut in 0..=stream.len() {
        let mut parts = StreamReassembler::new();
        let mut lines = parts.push_chunk(&stream[..cut]);
        lines.extend(parts.push_chunk(&stream[cut..]));
        assert_eq!(lines, expected);
        assert_eq!(parts.pending_len(), whole.pending_len());
    }
}
