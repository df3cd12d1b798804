use container_logs::frames::{FrameReassembler, MAX_FRAME_SIZE};

#[test]
fn short_frame_gives_one_line_without_its_terminator() {
    let mut lines = FrameReassembler::new();
    let out = lines.push_frame(b"2024-01-01T00:00:00Z INFO hello\n");
    assert_eq!(out, vec!["2024-01-01T00:00:00Z INFO hello".to_string()]);
    assert_eq!(lines.pending_len(), 0);
}

#[test]
fn full_frames_are_joined_with_the_short_frame_that_follows() {
    let first = vec![b'a'; MAX_FRAME_SIZE];
    let second = vec![b'b'; MAX_FRAME_SIZE];
    let third = b"tail\n".to_vec();
    let mut lines = FrameReassembler::new();
    assert_eq!(lines.push_frame(&first), Vec::<String>::new());
    assert_eq!(lines.pending_len(), MAX_FRAME_SIZE);
    assert_eq!(lines.push_frame(&second), Vec::<String>::new());
    assert_eq!(lines.pending_len(), 2 * MAX_FRAME_SIZE);
    let out = lines.push_frame(&third);
    let mut whole = "a".repeat(MAX_FRAME_SIZE);
    whole.push_str(&"b".repeat(MAX_FRAME_SIZE));
    whole.push_str("tail");
    assert_eq!(out, vec![whole]);
    assert_eq!(lines.pending_len(), 0);
}

#[test]
fn full_frame_loses_only_a_newline_at_its_end() {
    let mut full = vec![b'x'; MAX_FRAME_SIZE - 1];
    full.push(b'\n');
    let mut lines = FrameReassembler::new();
    assert!(lines.push_frame(&full).is_empty());
    assert_eq!(lines.pending_len(), MAX_FRAME_SIZE - 1);
    let out = lines.push_frame(b"y\n");
    assert_eq!(out.len(), 1);
    assert_eq!(out[0].len(), MAX_FRAME_SIZE);
    assert!(out[0].ends_with("xy"));
}

#[test]
fn frame_one_byte_short_of_full_ends_the_line() {
    let frame = vec![b'z'; MAX_FRAME_SIZE - 1];
    let mut lines = FrameReassembler::new();
    let out = lines.push_frame(&frame);
    assert_eq!(out, vec!["z".repeat(MAX_FRAME_SIZE - 1)]);
}

#[test]
fn frame_without_terminator_keeps_its_last_byte() {
    let mut lines = FrameReassembler::new();
    assert_eq!(lines.push_frame(b"no newline"), vec!["no newline".to_string()]);
}

#[test]
fn newlines_inside_a_frame_split_it() {
    let mut lines = FrameReassembler::new();
    let out = lines.push_frame(b"one\ntwo\n\nthree\n");
    assert_eq!(out, vec!["one", "two", "", "three"]);
}

#[test]
fn empty_frame_on_an_empty_buffer_gives_nothing() {
    let mut lines = FrameReassembler::new();
    assert!(lines.push_frame(b"").is_empty());
    assert!(lines.push_frame(b"\n").is_empty());
    assert_eq!(lines.pending_len(), 0);
}

#[test]
fn empty_frame_flushes_what_is_held() {
    let full = vec![b'q'; MAX_FRAME_SIZE];
    let mut lines = FrameReassembler::new();
    assert!(lines.push_frame(&full).is_empty());
    assert_eq!(lines.push_frame(b""), vec!["q".repeat(MAX_FRAME_SIZE)]);
}

#[test]
fn invalid_bytes_are_replaced() {
    let mut lines = FrameReassembler::new();
    let out = lines.push_frame(b"a\xffb\n");
    assert_eq!(out, vec!["a\u{fffd}b".to_string()]);
}

#[test]
fn character_cut_by_a_frame_boundary_is_whole_again() {
    let text = "é".repeat(MAX_FRAME_SIZE / 2 + 1);
    let bytes = text.as_bytes();
    let mut lines = FrameReassembler::new();
    assert!(lines.push_frame(&bytes[..MAX_FRAME_SIZE]).is_empty());
    let out = lines.push_frame(&bytes[MAX_FRAME_SIZE..]);
    assert_eq!(out, vec![text.clone()]);
}

#[test]
fn full_frames_that_end_in_a_newline_still_give_one_line() {
    let mut first = vec![b'a'; MAX_FRAME_SIZE - 1];
    first.push(b'\n');
    let mut second = vec![b'b'; MAX_FRAME_SIZE - 1];
    second.push(b'\n');
    let mut lines = FrameReassembler::new();
    assert!(lines.push_frame(&first).is_empty());
    assert!(lines.push_frame(&second).is_empty());
    let out = lines.push_frame(b"c\n");
    assert_eq!(out.len(), 1);
    assert_eq!(out[0].len(), 2 * (MAX_FRAME_SIZE - 1) + 1);
}
