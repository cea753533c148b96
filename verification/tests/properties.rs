use gap_buffer::buffer::BufferError;
use gap_buffer::buffer::GapBuffer;
use gap_buffer::buffer::BUFFER_LEN;

/// Everything a caller can observe of a buffer's state.
fn observe(buf: &GapBuffer) -> (String, usize, usize, usize, String) {
    (
        buf.to_string(),
        buf.gap_start(),
        buf.length(),
        buf.gap_size(),
        buf.debug_string(),
    )
}

#[test]
fn capacity_invariant_after_operations() {
    let mut buf = GapBuffer::new();
    assert_eq!(buf.length() + buf.gap_size(), BUFFER_LEN);

    buf.insert_str("hello\nworld").unwrap();
    assert_eq!(buf.length() + buf.gap_size(), BUFFER_LEN);

    buf.move_to(3);
    assert_eq!(buf.length() + buf.gap_size(), BUFFER_LEN);

    buf.insert('x').unwrap();
    assert_eq!(buf.length() + buf.gap_size(), BUFFER_LEN);

    buf.remove();
    assert_eq!(buf.length() + buf.gap_size(), BUFFER_LEN);

    buf.remove_n(2);
    assert_eq!(buf.length() + buf.gap_size(), BUFFER_LEN);

    buf.move_to(0);
    assert_eq!(buf.length() + buf.gap_size(), BUFFER_LEN);
}

#[test]
fn round_trip_insertions() {
    let mut buf = GapBuffer::new();
    buf.insert_str("one ").unwrap();
    buf.insert('t').unwrap();
    buf.insert('w').unwrap();
    buf.insert('o').unwrap();
    buf.insert_str(" three").unwrap();
    assert_eq!(buf.to_string(), "one two three");
    assert_eq!(buf.gap_start(), "one two three".len());
}

#[test]
fn move_to_idempotent() {
    for target in [0usize, 1, 3, 7, 100] {
        let mut buf = GapBuffer::new();
        buf.insert_str("abcdefg").unwrap();
        buf.move_to(2);
        buf.move_to(target);
        let first = observe(&buf);
        buf.move_to(target);
        let second = observe(&buf);
        assert_eq!(first, second);
    }
}

#[test]
fn cursor_addressing() {
    let text = "ABCDE";
    for k in 0..=text.len() {
        let mut buf = GapBuffer::new();
        buf.insert_str(text).unwrap();
        buf.move_to(k);
        assert_eq!(buf.gap_start(), k);
        buf.insert('x').unwrap();
        let expected = format!("{}x{}", &text[..k], &text[k..]);
        assert_eq!(buf.to_string(), expected);
    }
}

#[test]
fn remove_at_start_is_noop() {
    let mut empty = GapBuffer::new();
    empty.remove();
    assert_eq!(empty.length(), 0);
    assert_eq!(empty.to_string(), "");

    let mut buf = GapBuffer::new();
    buf.insert_str("abc").unwrap();
    buf.move_to(0);
    let before = observe(&buf);
    buf.remove();
    assert_eq!(observe(&buf), before);
    assert_eq!(buf.length(), 3);
}

#[test]
fn remove_n_beyond_cursor_is_noop() {
    let mut buf = GapBuffer::new();
    buf.insert_str("abc").unwrap();
    buf.move_to(2);
    let before = observe(&buf);
    buf.remove_n(3);
    assert_eq!(observe(&buf), before);
    buf.remove_n(0);
    assert_eq!(observe(&buf), before);
    buf.remove_n(2);
    assert_eq!(buf.to_string(), "c");
    assert_eq!(buf.gap_start(), 0);
}

#[test]
fn overflow_leaves_buffer_unchanged() {
    let mut buf = GapBuffer::new();
    let almost_full = "x".repeat(BUFFER_LEN - 2);
    buf.insert_str(&almost_full).unwrap();
    buf.move_to(5);
    let before = observe(&buf);

    assert_eq!(buf.insert_str("abcde"), Err(BufferError::Overflow));
    assert_eq!(observe(&buf), before);

    buf.insert('y').unwrap();
    buf.insert('z').unwrap();
    assert_eq!(buf.gap_size(), 0);
    let full = observe(&buf);
    assert_eq!(buf.insert('q'), Err(BufferError::Overflow));
    assert_eq!(buf.insert_str("a"), Err(BufferError::Overflow));
    assert_eq!(observe(&buf), full);
}

#[test]
fn full_buffer_still_moves_and_removes() {
    let mut buf = GapBuffer::new();
    let fill = "y".repeat(BUFFER_LEN);
    buf.insert_str(&fill).unwrap();
    assert_eq!(buf.gap_size(), 0);
    buf.move_to(0);
    assert_eq!(buf.gap_start(), 0);
    assert_eq!(buf.to_string(), fill);
    buf.move_to(10);
    buf.remove();
    assert_eq!(buf.length(), BUFFER_LEN - 1);
    assert_eq!(buf.to_string(), "y".repeat(BUFFER_LEN - 1));
}

#[test]
fn scenario_interleaved_edits() {
    let mut buf = GapBuffer::new();
    buf.insert_str("ABCD").unwrap();
    assert_eq!(buf.to_string(), "ABCD");
    assert_eq!(buf.gap_start(), 4);

    buf.move_to(1);
    assert_eq!(buf.gap_start(), 1);
    assert_eq!(buf.to_string(), "ABCD");

    buf.insert_str("DE").unwrap();
    assert_eq!(buf.to_string(), "ADEBCD");
    assert_eq!(buf.gap_start(), 3);

    buf.move_to(0);
    buf.insert('F').unwrap();
    assert_eq!(buf.to_string(), "FADEBCD");
    assert_eq!(buf.gap_start(), 1);

    buf.move_to(7);
    assert_eq!(buf.gap_start(), 7);
    assert_eq!(buf.to_string(), "FADEBCD");
    buf.insert('G').unwrap();
    assert_eq!(buf.to_string(), "FADEBCDG");
}

#[test]
fn debug_string_shows_layout() {
    let mut buf = GapBuffer::new();
    buf.insert_str("AB").unwrap();
    assert_eq!(buf.debug_string(), "AB...");

    buf.insert('\0').unwrap();
    buf.insert('C').unwrap();
    buf.move_to(1);
    assert_eq!(buf.to_string(), "AB\u{0}C");
    assert_eq!(buf.debug_string(), "A...B_C");

    buf.move_to(3);
    assert_eq!(buf.debug_string(), "AB-...C");
}
