use remote_tail::reassembler::LineReassembler;

fn feed_all(chunks: &[&[u8]]) -> (Vec<String>, Vec<u8>) {
    let mut r = LineReassembler::new();
    let mut lines = Vec::new();
    for chunk in chunks {
        lines.extend(r.feed(chunk));
    }
    (lines, r.remainder().to_vec())
}

#[test]
fn feed_yields_complete_lines_and_holds_the_rest() {
    let mut r = LineReassembler::new();
    let lines = r.feed(b"line1\nline2\nline3");
    assert_eq!(lines, vec!["line1".to_string(), "line2".to_string()]);
    assert_eq!(r.remainder(), b"line3");
    let lines = r.feed(b"\n");
    assert_eq!(lines, vec!["line3".to_string()]);
    assert!(r.remainder().is_empty());
}

#[test]
fn new_reassembler_holds_nothing() {
    let r = LineReassembler::new();
    assert!(r.remainder().is_empty());
}

#[test]
fn empty_chunk_changes_nothing() {
    let mut r = LineReassembler::new();
    assert!(r.feed(b"abc").is_empty());
    assert!(r.feed(b"").is_empty());
    assert_eq!(r.remainder(), b"abc");
}

#[test]
fn empty_lines_are_lines() {
    let (lines, rest) = feed_all(&[b"\n\na\n\n"]);
    assert_eq!(lines, vec!["", "", "a", ""]);
    assert!(rest.is_empty());
}

#[test]
fn carriage_returns_stay_in_the_line() {
    let (lines, rest) = feed_all(&[b"a\r\nb\r"]);
    assert_eq!(lines, vec!["a\r"]);
    assert_eq!(rest, b"b\r");
}

#[test]
fn every_split_point_gives_the_same_lines() {
    let stream: &[u8] = "alpha\nb\u{e9}ta \u{4e2d}\u{6587}\n\ngamma \u{1f600}\ntail".as_bytes();
    let (whole_lines, whole_rest) = feed_all(&[stream]);
    assert_eq!(whole_lines, vec!["alpha", "b\u{e9}ta \u{4e2d}\u{6587}", "", "gamma \u{1f600}"]);
    assert_eq!(whole_rest, b"tail");
    for cut in 0..=stream.len() {
        let (lines, rest) = feed_all(&[&stream[..cut], &stream[cut..]]);
        assert_eq!(lines, whole_lines, "cut at {}", cut);
        assert_eq!(rest, whole_rest, "cut at {}", cut);
    }
}

#[test]
fn every_pair_of_split_points_gives_the_same_lines() {
    let stream: &[u8] = "a\n\u{4e2d}\nxy\n\u{e9}".as_bytes();
    let (whole_lines, whole_rest) = feed_all(&[stream]);
    for first in 0..=stream.len() {
        for second in first..=stream.len() {
            let (lines, rest) =
                feed_all(&[&stream[..first], &stream[first..second], &stream[second..]]);
            assert_eq!(lines, whole_lines);
            assert_eq!(rest, whole_rest);
        }
    }
}

#[test]
fn byte_by_byte_gives_the_same_lines() {
    let stream: &[u8] = "one\ntw\u{f6}\nthree".as_bytes();
    let mut r = LineReassembler::new();
    let mut lines = Vec::new();
    for b in stream {
        lines.extend(r.feed(&[*b]));
    }
    assert_eq!(lines, vec!["one", "tw\u{f6}"]);
    assert_eq!(r.remainder(), b"three");
}

#[test]
fn character_split_across_chunks_is_decoded_whole() {
    let mut r = LineReassembler::new();
    assert!(r.feed(&[b'a', 0xe4]).is_empty());
    assert!(r.feed(&[0xb8]).is_empty());
    assert_eq!(r.feed(&[0xad, b'\n']), vec!["a\u{4e2d}"]);
    assert!(r.remainder().is_empty());
}

#[test]
fn span_that_is_not_text_is_dropped() {
    let mut r = LineReassembler::new();
    let lines = r.feed(b"good\n\xff\xfe bad\nalso good\n");
    assert_eq!(lines, vec!["good", "also good"]);
    assert!(r.remainder().is_empty());
}

#[test]
fn truncated_character_before_terminator_drops_the_span() {
    let mut r = LineReassembler::new();
    let lines = r.feed(&[b'x', 0xe4, 0xb8, b'\n', b'y', b'\n']);
    assert_eq!(lines, vec!["y"]);
}

#[test]
fn remainder_never_holds_a_terminator() {
    let mut r = LineReassembler::new();
    for chunk in [&b"a\nb"[..], &b"\n\n"[..], &b"c\nd\ne"[..]] {
        r.feed(chunk);
        assert!(!r.remainder().contains(&b'\n'));
    }
    assert_eq!(r.remainder(), b"e");
}
