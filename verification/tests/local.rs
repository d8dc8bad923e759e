use std::io::BufRead;

use remote_tail::failure::{ErrorKind, Failure};
use remote_tail::levels::{classify_level, progress_due, same_text, LogLevel};
use remote_tail::local::{append_line, local_content};
use remote_tail::reader::FileContent;

fn shown(content: &str, total_lines: usize) -> Result<FileContent, Failure> {
    Ok(FileContent { content: content.to_string(), total_lines })
}

#[test]
fn whole_file_with_each_line_terminated() {
    assert_eq!(local_content(b"a\nb\nc", None), shown("a\nb\nc\n", 3));
    assert_eq!(local_content(b"a\nb\nc\n", None), shown("a\nb\nc\n", 3));
    assert_eq!(local_content(b"", None), shown("", 0));
    assert_eq!(local_content(b"\n\n", None), shown("\n\n", 2));
}

#[test]
fn carriage_returns_before_line_feeds_are_dropped() {
    assert_eq!(local_content(b"a\r\nb\r\n", None), shown("a\nb\n", 2));
    assert_eq!(local_content(b"a\r\nb\r", None), shown("a\nb\r\n", 2));
}

#[test]
fn line_limit_keeps_the_first_lines() {
    assert_eq!(local_content(b"a\nb\nc\n", Some(2)), shown("a\nb\n", 2));
    assert_eq!(local_content(b"a\nb\nc\n", Some(0)), shown("", 0));
    assert_eq!(local_content(b"a\nb\nc\n", Some(3)), shown("a\nb\nc\n", 3));
    assert_eq!(local_content(b"a\nb\nc\n", Some(100)), shown("a\nb\nc\n", 3));
}

#[test]
fn total_lines_is_the_line_count_of_the_content() {
    for (bytes, max) in [
        (&b"x\ny\r\n\nz"[..], None),
        (&b"x\ny\r\n\nz"[..], Some(3)),
        (&b"one line"[..], Some(1)),
        (&b"\r\n\r\n"[..], None),
    ] {
        let file = local_content(bytes, max).unwrap();
        assert_eq!(file.total_lines, file.content.lines().count());
    }
}

#[test]
fn line_that_is_not_text_fails_the_read() {
    let got = local_content(b"ok\n\xff\xfe\nok\n", None).unwrap_err();
    assert_eq!(got.kind, ErrorKind::DecodeError);
    assert_eq!(got.message, "Error reading line: stream did not contain valid UTF-8");
}

#[test]
fn message_for_a_line_that_is_not_text_is_what_a_line_reader_says() {
    let bytes: &[u8] = b"ok\n\xc3\n\xff\xff\xff\n";
    let reader_says = bytes.lines().find_map(|l| l.err()).unwrap().to_string();
    let got = local_content(bytes, None).unwrap_err();
    assert_eq!(got.message, format!("Error reading line: {}", reader_says));
}

#[test]
fn line_beyond_the_limit_is_not_looked_at() {
    assert_eq!(local_content(b"ok\nfine\n\xff\xfe\n", Some(2)), shown("ok\nfine\n", 2));
    assert!(local_content(b"ok\nfine\n\xff\xfe\n", Some(3)).is_err());
}

#[test]
fn append_line_adds_the_line_and_its_line_feed() {
    let mut content = "a\n".to_string();
    assert_eq!(append_line(&mut content, Ok("b".to_string())), Ok(()));
    assert_eq!(content, "a\nb\n");
    assert_eq!(
        append_line(&mut content, Err("bad".to_string())),
        Err(Failure {
            kind: ErrorKind::DecodeError,
            message: "Error reading line: stream did not contain valid UTF-8".to_string()
        })
    );
    assert_eq!(content, "a\nb\n");
}

#[test]
fn levels_by_name() {
    assert_eq!(classify_level("error"), LogLevel::Error);
    assert_eq!(classify_level("warn"), LogLevel::Warn);
    assert_eq!(classify_level("info"), LogLevel::Info);
    assert_eq!(classify_level("debug"), LogLevel::Debug);
    assert_eq!(classify_level("trace"), LogLevel::Debug);
}

#[test]
fn unknown_level_is_information() {
    for name in ["", "ERROR", "warning", "fatal", "errors", "erro", "\u{4fe1}\u{606f}"] {
        assert_eq!(classify_level(name), LogLevel::Info, "{:?}", name);
    }
}

#[test]
fn same_text_compares_whole_texts() {
    assert!(same_text("", ""));
    assert!(same_text("caf\u{e9}", "caf\u{e9}"));
    assert!(!same_text("a", "b"));
    assert!(!same_text("a", "ab"));
    assert!(!same_text("ab", "a"));
    assert!(!same_text("caf\u{e9}", "cafe"));
}

#[test]
fn progress_is_due_every_hundred_lines_or_five_seconds() {
    assert!(progress_due(100, 0));
    assert!(progress_due(200, 4));
    assert!(progress_due(0, 0));
    assert!(!progress_due(1, 0));
    assert!(!progress_due(99, 4));
    assert!(!progress_due(101, 4));
    assert!(progress_due(1, 5));
    assert!(progress_due(57, 3600));
}
