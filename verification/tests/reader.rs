use remote_tail::failure::{ErrorKind, Failure};
use remote_tail::lines::{count_lines, split_lines};
use remote_tail::reader::{
    finish_snapshot, read_command, snapshot, ChunkRead, FileContent, LogStreamOptions,
    SnapshotReader, SnapshotStep, SNAPSHOT_READ_CHUNK,
};

fn options(path: &str, follow: bool) -> LogStreamOptions {
    LogStreamOptions { log_file_path: path.to_string(), follow }
}

fn std_lines(text: &str) -> Vec<Vec<u8>> {
    text.lines().map(|l| l.as_bytes().to_vec()).collect()
}

const SAMPLES: [&str; 14] = [
    "",
    "\n",
    "a",
    "a\n",
    "a\nb",
    "a\nb\n",
    "\n\n\n",
    "a\r\nb\r\n",
    "a\r\nb\r",
    "\r",
    "\r\n",
    "a\r\r\nb",
    "x\n\ny\n\n",
    "caf\u{e9}\n\u{4e2d}\u{6587}\r\n\u{1f600}",
];

#[test]
fn snapshot_chunk_size() {
    assert_eq!(SNAPSHOT_READ_CHUNK, 8192);
}

#[test]
fn read_command_reads_the_whole_file() {
    assert_eq!(read_command(&options("/var/log/syslog", false)), "cat \"/var/log/syslog\"");
}

#[test]
fn read_command_with_follow_hint_is_a_bounded_tail_that_ends() {
    assert_eq!(
        read_command(&options("/var/log/syslog", true)),
        "tail -n 1000 \"/var/log/syslog\""
    );
}

#[test]
fn split_lines_agrees_with_the_standard_library() {
    for text in SAMPLES {
        assert_eq!(split_lines(text.as_bytes()), std_lines(text), "{:?}", text);
    }
}

#[test]
fn count_lines_agrees_with_the_standard_library() {
    for text in SAMPLES {
        assert_eq!(count_lines(text.as_bytes()), text.lines().count(), "{:?}", text);
    }
}

#[test]
fn count_lines_exact_values() {
    assert_eq!(count_lines(b""), 0);
    assert_eq!(count_lines(b"one"), 1);
    assert_eq!(count_lines(b"one\n"), 1);
    assert_eq!(count_lines(b"one\ntwo"), 2);
    assert_eq!(count_lines(b"\n\n"), 2);
}

#[test]
fn split_lines_exact_values() {
    assert_eq!(split_lines(b"a\r\n\nb\r"), vec![b"a".to_vec(), b"".to_vec(), b"b\r".to_vec()]);
    assert!(split_lines(b"").is_empty());
}

#[test]
fn snapshot_of_a_known_file_matches_its_local_copy() {
    let local = "2024-01-01 boot\n2024-01-01 ready\n2024-01-02 caf\u{e9} ouvert\nlast line";
    let got = snapshot(local.as_bytes().to_vec()).unwrap();
    assert_eq!(got.content, local);
    assert_eq!(got.total_lines, local.lines().count());
    assert_eq!(got.total_lines, 4);
}

#[test]
fn snapshot_of_nothing_has_no_lines() {
    assert_eq!(snapshot(Vec::new()), Ok(FileContent { content: String::new(), total_lines: 0 }));
}

#[test]
fn snapshot_of_bytes_that_are_not_text_is_a_decode_error() {
    let bytes = b"fine\n\xff\xfe\nfine\n".to_vec();
    let detail = String::from_utf8(bytes.clone()).unwrap_err().to_string();
    let got = snapshot(bytes).unwrap_err();
    assert_eq!(got.kind, ErrorKind::DecodeError);
    assert_eq!(got.message, format!("解析日志内容失败: {}", detail));
}

#[test]
fn finish_snapshot_wraps_both_outcomes() {
    assert_eq!(
        finish_snapshot(Ok("a\nb".to_string()), 2),
        Ok(FileContent { content: "a\nb".to_string(), total_lines: 2 })
    );
    assert_eq!(
        finish_snapshot(Err("bad byte".to_string()), 5),
        Err(Failure { kind: ErrorKind::DecodeError, message: "解析日志内容失败: bad byte".to_string() })
    );
}

#[test]
fn reader_collects_chunks_until_the_empty_read() {
    let mut reader = SnapshotReader::new();
    assert_eq!(reader.accept(ChunkRead::Bytes(b"one\ntw".to_vec())), SnapshotStep::ReadMore);
    assert_eq!(reader.accept(ChunkRead::Bytes(b"o\nthr".to_vec())), SnapshotStep::ReadMore);
    assert_eq!(reader.accept(ChunkRead::Bytes(b"ee".to_vec())), SnapshotStep::ReadMore);
    assert_eq!(
        reader.accept(ChunkRead::Bytes(Vec::new())),
        SnapshotStep::Done(Ok(FileContent {
            content: "one\ntwo\nthree".to_string(),
            total_lines: 3
        }))
    );
}

#[test]
fn reader_decodes_a_character_split_across_chunks() {
    let text = "\u{4e2d}\u{6587}\n";
    let bytes = text.as_bytes();
    let mut reader = SnapshotReader::new();
    reader.accept(ChunkRead::Bytes(bytes[..2].to_vec()));
    reader.accept(ChunkRead::Bytes(bytes[2..].to_vec()));
    assert_eq!(
        reader.accept(ChunkRead::Bytes(Vec::new())),
        SnapshotStep::Done(Ok(FileContent { content: text.to_string(), total_lines: 1 }))
    );
}

#[test]
fn reader_can_be_used_again_after_it_is_done() {
    let mut reader = SnapshotReader::new();
    reader.accept(ChunkRead::Bytes(b"old".to_vec()));
    reader.accept(ChunkRead::Bytes(Vec::new()));
    reader.accept(ChunkRead::Bytes(b"new\n".to_vec()));
    assert_eq!(
        reader.accept(ChunkRead::Bytes(Vec::new())),
        SnapshotStep::Done(Ok(FileContent { content: "new\n".to_string(), total_lines: 1 }))
    );
}

#[test]
fn reader_fails_when_a_read_fails() {
    let mut reader = SnapshotReader::new();
    reader.accept(ChunkRead::Bytes(b"some".to_vec()));
    assert_eq!(
        reader.accept(ChunkRead::Failed("connection reset".to_string())),
        SnapshotStep::Done(Err(Failure {
            kind: ErrorKind::ReadFailed,
            message: "读取日志内容失败: connection reset".to_string()
        }))
    );
}

#[test]
fn reader_fails_on_a_response_that_is_not_text() {
    let mut reader = SnapshotReader::new();
    reader.accept(ChunkRead::Bytes(vec![b'a', 0xc3]));
    match reader.accept(ChunkRead::Bytes(Vec::new())) {
        SnapshotStep::Done(Err(failure)) => {
            assert_eq!(failure.kind, ErrorKind::DecodeError);
            assert!(failure.message.starts_with("解析日志内容失败: "));
        }
        other => panic!("unexpected {:?}", other),
    }
}
