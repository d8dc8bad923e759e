use remote_tail::discovery::{
    blank, candidate, directory_text, find_command, parse_listing, whitespace, Discovery,
    DiscoveryCommand, DiscoveryEvent, LogFileInfo, DIRECTORY_COUNT, LISTING_READ_CHUNK,
};
use remote_tail::reader::ChunkRead;

fn info(path: &str, name: &str) -> LogFileInfo {
    LogFileInfo { path: path.to_string(), name: name.to_string(), is_remote: true }
}

fn parsed(output: &[u8]) -> Vec<LogFileInfo> {
    let mut found = Vec::new();
    parse_listing(&mut found, &output.to_vec());
    found
}

fn search(dir: &str) -> DiscoveryCommand {
    DiscoveryCommand::Search(find_command(dir))
}

fn bytes(data: &[u8]) -> DiscoveryEvent {
    DiscoveryEvent::Read(ChunkRead::Bytes(data.to_vec()))
}

#[test]
fn directories_in_search_order() {
    assert_eq!(DIRECTORY_COUNT, 7);
    assert_eq!(LISTING_READ_CHUNK, 4096);
    let all: Vec<&str> = (0..DIRECTORY_COUNT).map(directory_text).collect();
    assert_eq!(
        all,
        vec![
            "/var/log",
            "/var/log/system",
            "/var/log/messages",
            "/var/log/syslog",
            "/var/log/nginx",
            "/var/log/apache2",
            "/var/log/httpd",
        ]
    );
}

#[test]
fn find_command_for_a_directory() {
    assert_eq!(
        find_command("/var/log/nginx"),
        "find \"/var/log/nginx\" -type f -name \"*.log\" -o -name \"*.out\" | grep -v \".gz\" | sort | head -50"
    );
}

#[test]
fn whitespace_agrees_with_the_standard_library_on_every_character() {
    for code in 0..=0x10ffff_u32 {
        if let Some(c) = char::from_u32(code) {
            assert_eq!(whitespace(c), c.is_whitespace(), "U+{:04X}", code);
        }
    }
}

#[test]
fn blank_lines() {
    for line in ["", " ", "\t \r", "\u{a0}\u{3000}\u{2003}"] {
        assert!(blank(line), "{:?}", line);
        assert!(line.trim().is_empty());
    }
    for line in ["a", " a ", "\u{200b}", " /var/log "] {
        assert!(!blank(line), "{:?}", line);
        assert!(!line.trim().is_empty());
    }
}

#[test]
fn candidate_needs_a_name_and_a_line_that_is_not_blank() {
    assert_eq!(
        candidate("/var/log/a.log".to_string(), Some("a.log".to_string())),
        Some(info("/var/log/a.log", "a.log"))
    );
    assert_eq!(candidate("/var/log/a.log".to_string(), None), None);
    assert_eq!(candidate("   ".to_string(), Some("x".to_string())), None);
    assert_eq!(candidate(String::new(), None), None);
}

#[test]
fn listing_gives_one_candidate_per_path_in_order() {
    let output = b"/var/log/nginx/access.log\n/var/log/nginx/error.log\n/var/log/app.out\n";
    assert_eq!(
        parsed(output),
        vec![
            info("/var/log/nginx/access.log", "access.log"),
            info("/var/log/nginx/error.log", "error.log"),
            info("/var/log/app.out", "app.out"),
        ]
    );
}

#[test]
fn listing_takes_the_name_from_the_last_component() {
    assert_eq!(parsed(b"/var/log/syslog.log"), vec![info("/var/log/syslog.log", "syslog.log")]);
    assert_eq!(parsed(b"relative.log\n"), vec![info("relative.log", "relative.log")]);
    assert_eq!(parsed(b"/var/log/dir/\n"), vec![info("/var/log/dir/", "dir")]);
}

#[test]
fn listing_skips_blank_lines_and_lines_without_a_name() {
    let output = b"\n   \n/var/log/a.log\r\n\t\n/\n..\n/var/log/..\n/var/log/b.log";
    assert_eq!(
        parsed(output),
        vec![info("/var/log/a.log", "a.log"), info("/var/log/b.log", "b.log")]
    );
}

#[test]
fn listing_keeps_the_line_as_printed() {
    assert_eq!(parsed(b"  /var/log/a.log\n"), vec![info("  /var/log/a.log", "a.log")]);
    assert_eq!(
        parsed("/var/log/\u{65e5}\u{5fd7}.log\n".as_bytes()),
        vec![info("/var/log/\u{65e5}\u{5fd7}.log", "\u{65e5}\u{5fd7}.log")]
    );
}

#[test]
fn listing_that_is_not_text_gives_nothing() {
    assert!(parsed(b"/var/log/a.log\n\xff\xff\n/var/log/b.log\n").is_empty());
    assert!(parsed(b"").is_empty());
}

#[test]
fn listing_appends_to_what_was_found() {
    let mut found = vec![info("/x.log", "x.log")];
    parse_listing(&mut found, &b"/y.log\n".to_vec());
    assert_eq!(found, vec![info("/x.log", "x.log"), info("/y.log", "y.log")]);
}

#[test]
fn listing_agrees_with_the_standard_library_line_by_line() {
    let output = "/a/b.log\n \n/c/d.out\r\n/\n./e.log\nf/\n\u{3000}\n/g/h.log";
    let mut expected = Vec::new();
    for line in output.lines() {
        if line.trim().is_empty() {
            continue;
        }
        if let Some(name) = std::path::Path::new(line).file_name().and_then(|n| n.to_str()) {
            expected.push(info(line, name));
        }
    }
    assert_eq!(parsed(output.as_bytes()), expected);
    assert_eq!(expected.len(), 5);
}

#[test]
fn discovery_searches_each_directory_once() {
    let mut d = Discovery::new();
    assert!(!d.is_done());
    assert_eq!(d.awaited_command(), search("/var/log"));
    assert_eq!(d.step(DiscoveryEvent::SearchStarted), DiscoveryCommand::Read);
    assert_eq!(d.step(bytes(b"/var/log/a.log\n/var/lo")), DiscoveryCommand::Read);
    assert_eq!(d.step(bytes(b"g/b.log\n")), DiscoveryCommand::Read);
    assert_eq!(d.step(bytes(b"")), search("/var/log/system"));
    assert_eq!(d.step(DiscoveryEvent::SearchFailed), search("/var/log/messages"));
    assert_eq!(d.step(DiscoveryEvent::SearchStarted), DiscoveryCommand::Read);
    assert_eq!(d.step(bytes(b"")), search("/var/log/syslog"));
    assert_eq!(d.step(DiscoveryEvent::SearchStarted), DiscoveryCommand::Read);
    assert_eq!(d.step(bytes(b"/var/log/syslog/c.log\n/var/log/sys")), DiscoveryCommand::Read);
    assert_eq!(
        d.step(DiscoveryEvent::Read(ChunkRead::Failed("reset".to_string()))),
        search("/var/log/nginx")
    );
    assert_eq!(d.step(DiscoveryEvent::SearchFailed), search("/var/log/apache2"));
    assert_eq!(d.step(DiscoveryEvent::SearchFailed), search("/var/log/httpd"));
    assert!(!d.is_done());
    assert_eq!(d.step(DiscoveryEvent::SearchStarted), DiscoveryCommand::Read);
    assert_eq!(d.step(bytes(b"/var/log/httpd/access.log")), DiscoveryCommand::Read);
    assert_eq!(d.step(bytes(b"")), DiscoveryCommand::Finish);
    assert!(d.is_done());
    assert_eq!(d.step(DiscoveryEvent::SearchStarted), DiscoveryCommand::Finish);
    assert_eq!(d.step(bytes(b"/late.log\n")), DiscoveryCommand::Finish);
    assert_eq!(
        d.into_found(),
        vec![
            info("/var/log/a.log", "a.log"),
            info("/var/log/b.log", "b.log"),
            info("/var/log/httpd/access.log", "access.log"),
        ]
    );
}

#[test]
fn discovery_where_every_search_fails_finds_nothing() {
    let mut d = Discovery::new();
    let mut command = d.awaited_command();
    let mut searches = 0;
    while command != DiscoveryCommand::Finish {
        assert!(matches!(command, DiscoveryCommand::Search(_)));
        searches += 1;
        command = d.step(DiscoveryEvent::SearchFailed);
    }
    assert_eq!(searches, 7);
    assert!(d.into_found().is_empty());
}

#[test]
fn discovery_ignores_events_out_of_place() {
    let mut d = Discovery::new();
    assert_eq!(d.step(bytes(b"/x.log\n")), search("/var/log"));
    assert_eq!(d.step(DiscoveryEvent::SearchStarted), DiscoveryCommand::Read);
    assert_eq!(d.step(DiscoveryEvent::SearchStarted), DiscoveryCommand::Read);
    assert_eq!(d.step(DiscoveryEvent::SearchFailed), DiscoveryCommand::Read);
    assert_eq!(d.step(bytes(b"")), search("/var/log/system"));
    assert!(d.into_found().is_empty());
}

#[test]
fn search_that_breaks_off_contributes_nothing() {
    let mut d = Discovery::new();
    d.step(DiscoveryEvent::SearchStarted);
    d.step(bytes(b"/var/log/whole.log\n/var/log/cut-of"));
    assert_eq!(
        d.step(DiscoveryEvent::Read(ChunkRead::Failed("reset".to_string()))),
        search("/var/log/system")
    );
    d.step(DiscoveryEvent::SearchStarted);
    d.step(bytes(b"/var/log/system/kept.log\n"));
    d.step(bytes(b""));
    let mut command = d.awaited_command();
    while command != DiscoveryCommand::Finish {
        command = d.step(DiscoveryEvent::SearchFailed);
    }
    assert_eq!(d.into_found(), vec![info("/var/log/system/kept.log", "kept.log")]);
}
