use gototerm::gt::GtMessage;
use gototerm::osc::{
    location_of, pane_location, parse_osc7, queue_message, read_report, OscSplitter, Report,
    ReportKind, MESSAGES_MAX, REPORT_MAX_BYTES,
};
use gototerm::vt::ShellLocation;

#[test]
fn a_location_is_taken_out_of_the_stream() {
    let mut s = OscSplitter::default();
    let c = s.feed(b"ab\x1b]7;file://h/p\x07cd");
    assert_eq!(c.pass, b"abcd".to_vec());
    assert_eq!(c.reports, vec![(ReportKind::Location, b"file://h/p".to_vec())]);
}

#[test]
fn a_report_may_end_in_two_ways_and_come_in_pieces() {
    let mut s = OscSplitter::default();
    let c = s.feed(b"\x1b]77");
    assert!(c.pass.is_empty());
    let c = s.feed(b"17;event;kind=mod\x1b");
    assert!(c.reports.is_empty());
    let c = s.feed(b"\\x");
    assert_eq!(c.pass, b"x".to_vec());
    assert_eq!(
        c.reports,
        vec![(ReportKind::Message, b"event;kind=mod".to_vec())]
    );
}

#[test]
fn other_sequences_pass() {
    let mut s = OscSplitter::default();
    for input in [
        &b"\x1b]0;title\x07"[..],
        &b"\x1b]70;x\x1b\\"[..],
        &b"\x1b[31m"[..],
        &b"\x1b\x1b[A"[..],
    ] {
        let c = s.feed(input);
        assert_eq!(c.pass, input.to_vec());
        assert!(c.reports.is_empty());
    }
}

#[test]
fn too_long_reports_are_dropped() {
    let mut s = OscSplitter::default();
    s.feed(b"\x1b]7717;");
    s.feed(&vec![b'x'; REPORT_MAX_BYTES + 1]);
    let c = s.feed(b"\x07after");
    assert!(c.reports.is_empty());
    assert_eq!(c.pass, b"after".to_vec());
}

#[test]
fn addresses_have_a_host_and_a_path() {
    assert_eq!(
        parse_osc7("file://host/path%20with%20space"),
        Some(("host".to_owned(), "/path with space".to_owned()))
    );
    assert_eq!(
        parse_osc7("file:///tmp"),
        Some((String::new(), "/tmp".to_owned()))
    );
    assert_eq!(
        parse_osc7("file://h/%E6%97%A5"),
        Some(("h".to_owned(), "/日".to_owned()))
    );
    assert_eq!(parse_osc7("http://h/p"), None);
    assert_eq!(parse_osc7("file://host"), None);
    assert_eq!(parse_osc7("file://h/%2"), None);
    assert_eq!(parse_osc7("file://h/%zz"), None);
    assert_eq!(parse_osc7("file://h/%FF"), None);
}

#[test]
fn a_shell_on_another_host_is_remote() {
    assert!(matches!(
        location_of("me".to_owned(), "/p".to_owned(), "me"),
        ShellLocation::Local(p) if p == "/p"
    ));
    assert!(matches!(
        location_of("localhost".to_owned(), "/p".to_owned(), "me"),
        ShellLocation::Local(_)
    ));
    assert!(matches!(
        location_of("other".to_owned(), "/p".to_owned(), "me"),
        ShellLocation::Remote { host, path } if host == "other" && path == "/p"
    ));
}

#[test]
fn reports_are_read() {
    assert!(matches!(
        read_report(ReportKind::Location, b"file://x/p".to_vec(), "me"),
        Some(Report::At(ShellLocation::Remote { .. }))
    ));
    assert!(matches!(
        read_report(ReportKind::Message, b"event;kind=new;path=YQ==".to_vec(), "me"),
        Some(Report::Told(GtMessage::Event { .. }))
    ));
    assert!(read_report(ReportKind::Message, b"event".to_vec(), "me").is_none());
    assert!(read_report(ReportKind::Location, vec![0xff], "me").is_none());
}

#[test]
fn the_oldest_messages_are_dropped() {
    let mut q: Vec<GtMessage> = Vec::new();
    for seq in 0..(MESSAGES_MAX as u32 + 1) {
        queue_message(
            &mut q,
            GtMessage::FileChunk {
                path: "a".to_owned(),
                seq,
                last: false,
                data: Vec::new(),
            },
        );
    }
    assert_eq!(q.len(), MESSAGES_MAX);
    assert!(matches!(q[0], GtMessage::FileChunk { seq: 1, .. }));
}

#[test]
fn a_pane_is_where_its_shell_says() {
    assert!(matches!(
        pane_location(None, Some("/c".to_owned()), Some("/d".to_owned())),
        ShellLocation::Local(p) if p == "/c"
    ));
    assert!(matches!(
        pane_location(None, None, None),
        ShellLocation::Local(p) if p == "."
    ));
    assert!(matches!(
        pane_location(
            Some(ShellLocation::Local("/r".to_owned())),
            Some("/c".to_owned()),
            None
        ),
        ShellLocation::Local(p) if p == "/r"
    ));
}
