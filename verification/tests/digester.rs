use atat_blue_pill::digester::{ConfigError, Digester, Limits};
use atat_blue_pill::frame::{
    starts_with, terminal_status, FrameKind, Message, MessageKind, Status,
};
use atat_blue_pill::matcher::{classify_line, PrefixMatcher, UrcMatcher};

fn matcher() -> PrefixMatcher {
    PrefixMatcher::new(vec![b"+IPD".to_vec(), b"ready".to_vec(), b"+IP".to_vec()])
}

fn digester(line: usize, response: usize) -> Digester<PrefixMatcher> {
    match Digester::new(Limits { line, response }, matcher()) {
        Ok(d) => d,
        Err(_) => panic!("limits with room were refused"),
    }
}

fn message(kind: MessageKind, bytes: &[u8]) -> Message {
    Message { kind, bytes: bytes.to_vec() }
}

#[test]
fn echo_and_ok_end_one_response() {
    let mut d = digester(32, 64);
    let out = d.feed(b"AT\r\nOK\r\n");
    assert_eq!(out, vec![message(MessageKind::Response(Status::Success), b"AT\r\nOK")]);
    assert_eq!(d.line_len(), 0);
    assert_eq!(d.pending_len(), 0);
    assert!(!d.is_skipping());
}

#[test]
fn fragments_wait_for_the_closing_line() {
    let mut d = digester(32, 64);
    let out = d.feed(b"AT+GMR\r\r\nAT version:1.7\r\nSDK:3.0\r\n");
    assert!(out.is_empty());
    assert_eq!(d.pending_len(), b"AT+GMR\r\nAT version:1.7\r\nSDK:3.0\r\n".len());
    let out = d.feed(b"\r\nOK\r\n");
    assert_eq!(
        out,
        vec![message(
            MessageKind::Response(Status::Success),
            b"AT+GMR\r\nAT version:1.7\r\nSDK:3.0\r\nOK"
        )]
    );
}

#[test]
fn one_byte_at_a_time_gives_what_bulk_gives() {
    let stream: &[u8] =
        b"AT+CWJAP?\r\r\n+CWJAP:\"net\"\r\n+IPD,4:abcd\r\n\r\nOK\r\nready\r\nERR\r\nERROR\r\npart";
    let mut bulk = digester(16, 40);
    let all = bulk.feed(stream);
    let mut single = digester(16, 40);
    let mut collected: Vec<Message> = Vec::new();
    for b in stream {
        if let Some(m) = single.push_byte(*b) {
            collected.push(m);
        }
    }
    assert_eq!(collected, all);
    assert_eq!(single.line_len(), bulk.line_len());
    assert_eq!(single.pending_len(), bulk.pending_len());
    assert_eq!(single.is_skipping(), bulk.is_skipping());
    assert_eq!(all.len(), 4);
    assert_eq!(all[0], message(MessageKind::Urc(0), b"+IPD,4:abcd"));
    assert_eq!(
        all[1],
        message(MessageKind::Response(Status::Success), b"AT+CWJAP?\r\n+CWJAP:\"net\"\r\nOK")
    );
    assert_eq!(all[2], message(MessageKind::Urc(1), b"ready"));
    assert_eq!(all[3], message(MessageKind::Response(Status::Failure), b"ERR\r\nERROR"));
    assert_eq!(bulk.line_len(), 4);
}

#[test]
fn uneven_chunks_give_what_bulk_gives() {
    let stream: &[u8] = b"+CIFSR:STAIP,\"10.0.0.2\"\r\n+IPD,1:x\r\nOK\r\n";
    let mut bulk = digester(40, 80);
    let all = bulk.feed(stream);
    for cut in 0..stream.len() {
        let mut d = digester(40, 80);
        let mut got = d.feed(&stream[..cut]);
        got.extend(d.feed(&stream[cut..]));
        assert_eq!(got, all);
    }
}

#[test]
fn urc_between_fragments_leaves_the_response_alone() {
    let mut with = digester(32, 64);
    let mut without = digester(32, 64);
    let a = with.feed(b"first\r\n+IPD,2:hi\r\nsecond\r\nOK\r\n");
    let b = without.feed(b"first\r\nsecond\r\nOK\r\n");
    assert_eq!(a.len(), 2);
    assert_eq!(a[0], message(MessageKind::Urc(0), b"+IPD,2:hi"));
    assert_eq!(a[1], b[0]);
    assert_eq!(b, vec![message(MessageKind::Response(Status::Success), b"first\r\nsecond\r\nOK")]);
}

#[test]
fn structured_status_line_ends_the_response() {
    let mut d = digester(32, 64);
    let out = d.feed(b"+CME ERROR: 10\r\n");
    assert_eq!(out, vec![message(MessageKind::Response(Status::Other), b"+CME ERROR: 10")]);
    let out = d.feed(b"x\r\n+CMS ERROR: 500\r\n");
    assert_eq!(out, vec![message(MessageKind::Response(Status::Other), b"x\r\n+CMS ERROR: 500")]);
}

#[test]
fn line_that_outgrows_its_buffer_is_malformed() {
    let mut d = digester(4, 64);
    assert!(d.feed(b"ab\r\nwxyz").is_empty());
    let out = d.feed(b"!");
    assert_eq!(out, vec![message(MessageKind::Malformed, b"ab\r\nwxyz")]);
    assert!(d.is_skipping());
    assert_eq!(d.line_len(), 0);
    assert_eq!(d.pending_len(), 0);
    assert!(d.feed(b"more of the same line").is_empty());
    assert!(d.is_skipping());
    assert!(d.feed(b"\r\n").is_empty());
    assert!(!d.is_skipping());
    let out = d.feed(b"OK\r\n");
    assert_eq!(out, vec![message(MessageKind::Response(Status::Success), b"OK")]);
}

#[test]
fn line_of_exactly_the_limit_is_taken() {
    let mut d = digester(4, 64);
    let out = d.feed(b"wxyz\r\nOK\r\n");
    assert_eq!(out, vec![message(MessageKind::Response(Status::Success), b"wxyz\r\nOK")]);
}

#[test]
fn response_that_outgrows_its_buffer_is_malformed() {
    let mut d = digester(8, 10);
    assert!(d.feed(b"abcd\r\n").is_empty());
    assert_eq!(d.pending_len(), 6);
    let out = d.feed(b"efg\r\n");
    assert_eq!(out, vec![message(MessageKind::Malformed, b"abcd\r\nefg")]);
    assert_eq!(d.pending_len(), 0);
    assert!(!d.is_skipping());
    let mut d = digester(8, 10);
    assert!(d.feed(b"abcd\r\nef\r\n").is_empty());
    assert_eq!(d.pending_len(), 10);
}

#[test]
fn blank_lines_and_carriage_returns_are_passed_over() {
    let mut d = digester(8, 16);
    assert!(d.feed(b"\r\n\r\n\n\r\r").is_empty());
    assert_eq!(d.line_len(), 0);
    assert_eq!(d.pending_len(), 0);
    let out = d.feed(b"O\rK\n");
    assert_eq!(out, vec![message(MessageKind::Response(Status::Success), b"OK")]);
}

#[test]
fn reset_forgets_line_and_response() {
    let mut d = digester(4, 16);
    assert!(d.feed(b"ab\r\ncd").is_empty());
    assert_eq!(d.pending_len(), 4);
    assert_eq!(d.line_len(), 2);
    d.reset();
    assert_eq!(d.pending_len(), 0);
    assert_eq!(d.line_len(), 0);
    let _ = d.feed(b"12345");
    assert!(d.is_skipping());
    d.reset();
    assert!(!d.is_skipping());
}

#[test]
fn buffers_without_room_are_refused() {
    assert!(matches!(
        Digester::new(Limits { line: 0, response: 8 }, matcher()),
        Err(ConfigError::ZeroCapacity)
    ));
    assert!(matches!(
        Digester::new(Limits { line: 8, response: 0 }, matcher()),
        Err(ConfigError::ZeroCapacity)
    ));
    assert!(Digester::new(Limits { line: 1, response: 1 }, matcher()).is_ok());
}

#[test]
fn closing_lines_are_told_apart() {
    assert_eq!(terminal_status(b"OK"), Some(Status::Success));
    assert_eq!(terminal_status(b"ERROR"), Some(Status::Failure));
    assert_eq!(terminal_status(b"+CME ERROR: 3"), Some(Status::Other));
    assert_eq!(terminal_status(b"+CMS ERROR:"), Some(Status::Other));
    assert_eq!(terminal_status(b"OK "), None);
    assert_eq!(terminal_status(b"ok"), None);
    assert_eq!(terminal_status(b"SEND OK"), None);
    assert_eq!(terminal_status(b"ERRORS"), None);
    assert_eq!(terminal_status(b"+CME ERROR"), None);
    assert_eq!(terminal_status(b""), None);
}

#[test]
fn prefixes_are_found_at_the_start_only() {
    assert!(starts_with(b"+IPD,3", b"+IPD"));
    assert!(starts_with(b"+IPD", b"+IPD"));
    assert!(starts_with(b"+IPD", b""));
    assert!(!starts_with(b"+IP", b"+IPD"));
    assert!(!starts_with(b"x+IPD", b"+IPD"));
    assert!(!starts_with(b"+IPX", b"+IPD"));
}

#[test]
fn first_prefix_in_the_list_gives_the_tag() {
    let m = matcher();
    assert_eq!(m.recognize(b"+IPD,1:a"), Some(0));
    assert_eq!(m.recognize(b"ready"), Some(1));
    assert_eq!(m.recognize(b"+IPX"), Some(2));
    assert_eq!(m.recognize(b"+I"), None);
    assert_eq!(m.recognize(b""), None);
    let none = PrefixMatcher::new(Vec::new());
    assert_eq!(none.recognize(b"+IPD,1:a"), None);
}

#[test]
fn closing_line_wins_over_the_matcher() {
    let m = PrefixMatcher::new(vec![b"O".to_vec(), b"+".to_vec()]);
    assert_eq!(classify_line(&m, b"OK"), FrameKind::ResponseTerminator(Status::Success));
    assert_eq!(classify_line(&m, b"+CME ERROR: 1"), FrameKind::ResponseTerminator(Status::Other));
    assert_eq!(classify_line(&m, b"Oops"), FrameKind::Urc(0));
    assert_eq!(classify_line(&m, b"+IPD"), FrameKind::Urc(1));
    assert_eq!(classify_line(&m, b"text"), FrameKind::ResponseFragment);
}
