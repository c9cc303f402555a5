use atat_blue_pill::client::{body, begins_with_echo, echo_of, resolve, Poll, SendError};
use atat_blue_pill::command::{conclude, Acknowledged, AtCommand, Directive, ATTENTION_TIMEOUT};
use atat_blue_pill::digester::{ConfigError, Limits};
use atat_blue_pill::engine::Engine;
use atat_blue_pill::frame::{Message, MessageKind, Status};
use atat_blue_pill::matcher::PrefixMatcher;
use atat_blue_pill::queue::Full;

fn engine(echo: bool) -> Engine<PrefixMatcher> {
    let matcher = PrefixMatcher::new(vec![b"+IPD".to_vec(), b"CLOSED".to_vec()]);
    match Engine::new(Limits { line: 64, response: 128 }, matcher, echo, 32) {
        Ok(e) => e,
        Err(_) => panic!("limits with room were refused"),
    }
}

fn receive(e: &mut Engine<PrefixMatcher>, bytes: &[u8]) {
    for b in bytes {
        assert_eq!(e.receive_byte(*b), Ok(()));
    }
}

/// Opens a TCP connection; answered with the closing line alone.
fn connect() -> Directive {
    Directive {
        text: b"AT+CIPSTART=\"TCP\",\"184.73.165.106\",80\r\n".to_vec(),
        time_allowed: 5000,
    }
}

#[test]
fn attention_with_echo_and_ok_succeeds() {
    let mut e = engine(true);
    let wire = e.begin_command(&Directive::attention(), 0);
    assert_eq!(wire, Ok(b"AT\r\n".to_vec()));
    assert!(!e.is_idle());
    receive(&mut e, b"AT\r\nOK\r\n");
    assert_eq!(e.poll(1), Poll::Waiting);
    e.tick();
    let found = e.poll(2);
    assert_eq!(found, Poll::Response(Vec::new()));
    assert_eq!(conclude(&Directive::attention(), &found), Some(Ok(Acknowledged)));
    assert!(e.is_idle());
    assert!(e.is_clean());
}

#[test]
fn connect_answered_with_error_is_rejected() {
    let mut e = Engine::new(
        Limits { line: 64, response: 128 },
        PrefixMatcher::new(Vec::new()),
        false,
        64,
    )
    .ok()
    .unwrap();
    assert!(e.begin_command(&connect(), 10).is_ok());
    receive(&mut e, b"ERROR\r\n");
    e.tick();
    let found = e.poll(11);
    assert_eq!(found, Poll::Failed(SendError::Rejected));
    assert_eq!(conclude(&connect(), &found), Some(Err(SendError::Rejected)));
    assert!(e.is_idle());
}

#[test]
fn response_that_the_command_cannot_read_is_a_parse_error() {
    let mut e = engine(false);
    assert!(e.begin_send(b"AT+X\r\n", 100, 0).is_ok());
    receive(&mut e, b"unexpected\r\nOK\r\n");
    e.tick();
    let found = e.poll(1);
    assert_eq!(found, Poll::Response(b"unexpected".to_vec()));
    assert_eq!(conclude(&connect(), &found), Some(Err(SendError::Parse)));
}

#[test]
fn nothing_is_owed_while_the_command_is_in_flight() {
    assert_eq!(conclude(&Directive::attention(), &Poll::Waiting), None);
    assert_eq!(conclude(&Directive::attention(), &Poll::Idle), None);
    assert_eq!(
        conclude(&Directive::attention(), &Poll::Failed(SendError::Timeout)),
        Some(Err(SendError::Timeout))
    );
    assert_eq!(Directive::attention().timeout(), ATTENTION_TIMEOUT);
    assert_eq!(ATTENTION_TIMEOUT, 1000);
    assert_eq!(Directive::attention().encode(), b"AT\r\n".to_vec());
    assert_eq!(Directive::attention().parse(b""), Some(Acknowledged));
    assert_eq!(Directive::attention().parse(b"anything"), None);
    assert_eq!(connect().timeout(), 5000);
}

#[test]
fn response_before_the_deadline_is_never_a_timeout() {
    let mut e = engine(true);
    assert_eq!(e.begin_send(b"AT+GMR\r\n", 50, 100), Ok(()));
    receive(&mut e, b"AT+GMR\r\r\nAT version:1.7.4\r\nSDK version:3.0.4\r\n\r\nOK\r\n");
    e.tick();
    // The response waits; it is handed out even to a caller that comes late.
    assert_eq!(e.poll(1000), Poll::Response(b"AT version:1.7.4\r\nSDK version:3.0.4".to_vec()));
    assert!(e.is_idle());
    assert_eq!(e.poll(1001), Poll::Idle);
}

#[test]
fn timeout_comes_at_the_deadline_and_not_before() {
    let mut e = engine(false);
    assert_eq!(e.begin_send(b"AT+CWJAP?\r\n", 50, 100), Ok(()));
    receive(&mut e, b"+CWJAP:\"half a resp");
    e.tick();
    assert!(!e.is_clean());
    assert_eq!(e.poll(100), Poll::Waiting);
    assert_eq!(e.poll(149), Poll::Waiting);
    assert!(!e.is_idle());
    assert_eq!(e.poll(150), Poll::Failed(SendError::Timeout));
    assert!(e.is_idle());
    // The next tick finds the notice and forgets what was gathered.
    e.tick();
    assert!(e.is_clean());
    // A second command gets its own response and nothing of the first.
    assert_eq!(e.begin_send(b"AT+CIPMUX?\r\n", 50, 151), Ok(()));
    receive(&mut e, b"+CIPMUX:0\r\n\r\nOK\r\n");
    e.tick();
    assert_eq!(e.poll(152), Poll::Response(b"+CIPMUX:0".to_vec()));
}

#[test]
fn late_response_of_an_abandoned_command_is_thrown_away() {
    let mut e = engine(false);
    assert_eq!(e.begin_send(b"AT+A\r\n", 10, 0), Ok(()));
    assert_eq!(e.poll(10), Poll::Failed(SendError::Timeout));
    receive(&mut e, b"late\r\nOK\r\n");
    e.tick();
    assert_eq!(e.begin_send(b"AT+B\r\n", 10, 20), Ok(()));
    assert_eq!(e.poll(21), Poll::Waiting);
    receive(&mut e, b"fresh\r\nOK\r\n");
    e.tick();
    assert_eq!(e.poll(22), Poll::Response(b"fresh".to_vec()));
}

#[test]
fn deadline_stops_at_the_end_of_time() {
    let mut e = engine(false);
    assert_eq!(e.begin_send(b"AT\r\n", u64::MAX, 5), Ok(()));
    assert_eq!(e.poll(u64::MAX - 1), Poll::Waiting);
    assert_eq!(e.poll(u64::MAX), Poll::Failed(SendError::Timeout));
}

#[test]
fn urc_in_the_middle_of_a_response_goes_its_own_way() {
    let mut e = engine(true);
    assert_eq!(e.begin_send(b"AT+CIFSR\r\n", 100, 0), Ok(()));
    receive(&mut e, b"AT+CIFSR\r\r\n+CIFSR:STAIP,\"10.0.0.2\"\r\n");
    e.tick();
    receive(&mut e, b"+IPD,5:hello\r\n");
    e.tick();
    receive(&mut e, b"+CIFSR:STAMAC,\"aa:bb\"\r\n\r\nOK\r\n");
    e.tick();
    assert_eq!(
        e.poll(5),
        Poll::Response(b"+CIFSR:STAIP,\"10.0.0.2\"\r\n+CIFSR:STAMAC,\"aa:bb\"".to_vec())
    );
    assert_eq!(
        e.next_urc(),
        Some(Message { kind: MessageKind::Urc(0), bytes: b"+IPD,5:hello".to_vec() })
    );
    assert_eq!(e.next_urc(), None);
}

#[test]
fn full_urc_queue_is_counted_and_ingestion_goes_on() {
    let mut e = engine(false);
    for i in 0..9u8 {
        receive(&mut e, b"CLOSED ");
        receive(&mut e, &[b'0' + i]);
        receive(&mut e, b"\r\n");
    }
    e.tick();
    assert_eq!(e.urc_overruns(), 2);
    assert_eq!(e.response_overruns(), 0);
    for i in 0..7u8 {
        let mut text = b"CLOSED ".to_vec();
        text.push(b'0' + i);
        assert_eq!(e.next_urc(), Some(Message { kind: MessageKind::Urc(1), bytes: text }));
    }
    assert_eq!(e.next_urc(), None);
    receive(&mut e, b"CLOSED 9\r\n");
    e.tick();
    assert_eq!(e.next_urc(), Some(Message { kind: MessageKind::Urc(1), bytes: b"CLOSED 9".to_vec() }));
    assert_eq!(e.urc_overruns(), 2);
}

#[test]
fn full_response_queue_is_counted_and_ingestion_goes_on() {
    let mut e = engine(false);
    assert_eq!(e.begin_send(b"AT\r\n", 100, 0), Ok(()));
    for _ in 0..10 {
        receive(&mut e, b"OK\r\n");
    }
    e.tick();
    assert_eq!(e.response_overruns(), 3);
    assert_eq!(e.urc_overruns(), 0);
    assert_eq!(e.poll(1), Poll::Response(Vec::new()));
    receive(&mut e, b"+IPD,1:x\r\n");
    e.tick();
    assert_eq!(e.next_urc(), Some(Message { kind: MessageKind::Urc(0), bytes: b"+IPD,1:x".to_vec() }));
}

#[test]
fn full_ingest_queue_is_counted() {
    let mut e = engine(false);
    for _ in 0..255 {
        assert_eq!(e.receive_byte(b'a'), Ok(()));
    }
    assert_eq!(e.receive_byte(b'b'), Err(Full));
    assert_eq!(e.ingest_overruns(), 1);
    e.tick();
    assert_eq!(e.receive_byte(b'c'), Ok(()));
    assert_eq!(e.ingest_overruns(), 1);
}

#[test]
fn malformed_frame_fails_the_command_and_is_counted() {
    let mut e = Engine::new(Limits { line: 4, response: 16 }, PrefixMatcher::new(Vec::new()), false, 8)
        .ok()
        .unwrap();
    assert_eq!(e.begin_send(b"AT\r\n", 100, 0), Ok(()));
    receive(&mut e, b"far too long a line\r\nOK\r\n");
    e.tick();
    assert_eq!(e.malformed_frames(), 1);
    assert_eq!(e.poll(1), Poll::Failed(SendError::Malformed));
    assert!(e.is_idle());
    assert_eq!(e.begin_send(b"AT\r\n", 100, 2), Ok(()));
    e.tick();
    receive(&mut e, b"OK\r\n");
    e.tick();
    assert_eq!(e.poll(3), Poll::Response(Vec::new()));
}

#[test]
fn second_command_fails_fast_while_one_is_in_flight() {
    let mut e = engine(false);
    assert_eq!(e.begin_send(b"AT\r\n", 100, 0), Ok(()));
    assert_eq!(e.begin_send(b"AT\r\n", 100, 1), Err(SendError::Busy));
    assert_eq!(e.begin_command(&Directive::attention(), 1), Err(SendError::Busy));
    receive(&mut e, b"OK\r\n");
    e.tick();
    assert_eq!(e.poll(2), Poll::Response(Vec::new()));
    assert_eq!(e.begin_send(b"AT\r\n", 100, 3), Ok(()));
}

#[test]
fn command_longer_than_the_transmit_buffer_is_refused() {
    let mut e = engine(false);
    let long = [b'A'; 33];
    assert_eq!(e.begin_send(&long, 100, 0), Err(SendError::TooLong));
    assert!(e.is_idle());
    assert_eq!(e.begin_send(&long[..32], 100, 0), Ok(()));
    let mut small = engine(false);
    assert_eq!(small.begin_command(&connect(), 0), Err(SendError::TooLong));
}

#[test]
fn failed_transmitter_ends_the_command() {
    let mut e = engine(false);
    assert_eq!(e.begin_send(b"AT\r\n", 100, 0), Ok(()));
    assert_eq!(e.transmit_failed(), SendError::Transport);
    assert!(e.is_idle());
    assert_eq!(e.poll(1), Poll::Idle);
    assert_eq!(e.begin_send(b"AT\r\n", 100, 2), Ok(()));
}

#[test]
fn notices_that_find_no_room_are_counted() {
    let mut e = engine(false);
    for t in 0..2u64 {
        assert_eq!(e.begin_send(b"AT\r\n", 0, t), Ok(()));
        assert_eq!(e.poll(t), Poll::Failed(SendError::Timeout));
    }
    assert_eq!(e.command_overruns(), 1);
    e.tick();
    assert!(e.is_clean());
    assert_eq!(e.begin_send(b"AT\r\n", 0, 9), Ok(()));
    assert_eq!(e.command_overruns(), 1);
}

#[test]
fn engine_without_room_is_refused() {
    let made = Engine::new(Limits { line: 0, response: 1 }, PrefixMatcher::new(Vec::new()), true, 8);
    assert!(matches!(made, Err(ConfigError::ZeroCapacity)));
    let made = Engine::new(Limits { line: 1, response: 0 }, PrefixMatcher::new(Vec::new()), true, 8);
    assert!(matches!(made, Err(ConfigError::ZeroCapacity)));
    let made = Engine::new(Limits { line: 1, response: 1 }, PrefixMatcher::new(Vec::new()), true, 0);
    assert!(matches!(made, Err(ConfigError::ZeroCapacity)));
    let made = Engine::new(Limits { line: 1, response: 1 }, PrefixMatcher::new(Vec::new()), true, 1);
    assert!(made.is_ok());
}

#[test]
fn echo_is_the_command_up_to_its_first_break() {
    assert_eq!(echo_of(b"AT+GMR\r\n"), b"AT+GMR".to_vec());
    assert_eq!(echo_of(b"AT"), b"AT".to_vec());
    assert_eq!(echo_of(b"\r\nAT"), Vec::<u8>::new());
    assert_eq!(echo_of(b"A\nT"), b"A".to_vec());
    assert_eq!(echo_of(b""), Vec::<u8>::new());
}

#[test]
fn echo_is_looked_for_with_its_break() {
    assert!(begins_with_echo(b"AT\r\nrest", b"AT"));
    assert!(begins_with_echo(b"AT\r\n", b"AT"));
    assert!(!begins_with_echo(b"AT\r", b"AT"));
    assert!(!begins_with_echo(b"AT\n\rrest", b"AT"));
    assert!(!begins_with_echo(b"ATX\r\n", b"AT"));
    assert!(!begins_with_echo(b"A", b"AT"));
}

#[test]
fn body_is_the_response_without_echo_and_closing_line() {
    let echo = Some(b"AT+X".to_vec());
    assert_eq!(body(b"AT+X\r\none\r\ntwo\r\nOK", &echo), b"one\r\ntwo".to_vec());
    assert_eq!(body(b"AT+X\r\none\r\ntwo\r\nOK", &None), b"AT+X\r\none\r\ntwo".to_vec());
    assert_eq!(body(b"one\r\nOK", &echo), b"one".to_vec());
    assert_eq!(body(b"AT+X\r\nOK", &echo), Vec::<u8>::new());
    assert_eq!(body(b"OK", &echo), Vec::<u8>::new());
    assert_eq!(body(b"", &None), Vec::<u8>::new());
}

#[test]
fn messages_are_resolved_by_their_kind() {
    let ok = Message { kind: MessageKind::Response(Status::Success), bytes: b"a\r\nOK".to_vec() };
    let error = Message { kind: MessageKind::Response(Status::Failure), bytes: b"ERROR".to_vec() };
    let other = Message { kind: MessageKind::Response(Status::Other), bytes: b"+CME ERROR: 1".to_vec() };
    let bad = Message { kind: MessageKind::Malformed, bytes: b"junk".to_vec() };
    let urc = Message { kind: MessageKind::Urc(2), bytes: b"+IPD".to_vec() };
    assert_eq!(resolve(&ok, &None), Poll::Response(b"a".to_vec()));
    assert_eq!(resolve(&error, &None), Poll::Failed(SendError::Rejected));
    assert_eq!(resolve(&other, &None), Poll::Failed(SendError::Rejected));
    assert_eq!(resolve(&bad, &None), Poll::Failed(SendError::Malformed));
    assert_eq!(resolve(&urc, &None), Poll::Failed(SendError::Malformed));
}
