use atat_blue_pill::frame::{Message, MessageKind, Status};
use atat_blue_pill::queue::{
    Command, CommandQueue, Full, IngestQueue, MessageQueue, COMMAND_CAPACITY, INGEST_CAPACITY,
    MESSAGE_CAPACITY,
};

fn numbered(n: u8) -> Message {
    Message { kind: MessageKind::Urc(n as usize), bytes: vec![n, n] }
}

#[test]
fn fresh_queues_are_empty() {
    assert_eq!(IngestQueue::new().pop(), None);
    assert_eq!(MessageQueue::new().pop(), None);
    assert_eq!(CommandQueue::new().pop(), None);
    assert_eq!(IngestQueue::new().dropped(), 0);
    assert_eq!(MessageQueue::new().dropped(), 0);
    assert_eq!(CommandQueue::new().dropped(), 0);
}

#[test]
fn bytes_leave_in_the_order_of_arrival() {
    let mut q = IngestQueue::new();
    assert_eq!(q.push(7), Ok(()));
    assert_eq!(q.push(9), Ok(()));
    assert_eq!(q.push(8), Ok(()));
    assert_eq!(q.pop(), Some(7));
    assert_eq!(q.pop(), Some(9));
    assert_eq!(q.push(1), Ok(()));
    assert_eq!(q.pop(), Some(8));
    assert_eq!(q.pop(), Some(1));
    assert_eq!(q.pop(), None);
    assert_eq!(q.dropped(), 0);
}

#[test]
fn full_ingest_queue_turns_bytes_away_and_counts_them() {
    let mut q = IngestQueue::new();
    assert_eq!(INGEST_CAPACITY, 255);
    for i in 0..255usize {
        assert_eq!(q.push((i % 251) as u8), Ok(()));
    }
    assert_eq!(q.push(77), Err(Full));
    assert_eq!(q.push(78), Err(Full));
    assert_eq!(q.dropped(), 2);
    assert_eq!(q.pop(), Some(0));
    assert_eq!(q.push(79), Ok(()));
    assert_eq!(q.dropped(), 2);
    for i in 1..255usize {
        assert_eq!(q.pop(), Some((i % 251) as u8));
    }
    assert_eq!(q.pop(), Some(79));
    assert_eq!(q.pop(), None);
}

#[test]
fn messages_leave_in_the_order_of_arrival() {
    let mut q = MessageQueue::new();
    assert_eq!(q.push(numbered(1)), Ok(()));
    assert_eq!(
        q.push(Message { kind: MessageKind::Response(Status::Success), bytes: b"OK".to_vec() }),
        Ok(())
    );
    assert_eq!(q.pop(), Some(numbered(1)));
    assert_eq!(
        q.pop(),
        Some(Message { kind: MessageKind::Response(Status::Success), bytes: b"OK".to_vec() })
    );
    assert_eq!(q.pop(), None);
}

#[test]
fn full_message_queue_turns_messages_away_and_counts_them() {
    let mut q = MessageQueue::new();
    assert_eq!(MESSAGE_CAPACITY, 7);
    for i in 0..7u8 {
        assert_eq!(q.push(numbered(i)), Ok(()));
    }
    assert_eq!(q.push(numbered(7)), Err(Full));
    assert_eq!(q.dropped(), 1);
    for i in 0..7u8 {
        assert_eq!(q.pop(), Some(numbered(i)));
    }
    assert_eq!(q.pop(), None);
    assert_eq!(q.dropped(), 1);
}

#[test]
fn clear_empties_a_message_queue() {
    let mut q = MessageQueue::new();
    for i in 0..5u8 {
        assert_eq!(q.push(numbered(i)), Ok(()));
    }
    q.clear();
    assert_eq!(q.pop(), None);
    assert_eq!(q.dropped(), 0);
    assert_eq!(q.push(numbered(9)), Ok(()));
    assert_eq!(q.pop(), Some(numbered(9)));
}

#[test]
fn full_command_queue_turns_notices_away_and_counts_them() {
    let mut q = CommandQueue::new();
    assert_eq!(COMMAND_CAPACITY, 3);
    assert_eq!(q.push(Command::Issued), Ok(()));
    assert_eq!(q.push(Command::Abandoned), Ok(()));
    assert_eq!(q.push(Command::Issued), Ok(()));
    assert_eq!(q.push(Command::Abandoned), Err(Full));
    assert_eq!(q.dropped(), 1);
    assert_eq!(q.pop(), Some(Command::Issued));
    assert_eq!(q.pop(), Some(Command::Abandoned));
    assert_eq!(q.pop(), Some(Command::Issued));
    assert_eq!(q.pop(), None);
}
