use itchy::window::REMNANT_LIMIT;
use itchy::{
    decode_feed, parse_message, parse_reader, DecodeError, EventCode, Message, MessageBody,
    MessageStream, Parsed, Side, Step, Window, BUFSIZE,
};

fn frame_with(tag: u8, tracking: u16, body: &[u8]) -> Vec<u8> {
    let length = (body.len() + 11) as u16;
    let mut f = vec![(length >> 8) as u8, length as u8, tag, 0x00, 0x01];
    f.extend_from_slice(&[(tracking >> 8) as u8, tracking as u8]);
    f.extend_from_slice(&[0x00, 0x00, 0x00, 0x00, 0x00, 0x2a]);
    f.extend_from_slice(body);
    f
}

fn add_order_frame(reference: u64) -> Vec<u8> {
    let mut body = reference.to_be_bytes().to_vec();
    body.push(b'B');
    body.extend_from_slice(&100u32.to_be_bytes());
    body.extend_from_slice(b"ZXZZT   ");
    body.extend_from_slice(&10000u32.to_be_bytes());
    frame_with(b'A', (reference & 0xffff) as u16, &body)
}

fn mixed_feed() -> Vec<u8> {
    let mut feed = frame_with(b'S', 0, b"O");
    feed.extend(add_order_frame(1412));
    feed.extend(frame_with(b'D', 7, &1412u64.to_be_bytes()));
    feed.extend(frame_with(b'Y', 8, b"ZXZZT   0"));
    feed.extend(frame_with(b'S', 9, b"C"));
    feed
}

/// Drives a stream over a feed that arrives in the given reads.
fn drive(reads: &[&[u8]]) -> Vec<Result<Message, DecodeError>> {
    let mut stream = parse_reader(());
    let mut items = Vec::new();
    let mut next = 0;
    loop {
        match stream.poll() {
            Step::Record(m) => items.push(Ok(m)),
            Step::Failed(e) => {
                items.push(Err(e));
                return items;
            }
            Step::NeedBytes(room) => {
                if next == reads.len() {
                    if let Some(e) = stream.end_of_source() {
                        items.push(Err(e));
                    }
                    return items;
                }
                assert!(reads[next].len() <= room);
                stream.supply(reads[next]).unwrap();
                next += 1;
            }
        }
    }
}

fn references(items: &[Result<Message, DecodeError>]) -> Vec<u64> {
    items
        .iter()
        .map(|item| match item {
            Ok(Message { body: MessageBody::AddOrder(o), .. }) => o.reference,
            other => panic!("unexpected item {:?}", other),
        })
        .collect()
}

#[test]
fn fresh_stream_asks_for_a_full_window() {
    let mut stream: MessageStream<()> = parse_reader(());
    assert_eq!(stream.bytes_read(), 0);
    assert_eq!(stream.read_calls(), 0);
    assert_eq!(stream.messages(), 0);
    assert_eq!(stream.buffer_pos(), 0);
    assert!(matches!(stream.poll(), Step::NeedBytes(BUFSIZE)));
    assert_eq!(stream.read_calls(), 1);
    assert_eq!(stream.end_of_source(), None);
}

#[test]
fn stream_keeps_its_source() {
    let mut stream = MessageStream::new(vec![1u8, 2, 3]);
    stream.reader_mut().push(4);
    assert!(matches!(stream.poll(), Step::NeedBytes(_)));
    assert_eq!(stream.into_reader(), vec![1, 2, 3, 4]);
}

#[test]
fn one_frame_step_by_step() {
    let bytes = [
        0x00, 0x0b, 0x53, 0x00, 0x01, 0x00, 0x02, 0x00, 0x00, 0x00, 0x00, 0x00, 0x2a, 0x4f,
    ];
    let mut stream = parse_reader(());
    assert!(matches!(stream.poll(), Step::NeedBytes(200)));
    assert_eq!(stream.supply(&bytes[..5]), Ok(()));
    assert!(matches!(stream.poll(), Step::NeedBytes(195)));
    assert_eq!(stream.end_of_source(), Some(DecodeError::UnexpectedEndOfSource));
    assert_eq!(stream.supply(&bytes[5..]), Ok(()));
    match stream.poll() {
        Step::Record(msg) => {
            assert_eq!(msg.header.stock_locate, 1);
            assert_eq!(msg.header.tracking_number, 2);
            assert_eq!(msg.header.timestamp, 42);
            assert_eq!(msg.body, MessageBody::SystemEvent { event: EventCode::StartOfMessages });
        }
        other => panic!("unexpected step {:?}", other),
    }
    assert_eq!(stream.messages(), 1);
    assert_eq!(stream.bytes_read(), 14);
    assert_eq!(stream.buffer_pos(), 14);
    assert_eq!(stream.read_calls(), 2);
    assert!(matches!(stream.poll(), Step::NeedBytes(186)));
    assert_eq!(stream.end_of_source(), None);
}

#[test]
fn supply_refuses_more_than_the_window_takes() {
    let mut stream = parse_reader(());
    assert_eq!(stream.supply(&[0u8; 201]), Err(DecodeError::BufferCapacityError));
    assert_eq!(stream.bytes_read(), 0);
    assert_eq!(stream.supply(&[0u8; 200]), Ok(()));
    assert_eq!(stream.supply(&[0u8; 1]), Err(DecodeError::BufferCapacityError));
    assert_eq!(stream.bytes_read(), 200);
    assert_eq!(stream.buffer_pos(), 0);
}

#[test]
fn malformed_frame_fails_and_stays() {
    let mut feed = add_order_frame(1);
    let mut bad = add_order_frame(2);
    bad[13 + 8] = b'X';
    feed.extend(bad);
    feed.extend(add_order_frame(3));
    let mut stream = parse_reader(());
    stream.supply(&feed).unwrap();
    assert!(matches!(stream.poll(), Step::Record(_)));
    assert!(matches!(stream.poll(), Step::Failed(DecodeError::MalformedField)));
    assert!(matches!(stream.poll(), Step::Failed(DecodeError::MalformedField)));
    assert_eq!(stream.messages(), 1);
    assert_eq!(stream.buffer_pos(), 38);

    let items = decode_feed(&feed, 0);
    assert_eq!(items.len(), 2);
    assert_eq!(references(&items[..1]), vec![1]);
    assert_eq!(items[1], Err(DecodeError::MalformedField));
}

#[test]
fn two_reads_yield_what_one_read_yields() {
    let feed = mixed_feed();
    assert!(feed.len() <= BUFSIZE);
    let whole = drive(&[&feed]);
    assert_eq!(whole.len(), 5);
    assert!(whole.iter().all(|item| item.is_ok()));
    match &whole[1] {
        Ok(Message { body: MessageBody::AddOrder(o), .. }) => {
            assert_eq!(o.reference, 1412);
            assert_eq!(o.side, Side::Buy);
            assert_eq!(o.stock.as_str(), "ZXZZT   ");
        }
        other => panic!("unexpected item {:?}", other),
    }
    for cut in 1..feed.len() {
        assert_eq!(drive(&[&feed[..cut], &feed[cut..]]), whole, "cut at {}", cut);
    }
}

#[test]
fn chunk_size_does_not_show() {
    let mut feed = Vec::new();
    for reference in 0..40u64 {
        feed.extend(add_order_frame(reference));
        feed.extend(frame_with(b'D', 0, &reference.to_be_bytes()));
    }
    let whole = decode_feed(&feed, 0);
    assert_eq!(whole.len(), 80);
    assert!(whole.iter().all(|item| item.is_ok()));
    for chunk in [1, 2, 3, 7, 13, 37, 38, 39, 100, 199, 200, 201, 5000] {
        assert_eq!(decode_feed(&feed, chunk), whole, "chunk of {}", chunk);
    }
}

#[test]
fn long_feed_goes_through_the_window_in_order() {
    let mut feed = Vec::new();
    for reference in 0..500u64 {
        feed.extend(add_order_frame(reference));
    }
    assert!(feed.len() > 90 * BUFSIZE);
    let items = decode_feed(&feed, 0);
    assert_eq!(references(&items), (0..500).collect::<Vec<u64>>());
}

#[test]
fn truncated_feed_ends_with_one_failure() {
    let complete = mixed_feed();
    let next = add_order_frame(77);
    for kept in 1..next.len() {
        let mut feed = complete.clone();
        feed.extend_from_slice(&next[..kept]);
        let items = decode_feed(&feed, 0);
        assert_eq!(items.len(), 6, "kept {}", kept);
        assert_eq!(items[..5], decode_feed(&complete, 0)[..]);
        assert_eq!(items[5], Err(DecodeError::UnexpectedEndOfSource));
        assert_eq!(decode_feed(&feed, 5), items);
    }
}

#[test]
fn feed_that_ends_on_a_frame_boundary_ends_cleanly() {
    let items = decode_feed(&mixed_feed(), 3);
    assert_eq!(items.len(), 5);
    assert!(items.iter().all(|item| item.is_ok()));
    assert_eq!(decode_feed(&[], 0), vec![]);
}

#[test]
fn unknown_frame_goes_through_the_stream() {
    let mut feed = add_order_frame(5);
    feed.extend(frame_with(b'z', 3, &[0xde, 0xad, 0xbe, 0xef]));
    feed.extend(add_order_frame(6));
    let items = decode_feed(&feed, 4);
    assert_eq!(items.len(), 3);
    match &items[1] {
        Ok(msg) => {
            assert_eq!(msg.header.tracking_number, 3);
            assert_eq!(
                msg.body,
                MessageBody::Unknown { length: 15, tag: 'z', content: vec![0xde, 0xad, 0xbe, 0xef] }
            );
        }
        other => panic!("unexpected item {:?}", other),
    }
}

#[test]
fn frame_larger_than_the_window_is_a_capacity_error() {
    let mut feed = add_order_frame(5);
    feed.extend(frame_with(b'z', 3, &[0x55; 300]));
    feed.extend(add_order_frame(6));
    for chunk in [0, 1, 17, 200] {
        let items = decode_feed(&feed, chunk);
        assert_eq!(items.len(), 2, "chunk of {}", chunk);
        assert_eq!(references(&items[..1]), vec![5]);
        assert_eq!(items[1], Err(DecodeError::BufferCapacityError));
    }
}

#[test]
fn compaction_moves_a_short_remainder_only() {
    let mut short = parse_reader(());
    let mut feed = Vec::new();
    while feed.len() + 38 <= BUFSIZE {
        feed.extend(add_order_frame(1));
    }
    let whole_frames = feed.len() / 38;
    feed.extend_from_slice(&add_order_frame(2)[..BUFSIZE - feed.len()]);
    assert_eq!(feed.len(), BUFSIZE);
    short.supply(&feed).unwrap();
    for _ in 0..whole_frames {
        assert!(matches!(short.poll(), Step::Record(_)));
    }
    let remainder = BUFSIZE - whole_frames * 38;
    assert!(remainder < REMNANT_LIMIT);
    match short.poll() {
        Step::NeedBytes(room) => assert_eq!(room, BUFSIZE - remainder),
        other => panic!("unexpected step {:?}", other),
    }
    assert_eq!(short.buffer_pos(), whole_frames * 38);
    short.supply(&add_order_frame(2)[remainder..]).unwrap();
    match short.poll() {
        Step::Record(Message { body: MessageBody::AddOrder(o), .. }) => assert_eq!(o.reference, 2),
        other => panic!("unexpected step {:?}", other),
    }

    let mut long = parse_reader(());
    let mut unknown = frame_with(b'z', 0, &[0; 150]);
    unknown.extend_from_slice(&[0; 37]);
    assert_eq!(unknown.len(), BUFSIZE);
    unknown[0] = 0x01;
    long.supply(&unknown).unwrap();
    assert!(matches!(long.poll(), Step::Failed(DecodeError::BufferCapacityError)));
    assert_eq!(long.read_calls(), 1);
    assert_eq!(long.fetch_more_bytes(), Err(DecodeError::BufferCapacityError));
    assert_eq!(long.read_calls(), 2);
}

#[test]
fn fetch_more_bytes_reports_the_room() {
    let mut stream = parse_reader(());
    assert_eq!(stream.fetch_more_bytes(), Ok(200));
    stream.supply(&[0; 120]).unwrap();
    assert_eq!(stream.fetch_more_bytes(), Ok(80));
    assert_eq!(stream.read_calls(), 2);
    assert_eq!(stream.bytes_read(), 120);
}

#[test]
fn window_on_its_own() {
    let mut window = Window::new();
    assert_eq!(window.unconsumed(), &[] as &[u8]);
    assert_eq!(window.append(&[1, 2, 3, 4, 5]), Ok(()));
    assert_eq!(window.unconsumed(), &[1, 2, 3, 4, 5]);
    window.consume(2);
    assert_eq!(window.unconsumed(), &[3, 4, 5]);
    assert_eq!(window.messages(), 1);
    assert_eq!(window.buffer_pos(), 2);
    assert_eq!(window.make_room(), Ok(195));
    assert_eq!(window.append(&[9; 195]), Ok(()));
    assert_eq!(window.append(&[9]), Err(DecodeError::BufferCapacityError));
    assert_eq!(window.make_room(), Err(DecodeError::BufferCapacityError));
    window.consume(160);
    assert_eq!(window.unconsumed().len(), 38);
    assert_eq!(window.make_room(), Ok(162));
    assert_eq!(window.unconsumed(), &[9; 38]);
    assert_eq!(window.read_calls(), 3);
    assert_eq!(window.bytes_read(), 200);
}

#[test]
fn error_descriptions() {
    assert_eq!(DecodeError::MalformedField.describe(), "malformed field");
    assert_eq!(DecodeError::UnexpectedEndOfSource.describe(), "unexpected end of source");
    assert_eq!(DecodeError::BufferCapacityError.describe(), "window too small for the data");
}

#[test]
fn frame_is_consumed_exactly() {
    let mut feed = add_order_frame(9);
    let size = feed.len();
    feed.extend_from_slice(&[0xff; 5]);
    match parse_message(&feed) {
        Parsed::Done(rest, _) => assert_eq!(rest.len(), feed.len() - size),
        other => panic!("unexpected result {:?}", other),
    }
    assert_eq!(size, 38);
}
