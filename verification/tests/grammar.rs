use itchy::{
    be_u48, char2bool, maybe_char2bool, parse_add_order, parse_message, parse_participant_position,
    parse_replace_order, parse_stock_directory, parse_system_event, EventCode, FinancialStatus,
    IssueClassification, IssueSubType, LuldRefPriceTier, MarketCategory, MarketMakerMode,
    MarketParticipantState, Message, MessageBody, Parsed, RegShoAction, Side, Text4, Text8,
    TradingState,
};

fn h2b(h: u8) -> Option<u8> {
    match h {
        b'0'..=b'9' => Some(h - b'0'),
        b'a'..=b'f' => Some(h - b'a' + 10),
        b' ' | b'\n' => None,
        _ => panic!("Invalid hex: {}", h as char),
    }
}

fn hex_to_bytes(bytes: &[u8]) -> Vec<u8> {
    bytes
        .iter()
        .filter_map(|b| h2b(*b))
        .collect::<Vec<_>>()
        .chunks(2)
        .map(|slice| (slice[0] << 4) + slice[1])
        .collect()
}

fn done<'a, T>(r: Parsed<'a, T>) -> (&'a [u8], T) {
    match r {
        Parsed::Done(rest, v) => (rest, v),
        Parsed::Incomplete => panic!("incomplete"),
        Parsed::Malformed => panic!("malformed"),
    }
}

fn frame(tag: u8, body: &[u8]) -> Vec<u8> {
    let length = (body.len() + 11) as u16;
    let mut f = vec![(length >> 8) as u8, length as u8, tag];
    f.extend_from_slice(&[0x00, 0x01, 0x00, 0x02, 0x00, 0x00, 0x00, 0x00, 0x00, 0x2a]);
    f.extend_from_slice(body);
    f
}

fn decode_frame(f: &[u8]) -> Message {
    let (rest, msg) = done(parse_message(f));
    assert_eq!(rest.len(), 0);
    assert_eq!(msg.header.stock_locate, 1);
    assert_eq!(msg.header.tracking_number, 2);
    assert_eq!(msg.header.timestamp, 42);
    msg
}

#[test]
fn system_event() {
    let code = b"4f";
    let bytes = hex_to_bytes(&code[..]);
    let (rest, _) = done(parse_system_event(&bytes[..]));
    assert_eq!(rest.len(), 0);
}

#[test]
fn stock_directory() {
    let code = b"41 2020 2020 2020 204e 2000
                 0000 644e 435a 2050 4e20 314e 0000 0000 4e";
    let bytes = hex_to_bytes(&code[..]);
    let (rest, _) = done(parse_stock_directory(&bytes[..]));
    assert_eq!(rest.len(), 0);
}

#[test]
fn market_participant_position() {
    let code = b"41 44 41 4d 42 42 52 59 20 20 20 20 59 4e 41";
    let bytes = hex_to_bytes(&code[..]);
    let (rest, _) = done(parse_participant_position(&bytes[..]));
    assert_eq!(rest.len(), 0);
}

#[test]
fn add_order() {
    let code = b"00 00 00 00 00 00 05 84 42 00 00 00 64 5a 58 5a 5a 54 20 20 20 00 00 27 10";
    let bytes = hex_to_bytes(&code[..]);
    let (rest, _) = done(parse_add_order(&bytes[..]));
    assert_eq!(rest.len(), 0);
}

#[test]
fn check_sizeof() {
    assert_eq!(std::mem::size_of::<Message>(), 56)
}

#[test]
fn system_event_frame_decodes_to_start_of_messages() {
    let bytes = [
        0x00, 0x0b, 0x53, 0x00, 0x01, 0x00, 0x02, 0x00, 0x00, 0x00, 0x00, 0x00, 0x2a, 0x4f,
    ];
    let (rest, msg) = done(parse_message(&bytes));
    assert_eq!(rest.len(), 0);
    assert_eq!(msg.header.stock_locate, 1);
    assert_eq!(msg.header.tracking_number, 2);
    assert_eq!(msg.header.timestamp, 42);
    assert_eq!(msg.body, MessageBody::SystemEvent { event: EventCode::StartOfMessages });
}

#[test]
fn add_order_fields_are_exact() {
    let bytes = hex_to_bytes(
        b"00 00 00 00 00 00 05 84 42 00 00 00 64 5a 58 5a 5a 54 20 20 20 00 00 27 10",
    );
    let (rest, order) = done(parse_add_order(&bytes));
    assert_eq!(rest.len(), 0);
    assert_eq!(order.reference, 1412);
    assert_eq!(order.side, Side::Buy);
    assert_eq!(order.shares, 100);
    assert_eq!(order.stock.as_str(), "ZXZZT   ");
    assert_eq!(order.price, 10000);
}

#[test]
fn add_order_leaves_following_bytes() {
    let mut bytes = hex_to_bytes(
        b"00 00 00 00 00 00 05 84 53 00 00 00 64 5a 58 5a 5a 54 20 20 20 00 00 27 10",
    );
    bytes.extend_from_slice(&[0xaa, 0xbb]);
    let (rest, order) = done(parse_add_order(&bytes));
    assert_eq!(rest, &[0xaa, 0xbb]);
    assert_eq!(order.side, Side::Sell);
}

#[test]
fn stock_directory_fields_are_exact() {
    let bytes = hex_to_bytes(
        b"41 2020 2020 2020 204e 2000 0000 644e 435a 2050 4e20 314e 0000 0000 4e",
    );
    let (_, d) = done(parse_stock_directory(&bytes));
    assert_eq!(d.stock.as_str(), "A       ");
    assert_eq!(d.market_category, MarketCategory::Nyse);
    assert_eq!(d.financial_status, FinancialStatus::Unavailable);
    assert_eq!(d.round_lot_size, 100);
    assert_eq!(d.round_lots_only, false);
    assert_eq!(d.issue_classification, IssueClassification::Unit);
    assert_eq!(d.issue_subtype, IssueSubType::AlphaIndexETNs);
    assert_eq!(d.authenticity, true);
    assert_eq!(d.short_sale_threshold, Some(false));
    assert_eq!(d.ipo_flag, None);
    assert_eq!(d.luld_ref_price_tier, LuldRefPriceTier::Tier1);
    assert_eq!(d.etp_flag, Some(false));
    assert_eq!(d.etp_leverage_factor, 0);
    assert_eq!(d.inverse_indicator, false);
}

#[test]
fn participant_position_fields_are_exact() {
    let bytes = hex_to_bytes(b"41 44 41 4d 42 42 52 59 20 20 20 20 59 4e 41");
    let (_, p) = done(parse_participant_position(&bytes));
    assert_eq!(p.mpid.as_str(), "ADAM");
    assert_eq!(p.stock.as_str(), "BBRY    ");
    assert_eq!(p.primary_market_maker, true);
    assert_eq!(p.market_maker_mode, MarketMakerMode::Normal);
    assert_eq!(p.market_participant_state, MarketParticipantState::Active);
}

#[test]
fn replace_order_fields_are_exact() {
    let bytes = hex_to_bytes(
        b"00 00 00 00 00 00 05 84 00 00 00 00 00 00 05 85 00 00 00 c8 00 01 86 a0",
    );
    let (rest, o) = done(parse_replace_order(&bytes));
    assert_eq!(rest.len(), 0);
    assert_eq!(o.old_reference, 1412);
    assert_eq!(o.new_reference, 1413);
    assert_eq!(o.shares, 200);
    assert_eq!(o.price, 100000);
}

#[test]
fn every_known_tag_selects_its_body() {
    let event = decode_frame(&frame(b'S', b"C"));
    assert_eq!(event.body, MessageBody::SystemEvent { event: EventCode::EndOfMessages });

    let directory = decode_frame(&frame(
        b'R',
        &hex_to_bytes(b"41 2020 2020 2020 204e 2000 0000 644e 435a 2050 4e20 314e 0000 0000 4e"),
    ));
    assert!(matches!(directory.body, MessageBody::StockDirectory(_)));

    let position = decode_frame(&frame(b'L', b"ADAMBBRY    YNA"));
    match position.body {
        MessageBody::ParticipantPosition(p) => assert_eq!(p.mpid, Text4::from_bytes(b"ADAM").unwrap()),
        other => panic!("unexpected body {:?}", other),
    }

    let restriction = decode_frame(&frame(b'Y', b"ZXZZT   1"));
    assert_eq!(
        restriction.body,
        MessageBody::RegShoRestriction {
            stock: Text8::from_bytes(b"ZXZZT   ").unwrap(),
            action: RegShoAction::Intraday,
        }
    );

    let action = decode_frame(&frame(b'H', b"ZXZZT   T\x00IPO1"));
    assert_eq!(
        action.body,
        MessageBody::TradingAction {
            stock: Text8::from_bytes(b"ZXZZT   ").unwrap(),
            trading_state: TradingState::Trading,
            reason: Text4::from_bytes(b"IPO1").unwrap(),
        }
    );

    let add = decode_frame(&frame(
        b'A',
        &hex_to_bytes(b"00 00 00 00 00 00 05 84 42 00 00 00 64 5a 58 5a 5a 54 20 20 20 00 00 27 10"),
    ));
    match add.body {
        MessageBody::AddOrder(o) => assert_eq!(o.reference, 1412),
        other => panic!("unexpected body {:?}", other),
    }

    let replace = decode_frame(&frame(
        b'U',
        &hex_to_bytes(b"00 00 00 00 00 00 05 84 00 00 00 00 00 00 05 85 00 00 00 c8 00 01 86 a0"),
    ));
    match replace.body {
        MessageBody::ReplaceOrder(o) => assert_eq!(o.new_reference, 1413),
        other => panic!("unexpected body {:?}", other),
    }

    let delete = decode_frame(&frame(b'D', &[0, 0, 0, 0, 0, 0, 0x05, 0x84]));
    assert_eq!(delete.body, MessageBody::DeleteOrder { reference: 1412 });
}

#[test]
fn unknown_tag_keeps_the_rest_of_the_frame() {
    let mut bytes = frame(b'x', &[1, 2, 3, 4, 5]);
    bytes.extend_from_slice(&[9, 9]);
    let (rest, msg) = done(parse_message(&bytes));
    assert_eq!(rest, &[9, 9]);
    assert_eq!(
        msg.body,
        MessageBody::Unknown { length: 16, tag: 'x', content: vec![1, 2, 3, 4, 5] }
    );
}

#[test]
fn unknown_tag_with_empty_payload() {
    let bytes = frame(b'?', &[]);
    let msg = decode_frame(&bytes);
    assert_eq!(msg.body, MessageBody::Unknown { length: 11, tag: '?', content: vec![] });
}

#[test]
fn unknown_tag_with_short_declared_length_is_malformed() {
    let mut bytes = frame(b'x', &[]);
    bytes[1] = 10;
    assert!(matches!(parse_message(&bytes), Parsed::Malformed));
}

#[test]
fn unknown_tag_waits_for_its_payload() {
    let bytes = frame(b'x', &[1, 2, 3, 4, 5]);
    assert!(matches!(parse_message(&bytes[..17]), Parsed::Incomplete));
}

#[test]
fn every_proper_prefix_of_a_frame_is_incomplete() {
    let bytes = frame(
        b'A',
        &hex_to_bytes(b"00 00 00 00 00 00 05 84 42 00 00 00 64 5a 58 5a 5a 54 20 20 20 00 00 27 10"),
    );
    for n in 0..bytes.len() {
        assert!(matches!(parse_message(&bytes[..n]), Parsed::Incomplete), "prefix of {} bytes", n);
    }
    assert!(matches!(parse_message(&bytes), Parsed::Done(_, _)));
}

#[test]
fn bad_code_is_malformed_as_soon_as_it_is_there() {
    let mut body =
        hex_to_bytes(b"00 00 00 00 00 00 05 84 42 00 00 00 64 5a 58 5a 5a 54 20 20 20 00 00 27 10");
    body[8] = b'X';
    assert!(matches!(parse_add_order(&body[..8]), Parsed::Incomplete));
    assert!(matches!(parse_add_order(&body[..9]), Parsed::Malformed));
    assert!(matches!(parse_add_order(&body), Parsed::Malformed));
    assert!(matches!(parse_message(&frame(b'A', &body)), Parsed::Malformed));
}

#[test]
fn text_must_be_single_byte() {
    let mut body =
        hex_to_bytes(b"00 00 00 00 00 00 05 84 42 00 00 00 64 5a 58 5a 5a 54 20 20 20 00 00 27 10");
    body[14] = 0xc3;
    body[15] = 0xa9;
    assert!(matches!(parse_add_order(&body), Parsed::Malformed));
    assert!(matches!(parse_add_order(&body[..20]), Parsed::Incomplete));
    assert!(Text8::from_bytes(&body[13..21]).is_none());
    assert!(Text8::from_bytes(b"short").is_none());
    assert!(Text4::from_bytes(b"toolong").is_none());
    assert_eq!(Text4::from_bytes(b"AB  ").unwrap().as_str(), "AB  ");
}

#[test]
fn system_event_codes() {
    let table = [
        (b'O', EventCode::StartOfMessages),
        (b'S', EventCode::StartOfSystemHours),
        (b'Q', EventCode::StartOfMarketHours),
        (b'M', EventCode::EndOfMarketHours),
        (b'E', EventCode::EndOfSystemHours),
        (b'C', EventCode::EndOfMessages),
    ];
    for (byte, event) in table {
        let (_, body) = done(parse_system_event(&[byte]));
        assert_eq!(body, MessageBody::SystemEvent { event });
    }
    assert!(matches!(parse_system_event(&[b'Z']), Parsed::Malformed));
    assert!(matches!(parse_system_event(&[]), Parsed::Incomplete));
}

#[test]
fn two_valued_flag() {
    assert!(matches!(char2bool(b"Y"), Parsed::Done(_, true)));
    assert!(matches!(char2bool(b"N"), Parsed::Done(_, false)));
    assert!(matches!(char2bool(b" "), Parsed::Malformed));
    assert!(matches!(char2bool(b"y"), Parsed::Malformed));
    assert!(matches!(char2bool(b""), Parsed::Incomplete));
    let (rest, _) = done(char2bool(b"YN"));
    assert_eq!(rest, b"N");
}

#[test]
fn three_valued_flag() {
    assert!(matches!(maybe_char2bool(b"Y"), Parsed::Done(_, Some(true))));
    assert!(matches!(maybe_char2bool(b"N"), Parsed::Done(_, Some(false))));
    assert!(matches!(maybe_char2bool(b" "), Parsed::Done(_, None)));
    assert!(matches!(maybe_char2bool(b"X"), Parsed::Malformed));
    assert!(matches!(maybe_char2bool(b""), Parsed::Incomplete));
}

#[test]
fn forty_eight_bit_timestamp() {
    let (rest, v) = done(be_u48(&[0x00, 0x00, 0x64, 0x4e, 0x43, 0x5a, 0xff]));
    assert_eq!(v, 0x0000_644e_435a);
    assert_eq!(rest, &[0xff]);
    let (_, top) = done(be_u48(&[0xff; 6]));
    assert_eq!(top, 0xffff_ffff_ffff);
    assert_eq!(top >> 48, 0);
    let (_, mixed) = done(be_u48(&[0x01, 0x02, 0x03, 0x04, 0x05, 0x06]));
    assert_eq!(mixed, 0x0102_0304_0506);
    assert!(matches!(be_u48(&[0, 0, 0, 0, 0]), Parsed::Incomplete));
}

#[test]
fn forty_eight_bit_round_trip() {
    for v in [0u64, 1, 42, 0x644e_435a, 0x8000_0000_0000, 0xffff_ffff_ffff, 34_200_000_000_000] {
        let bytes = [
            (v >> 40) as u8,
            (v >> 32) as u8,
            (v >> 24) as u8,
            (v >> 16) as u8,
            (v >> 8) as u8,
            v as u8,
        ];
        let (_, back) = done(be_u48(&bytes));
        assert_eq!(back, v);
    }
}

#[test]
fn header_integers_are_big_endian() {
    let mut bytes = frame(b'D', &[0x01, 0x02, 0x03, 0x04, 0x05, 0x06, 0x07, 0x08]);
    bytes[3] = 0x12;
    bytes[4] = 0x34;
    bytes[5] = 0xab;
    bytes[6] = 0xcd;
    let (_, msg) = done(parse_message(&bytes));
    assert_eq!(msg.header.stock_locate, 0x1234);
    assert_eq!(msg.header.tracking_number, 0xabcd);
    assert_eq!(msg.body, MessageBody::DeleteOrder { reference: 0x0102_0304_0506_0708 });
}
