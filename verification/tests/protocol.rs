use brew_server::bytes::{u16le, u32le, u64le};
use brew_server::protocol::{
    build_call_cause, parse, raw_peer_pair, BrewMessage, CallPayload, ParseError, CALL_ALERT,
    CALL_GROUP_IDLE, CALL_GROUP_TX, CALL_RELEASE, CALL_SETUP_ACCEPT, CALL_SETUP_REJECT,
    CALL_SETUP_REQUEST, CALL_SHORT_TRANSFER, CLASS_CALL_CONTROL, CLASS_ERROR, CLASS_FRAME,
    CLASS_SERVICE, CLASS_SUBSCRIBER, FRAME_TRAFFIC_CHANNEL, SUB_AFFILIATE,
};
use uuid::Uuid;

#[test]
fn parses_group_tx() {
    let id = Uuid::new_v4();
    let mut p = vec![CLASS_CALL_CONTROL, CALL_GROUP_TX];
    p.extend_from_slice(id.as_bytes());
    p.extend_from_slice(&1001u32.to_le_bytes());
    p.extend_from_slice(&91u32.to_le_bytes());
    p.push(3);
    p.push(0);
    p.extend_from_slice(&0u16.to_le_bytes());

    let BrewMessage::CallControl(cc) = parse(&p).unwrap() else { panic!() };
    assert_eq!(cc.identifier, id.as_u128());
    let CallPayload::GroupTransmission(gt) = cc.payload else { panic!() };
    assert_eq!(gt.source, 1001);
    assert_eq!(gt.destination, 91);
}

#[test]
fn parses_traffic_frame() {
    let id = Uuid::new_v4();
    let mut p = vec![CLASS_FRAME, FRAME_TRAFFIC_CHANNEL];
    p.extend_from_slice(id.as_bytes());
    p.extend_from_slice(&274u16.to_le_bytes());
    p.extend_from_slice(&[0x80; 36]);

    let BrewMessage::Frame(frame) = parse(&p).unwrap() else { panic!() };
    assert_eq!(frame.identifier, id.as_u128());
    assert_eq!(frame.length_bits, 274);
    assert_eq!(frame.data.len(), 36);
}

fn call_packet(call_state: u8, id: &Uuid, payload: &[u8]) -> Vec<u8> {
    let mut p = vec![CLASS_CALL_CONTROL, call_state];
    p.extend_from_slice(id.as_bytes());
    p.extend_from_slice(payload);
    p
}

#[test]
fn reads_every_field_of_a_group_transmission() {
    let id = Uuid::from_u128(0x0011_2233_4455_6677_8899_aabb_ccdd_eeff);
    let p = call_packet(
        CALL_GROUP_TX,
        &id,
        &[0x01, 0x02, 0x03, 0x04, 0xff, 0xff, 0xff, 0xff, 7, 9, 0x34, 0x12, 0xaa],
    );
    let BrewMessage::CallControl(cc) = parse(&p).unwrap() else { panic!() };
    assert_eq!(cc.call_state, CALL_GROUP_TX);
    assert_eq!(cc.identifier, 0x0011_2233_4455_6677_8899_aabb_ccdd_eeff);
    let CallPayload::GroupTransmission(gt) = cc.payload else { panic!() };
    assert_eq!(gt.source, 0x0403_0201);
    assert_eq!(gt.destination, u32::MAX);
    assert_eq!(gt.priority, 7);
    assert_eq!(gt.access, 9);
    assert_eq!(gt.service, 0x1234);
}

#[test]
fn reads_a_subscriber_packet_and_ignores_a_broken_group() {
    let mut p = vec![CLASS_SUBSCRIBER, SUB_AFFILIATE];
    p.extend_from_slice(&4321u32.to_le_bytes());
    p.extend_from_slice(&0x0102_0304_0506_0708u64.to_le_bytes());
    p.extend_from_slice(&99u32.to_le_bytes());
    for g in [91u32, 92, 0xdead_beef] {
        p.extend_from_slice(&g.to_le_bytes());
    }
    p.extend_from_slice(&[1, 2, 3]);
    let BrewMessage::Subscriber(m) = parse(&p).unwrap() else { panic!() };
    assert_eq!(m.msg_type, SUB_AFFILIATE);
    assert_eq!(m.issi, 4321);
    assert_eq!(m.timestamp, 0x0102_0304_0506_0708);
    assert_eq!(m.fraction, 99);
    assert_eq!(m.groups, vec![91, 92, 0xdead_beef]);

    let BrewMessage::Subscriber(bare) = parse(&p[..18]).unwrap() else { panic!() };
    assert!(bare.groups.is_empty());
    assert!(matches!(parse(&p[..17]), Err(ParseError::TooShort(17))));
}

#[test]
fn cause_packets_are_read_by_their_state() {
    let id = Uuid::new_v4();
    for state in 0..=20u8 {
        let p = build_call_cause(state, id.as_u128(), 5);
        assert_eq!(p, call_packet(state, &id, &[5]));
        match state {
            CALL_GROUP_TX | CALL_SHORT_TRANSFER => {
                assert!(matches!(parse(&p), Err(ParseError::TooShort(19))));
            }
            _ => {
                let BrewMessage::CallControl(cc) = parse(&p).unwrap() else { panic!() };
                assert_eq!(cc.identifier, id.as_u128());
                match state {
                    CALL_GROUP_IDLE | CALL_SETUP_REJECT | CALL_RELEASE => {
                        assert!(matches!(cc.payload, CallPayload::Cause(5)));
                    }
                    CALL_SETUP_ACCEPT | CALL_ALERT => {
                        assert!(matches!(cc.payload, CallPayload::Empty));
                    }
                    _ => {
                        let CallPayload::Raw(raw) = cc.payload else { panic!() };
                        assert_eq!(raw, vec![5]);
                    }
                }
            }
        }
    }
}

#[test]
fn short_call_packets_are_refused_with_their_whole_length() {
    let id = Uuid::new_v4();
    assert!(matches!(parse(&[]), Err(ParseError::TooShort(0))));
    assert!(matches!(parse(&[CLASS_CALL_CONTROL]), Err(ParseError::TooShort(1))));
    assert!(matches!(parse(&[CLASS_CALL_CONTROL, 2]), Err(ParseError::TooShort(2))));
    let p = call_packet(CALL_GROUP_TX, &id, &[0; 11]);
    assert!(matches!(parse(&p), Err(ParseError::TooShort(29))));
    let p = call_packet(CALL_SHORT_TRANSFER, &id, &[0; 7]);
    assert!(matches!(parse(&p), Err(ParseError::TooShort(25))));
    let p = call_packet(CALL_RELEASE, &id, &[]);
    assert!(matches!(parse(&p), Err(ParseError::TooShort(18))));
    assert!(matches!(parse(&[CLASS_FRAME; 19]), Err(ParseError::TooShort(19))));
}

#[test]
fn reads_a_short_transfer() {
    let id = Uuid::new_v4();
    let p = call_packet(CALL_SHORT_TRANSFER, &id, &[1, 0, 0, 0, 0, 1, 0, 0, 77]);
    let BrewMessage::CallControl(cc) = parse(&p).unwrap() else { panic!() };
    assert!(matches!(cc.payload, CallPayload::ShortTransfer { source: 1, destination: 256 }));
}

#[test]
fn service_text_ends_at_the_first_zero() {
    let mut p = vec![CLASS_SERVICE, 3];
    p.extend_from_slice("{\"é\":1}".as_bytes());
    let BrewMessage::Service(m) = parse(&p).unwrap() else { panic!() };
    assert_eq!(m.service_type, 3);
    assert_eq!(m.json_data, "{\"é\":1}");

    p.push(0);
    p.extend_from_slice(&[0xff, 0xfe]);
    let BrewMessage::Service(m) = parse(&p).unwrap() else { panic!() };
    assert_eq!(m.json_data, "{\"é\":1}");

    let BrewMessage::Service(m) = parse(&[CLASS_SERVICE, 0]).unwrap() else { panic!() };
    assert_eq!(m.json_data, "");
    assert!(matches!(parse(&[CLASS_SERVICE, 0, 0xc3]), Err(ParseError::InvalidUtf8)));
    assert!(matches!(parse(&[CLASS_SERVICE, 0, 0xc3, 0]), Err(ParseError::InvalidUtf8)));
}

#[test]
fn reads_an_error_packet() {
    let BrewMessage::Error(m) = parse(&[CLASS_ERROR, 4, 1, 2, 3]).unwrap() else { panic!() };
    assert_eq!(m.error_type, 4);
    assert_eq!(m.data, vec![1, 2, 3]);
}

#[test]
fn unknown_classes_are_refused() {
    for class in 0..=255u8 {
        let r = parse(&[class, 0]);
        if (CLASS_SUBSCRIBER..=CLASS_SERVICE).contains(&class) {
            assert!(!matches!(r, Err(ParseError::UnknownClass(_))));
        } else {
            assert!(matches!(r, Err(ParseError::UnknownClass(c)) if c == class));
        }
    }
}

#[test]
fn parse_errors_have_words() {
    assert_eq!(ParseError::TooShort(19).message(), "Brew packet too short: 19 bytes");
    assert_eq!(ParseError::UnknownClass(0x0a).message(), "unknown Brew class 0x0a");
    assert_eq!(ParseError::UnknownClass(0xfe).message(), "unknown Brew class 0xfe");
    assert_eq!(ParseError::InvalidUtf8.message(), "invalid UTF-8 service payload");
}

#[test]
fn setup_requests_name_their_peers() {
    let id = Uuid::new_v4();
    let mut payload = 1001u32.to_le_bytes().to_vec();
    payload.extend_from_slice(&2002u32.to_le_bytes());
    payload.push(0xff);
    let p = call_packet(CALL_SETUP_REQUEST, &id, &payload);
    let BrewMessage::CallControl(cc) = parse(&p).unwrap() else { panic!() };
    assert_eq!(raw_peer_pair(&cc.payload), Some((1001, 2002)));
    assert_eq!(raw_peer_pair(&CallPayload::Raw(vec![0; 7])), None);
    assert_eq!(raw_peer_pair(&CallPayload::Empty), None);
    assert_eq!(raw_peer_pair(&CallPayload::Cause(1)), None);
}

#[test]
fn numbers_are_read_least_significant_byte_first() {
    let data: Vec<u8> = (1..=16).collect();
    for o in 0..8usize {
        assert_eq!(u16le(&data, o), u16::from_le_bytes([data[o], data[o + 1]]));
        let mut four = [0u8; 4];
        four.copy_from_slice(&data[o..o + 4]);
        assert_eq!(u32le(&data, o), u32::from_le_bytes(four));
        let mut eight = [0u8; 8];
        eight.copy_from_slice(&data[o..o + 8]);
        assert_eq!(u64le(&data, o), u64::from_le_bytes(eight));
    }
    assert_eq!(u64le(&[0xff; 8], 0), u64::MAX);
}

#[test]
fn bytes_after_a_call_packet_are_ignored_or_raw() {
    let id = Uuid::new_v4();
    let payload: Vec<u8> = (1..=12).collect();
    for state in 0..=20u8 {
        let short = parse(&call_packet(state, &id, &payload)).unwrap();
        let mut longer = payload.clone();
        longer.extend_from_slice(&[0xaa, 0xbb]);
        let long = parse(&call_packet(state, &id, &longer)).unwrap();
        let BrewMessage::CallControl(mut a) = short else { panic!() };
        let BrewMessage::CallControl(b) = long else { panic!() };
        let is_raw = match &mut a.payload {
            CallPayload::Raw(raw) => {
                raw.extend_from_slice(&[0xaa, 0xbb]);
                true
            }
            _ => false,
        };
        assert_eq!(is_raw, ![2, 3, 5, 6, 7, 10, 11].contains(&state));
        assert_eq!(format!("{a:?}"), format!("{b:?}"));
    }
}
