//! Brew packets: their layout on the wire, and reading them.
use crate::bytes::{be_bytes, be_value, le_value, u16le, u32le, u64le};
use crate::ids::{uuid_from_bytes, uuid_to_bytes, CallId};
use crate::text::{decimal, lower_hex_digit, push_decimal, to_lower_hex_digit, utf8_text};
use vstd::prelude::*;
use vstd::slice::{slice_subrange, slice_to_vec};
use vstd::utf8::{decode_utf8, valid_utf8};

verus! {

pub const CLASS_SUBSCRIBER: u8 = 0xf0;

pub const CLASS_CALL_CONTROL: u8 = 0xf1;

pub const CLASS_FRAME: u8 = 0xf2;

pub const CLASS_ERROR: u8 = 0xf3;

pub const CLASS_SERVICE: u8 = 0xf4;

pub const SUB_DEREGISTER: u8 = 0;

pub const SUB_REGISTER: u8 = 1;

pub const SUB_REREGISTER: u8 = 2;

pub const SUB_AFFILIATE: u8 = 8;

pub const SUB_DEAFFILIATE: u8 = 9;

pub const CALL_GROUP_TX: u8 = 2;

pub const CALL_GROUP_IDLE: u8 = 3;

pub const CALL_SETUP_REQUEST: u8 = 4;

pub const CALL_SETUP_ACCEPT: u8 = 5;

pub const CALL_SETUP_REJECT: u8 = 6;

pub const CALL_ALERT: u8 = 7;

pub const CALL_CONNECT_REQUEST: u8 = 8;

pub const CALL_CONNECT_CONFIRM: u8 = 9;

pub const CALL_RELEASE: u8 = 10;

pub const CALL_SHORT_TRANSFER: u8 = 11;

pub const CALL_SIMPLEX_GRANTED: u8 = 12;

pub const CALL_SIMPLEX_IDLE: u8 = 13;

pub const FRAME_TRAFFIC_CHANNEL: u8 = 0;

pub const FRAME_SDS_TRANSFER: u8 = 1;

pub const FRAME_SDS_REPORT: u8 = 2;

/// A packet that was read.
#[derive(Debug, Clone)]
pub enum BrewMessage {
    Subscriber(SubscriberMessage),
    CallControl(CallControlMessage),
    Frame(FrameMessage),
    Error(ErrorMessage),
    Service(ServiceMessage),
}

#[derive(Debug, Clone)]
pub struct SubscriberMessage {
    pub msg_type: u8,
    pub issi: u32,
    pub timestamp: u64,
    pub fraction: u32,
    pub groups: Vec<u32>,
}

#[derive(Debug, Clone)]
pub struct GroupTransmission {
    pub source: u32,
    pub destination: u32,
    pub priority: u8,
    pub access: u8,
    pub service: u16,
}

#[derive(Debug, Clone)]
pub enum CallPayload {
    GroupTransmission(GroupTransmission),
    Cause(u8),
    Empty,
    ShortTransfer { source: u32, destination: u32 },
    Raw(Vec<u8>),
}

#[derive(Debug, Clone)]
pub struct CallControlMessage {
    pub call_state: u8,
    pub identifier: CallId,
    pub payload: CallPayload,
}

#[derive(Debug, Clone)]
pub struct FrameMessage {
    pub frame_type: u8,
    pub identifier: CallId,
    pub length_bits: u16,
    pub data: Vec<u8>,
}

#[derive(Debug, Clone)]
pub struct ErrorMessage {
    pub error_type: u8,
    pub data: Vec<u8>,
}

#[derive(Debug, Clone)]
pub struct ServiceMessage {
    pub service_type: u8,
    pub json_data: String,
}

/// Why a packet cannot be read. `TooShort` holds the length of the packet,
/// `UnknownClass` its first byte.
#[derive(Debug)]
pub enum ParseError {
    TooShort(usize),
    UnknownClass(u8),
    InvalidUtf8,
}

/// What a packet says, as mathematical values.
pub enum MessageView {
    Subscriber { msg_type: u8, issi: u32, timestamp: u64, fraction: u32, groups: Seq<u32> },
    CallControl { call_state: u8, identifier: CallId, payload: PayloadView },
    Frame { frame_type: u8, identifier: CallId, length_bits: u16, data: Seq<u8> },
    Error { error_type: u8, data: Seq<u8> },
    Service { service_type: u8, json_data: Seq<char> },
}

/// What follows the identifier of a call control packet.
pub enum PayloadView {
    GroupTransmission(GroupTransmission),
    Cause(u8),
    Empty,
    ShortTransfer { source: u32, destination: u32 },
    Raw(Seq<u8>),
}

impl View for CallPayload {
    type V = PayloadView;

    open spec fn view(&self) -> PayloadView {
        match *self {
            CallPayload::GroupTransmission(t) => PayloadView::GroupTransmission(t),
            CallPayload::Cause(c) => PayloadView::Cause(c),
            CallPayload::Empty => PayloadView::Empty,
            CallPayload::ShortTransfer { source, destination } => PayloadView::ShortTransfer {
                source,
                destination,
            },
            CallPayload::Raw(raw) => PayloadView::Raw(raw@),
        }
    }
}

impl View for BrewMessage {
    type V = MessageView;

    open spec fn view(&self) -> MessageView {
        match *self {
            BrewMessage::Subscriber(m) => MessageView::Subscriber {
                msg_type: m.msg_type,
                issi: m.issi,
                timestamp: m.timestamp,
                fraction: m.fraction,
                groups: m.groups@,
            },
            BrewMessage::CallControl(m) => MessageView::CallControl {
                call_state: m.call_state,
                identifier: m.identifier,
                payload: m.payload@,
            },
            BrewMessage::Frame(m) => MessageView::Frame {
                frame_type: m.frame_type,
                identifier: m.identifier,
                length_bits: m.length_bits,
                data: m.data@,
            },
            BrewMessage::Error(m) => MessageView::Error { error_type: m.error_type, data: m.data@ },
            BrewMessage::Service(m) => MessageView::Service {
                service_type: m.service_type,
                json_data: m.json_data@,
            },
        }
    }
}

/// The little-endian number in the `len` bytes at `at`.
pub open spec fn field(data: Seq<u8>, at: int, len: int) -> nat {
    le_value(data.subrange(at, at + len))
}

/// The call states whose payload is one cause byte.
pub open spec fn carries_cause(call_state: u8) -> bool {
    call_state == CALL_GROUP_IDLE || call_state == CALL_SETUP_REJECT || call_state == CALL_RELEASE
}

/// The call states whose payload is not looked at.
pub open spec fn carries_nothing(call_state: u8) -> bool {
    call_state == CALL_SETUP_ACCEPT || call_state == CALL_ALERT
}

/// The bytes that a call control packet must have after its identifier.
pub open spec fn least_payload(call_state: u8) -> nat {
    if call_state == CALL_GROUP_TX {
        12
    } else if carries_cause(call_state) {
        1
    } else if call_state == CALL_SHORT_TRANSFER {
        8
    } else {
        0
    }
}

/// The bytes that a packet with these first two bytes must have.
pub open spec fn least_length(class: u8, kind: u8) -> nat {
    if class == CLASS_SUBSCRIBER {
        18
    } else if class == CLASS_CALL_CONTROL {
        18 + least_payload(kind)
    } else if class == CLASS_FRAME {
        20
    } else {
        2
    }
}

pub open spec fn known_class(class: u8) -> bool {
    CLASS_SUBSCRIBER <= class <= CLASS_SERVICE
}

/// The number of bytes in front of the first zero byte, or of all bytes.
pub open spec fn text_length(s: Seq<u8>) -> nat
    decreases s.len(),
{
    if s.len() == 0 || s.first() == 0 {
        0
    } else {
        1 + text_length(s.drop_first())
    }
}

/// The text of a service packet: what follows the first two bytes, up to a zero byte.
pub open spec fn service_text(data: Seq<u8>) -> Seq<u8> {
    data.skip(2).take(text_length(data.skip(2)) as int)
}

/// The four-byte groups after the fixed part of a subscriber packet. Up to
/// three bytes that make no whole group are ignored.
pub open spec fn subscriber_groups(data: Seq<u8>) -> Seq<u32> {
    Seq::new(((data.len() - 18) / 4) as nat, |i: int| field(data, 18 + 4 * i, 4) as u32)
}

/// What a call control packet carries after its identifier.
pub open spec fn call_payload(call_state: u8, payload: Seq<u8>) -> PayloadView {
    if call_state == CALL_GROUP_TX {
        PayloadView::GroupTransmission(
            GroupTransmission {
                source: field(payload, 0, 4) as u32,
                destination: field(payload, 4, 4) as u32,
                priority: payload[8],
                access: payload[9],
                service: field(payload, 10, 2) as u16,
            },
        )
    } else if carries_cause(call_state) {
        PayloadView::Cause(payload[0])
    } else if carries_nothing(call_state) {
        PayloadView::Empty
    } else if call_state == CALL_SHORT_TRANSFER {
        PayloadView::ShortTransfer {
            source: field(payload, 0, 4) as u32,
            destination: field(payload, 4, 4) as u32,
        }
    } else {
        PayloadView::Raw(payload)
    }
}

/// What a packet of sufficient length says.
pub open spec fn message_of(data: Seq<u8>) -> MessageView {
    if data[0] == CLASS_SUBSCRIBER {
        MessageView::Subscriber {
            msg_type: data[1],
            issi: field(data, 2, 4) as u32,
            timestamp: field(data, 6, 8) as u64,
            fraction: field(data, 14, 4) as u32,
            groups: subscriber_groups(data),
        }
    } else if data[0] == CLASS_CALL_CONTROL {
        MessageView::CallControl {
            call_state: data[1],
            identifier: be_value(data.subrange(2, 18)) as u128,
            payload: call_payload(data[1], data.skip(18)),
        }
    } else if data[0] == CLASS_FRAME {
        MessageView::Frame {
            frame_type: data[1],
            identifier: be_value(data.subrange(2, 18)) as u128,
            length_bits: field(data, 18, 2) as u16,
            data: data.skip(20),
        }
    } else if data[0] == CLASS_ERROR {
        MessageView::Error { error_type: data[1], data: data.skip(2) }
    } else {
        MessageView::Service { service_type: data[1], json_data: decode_utf8(service_text(data)) }
    }
}

/// What reading a packet gives.
pub open spec fn parsed(data: Seq<u8>) -> Result<MessageView, ParseError> {
    if data.len() < 2 {
        Err(ParseError::TooShort(data.len() as usize))
    } else if !known_class(data[0]) {
        Err(ParseError::UnknownClass(data[0]))
    } else if data.len() < least_length(data[0], data[1]) {
        Err(ParseError::TooShort(data.len() as usize))
    } else if data[0] == CLASS_SERVICE && !valid_utf8(service_text(data)) {
        Err(ParseError::InvalidUtf8)
    } else {
        Ok(message_of(data))
    }
}

/// A result of reading, with the message taken as mathematical values.
pub open spec fn reading(r: Result<BrewMessage, ParseError>) -> Result<MessageView, ParseError> {
    match r {
        Ok(m) => Ok(m@),
        Err(e) => Err(e),
    }
}

impl ParseError {
    /// The words for this error.
    pub open spec fn words(self) -> Seq<char> {
        match self {
            ParseError::TooShort(n) => "Brew packet too short: "@ + decimal(n as nat) + " bytes"@,
            ParseError::UnknownClass(c) => "unknown Brew class 0x"@.push(
                lower_hex_digit((c / 16) as nat),
            ).push(lower_hex_digit((c % 16) as nat)),
            ParseError::InvalidUtf8 => "invalid UTF-8 service payload"@,
        }
    }

    /// Says in words what is wrong with the packet.
    pub fn message(&self) -> (r: String)
        ensures
            r@ == self.words(),
    {
        match self {
            ParseError::TooShort(n) => {
                let mut out = "Brew packet too short: ".to_owned();
                push_decimal(&mut out, *n as u64);
                out.append(" bytes");
                out
            },
            ParseError::UnknownClass(c) => {
                let mut out = "unknown Brew class 0x".to_owned();
                out.push(to_lower_hex_digit(*c / 16));
                out.push(to_lower_hex_digit(*c % 16));
                out
            },
            ParseError::InvalidUtf8 => "invalid UTF-8 service payload".to_owned(),
        }
    }
}

/// Reads one packet.
pub fn parse(data: &[u8]) -> (r: Result<BrewMessage, ParseError>)
    ensures
        reading(r) == parsed(data@),
{
    if data.len() < 2 {
        return Err(ParseError::TooShort(data.len()));
    }
    if data[0] == CLASS_SUBSCRIBER {
        parse_subscriber(data)
    } else if data[0] == CLASS_CALL_CONTROL {
        parse_call_control(data)
    } else if data[0] == CLASS_FRAME {
        parse_frame(data)
    } else if data[0] == CLASS_ERROR {
        Ok(
            BrewMessage::Error(
                ErrorMessage {
                    error_type: data[1],
                    data: slice_to_vec(slice_subrange(data, 2, data.len())),
                },
            ),
        )
    } else if data[0] == CLASS_SERVICE {
        parse_service(data)
    } else {
        Err(ParseError::UnknownClass(data[0]))
    }
}

fn parse_subscriber(data: &[u8]) -> (r: Result<BrewMessage, ParseError>)
    requires
        data@.len() >= 2,
        data@[0] == CLASS_SUBSCRIBER,
    ensures
        reading(r) == parsed(data@),
{
    if data.len() < 18 {
        return Err(ParseError::TooShort(data.len()));
    }
    let mut groups: Vec<u32> = Vec::new();
    let mut o: usize = 18;
    while data.len() - o >= 4
        invariant
            18 <= o <= data.len(),
            o == 18 + 4 * groups@.len(),
            groups@ == subscriber_groups(data@).take(groups@.len() as int),
            groups@.len() <= (data.len() - 18) / 4,
        decreases data.len() - o,
    {
        groups.push(u32le(data, o));
        o += 4;
        assert(groups@ == subscriber_groups(data@).take(groups@.len() as int));
    }
    assert(groups@.len() == subscriber_groups(data@).len());
    assert(groups@ == subscriber_groups(data@));
    Ok(
        BrewMessage::Subscriber(
            SubscriberMessage {
                msg_type: data[1],
                issi: u32le(data, 2),
                timestamp: u64le(data, 6),
                fraction: u32le(data, 14),
                groups,
            },
        ),
    )
}

fn parse_call_control(data: &[u8]) -> (r: Result<BrewMessage, ParseError>)
    requires
        data@.len() >= 2,
        data@[0] == CLASS_CALL_CONTROL,
    ensures
        reading(r) == parsed(data@),
{
    if data.len() < 18 {
        return Err(ParseError::TooShort(data.len()));
    }
    let id = uuid_from_bytes(slice_subrange(data, 2, 18));
    let payload = slice_subrange(data, 18, data.len());
    assert(payload@ == data@.skip(18));
    let call_state = data[1];
    let parsed_payload = if call_state == CALL_GROUP_TX {
        if payload.len() < 12 {
            return Err(ParseError::TooShort(data.len()));
        }
        CallPayload::GroupTransmission(
            GroupTransmission {
                source: u32le(payload, 0),
                destination: u32le(payload, 4),
                priority: payload[8],
                access: payload[9],
                service: u16le(payload, 10),
            },
        )
    } else if call_state == CALL_GROUP_IDLE || call_state == CALL_SETUP_REJECT || call_state
        == CALL_RELEASE {
        if payload.len() == 0 {
            return Err(ParseError::TooShort(data.len()));
        }
        CallPayload::Cause(payload[0])
    } else if call_state == CALL_SETUP_ACCEPT || call_state == CALL_ALERT {
        CallPayload::Empty
    } else if call_state == CALL_SHORT_TRANSFER {
        if payload.len() < 8 {
            return Err(ParseError::TooShort(data.len()));
        }
        CallPayload::ShortTransfer { source: u32le(payload, 0), destination: u32le(payload, 4) }
    } else {
        CallPayload::Raw(slice_to_vec(payload))
    };
    Ok(
        BrewMessage::CallControl(
            CallControlMessage { call_state, identifier: id, payload: parsed_payload },
        ),
    )
}

fn parse_frame(data: &[u8]) -> (r: Result<BrewMessage, ParseError>)
    requires
        data@.len() >= 2,
        data@[0] == CLASS_FRAME,
    ensures
        reading(r) == parsed(data@),
{
    if data.len() < 20 {
        return Err(ParseError::TooShort(data.len()));
    }
    let rest = slice_to_vec(slice_subrange(data, 20, data.len()));
    assert(rest@ == data@.skip(20));
    Ok(
        BrewMessage::Frame(
            FrameMessage {
                frame_type: data[1],
                identifier: uuid_from_bytes(slice_subrange(data, 2, 18)),
                length_bits: u16le(data, 18),
                data: rest,
            },
        ),
    )
}

fn parse_service(data: &[u8]) -> (r: Result<BrewMessage, ParseError>)
    requires
        data@.len() >= 2,
        data@[0] == CLASS_SERVICE,
    ensures
        reading(r) == parsed(data@),
{
    let raw = slice_subrange(data, 2, data.len());
    assert(raw@ == data@.skip(2));
    let mut end: usize = 0;
    assert(raw@.skip(0) == raw@);
    while end < raw.len() && raw[end] != 0
        invariant
            end <= raw.len(),
            text_length(raw@) == end + text_length(raw@.skip(end as int)),
        decreases raw.len() - end,
    {
        assert(raw@.skip(end as int).drop_first() == raw@.skip(end + 1));
        end += 1;
    }
    let text = slice_subrange(raw, 0, end);
    assert(text@ == service_text(data@));
    match utf8_text(text) {
        Some(json_data) => Ok(
            BrewMessage::Service(ServiceMessage { service_type: data[1], json_data }),
        ),
        None => Err(ParseError::InvalidUtf8),
    }
}

/// The packet that is built for a call state and a cause.
pub open spec fn cause_packet(call_state: u8, id: CallId, cause: u8) -> Seq<u8> {
    seq![CLASS_CALL_CONTROL, call_state] + be_bytes(id as nat, 16) + seq![cause]
}

/// Builds a call control packet whose payload is one cause byte.
pub fn build_call_cause(call_state: u8, id: CallId, cause: u8) -> (r: Vec<u8>)
    ensures
        r@ == cause_packet(call_state, id, cause),
{
    let mut out: Vec<u8> = Vec::with_capacity(19);
    out.push(CLASS_CALL_CONTROL);
    out.push(call_state);
    let bytes = uuid_to_bytes(id);
    out.extend_from_slice(bytes.as_slice());
    out.push(cause);
    assert(out@ =~= cause_packet(call_state, id, cause));
    out
}

/// The source and destination numbers at the front of an uninterpreted
/// payload of at least eight bytes.
pub open spec fn peer_pair(payload: PayloadView) -> Option<(u32, u32)> {
    match payload {
        PayloadView::Raw(raw) if raw.len() >= 8 => Some(
            (field(raw, 0, 4) as u32, field(raw, 4, 4) as u32),
        ),
        _ => None,
    }
}

/// Takes the first two numbers of an uninterpreted payload as source and
/// destination.
pub fn raw_peer_pair(payload: &CallPayload) -> (r: Option<(u32, u32)>)
    ensures
        r == peer_pair(payload@),
{
    match payload {
        CallPayload::Raw(raw) => {
            if raw.len() < 8 {
                return None;
            }
            Some((u32le(raw.as_slice(), 0), u32le(raw.as_slice(), 4)))
        },
        _ => None,
    }
}

} // verus!
