//! The layout of Brew packets as bytes, and that reading a packet and laying
//! it out undo each other.
use crate::bytes::{
    be_bytes, be_value, byte_values, law_be_read_back, law_be_write_back, law_le_eight,
    law_le_four, law_le_read_back, law_le_two, law_le_write_back, le_bytes, lemma_be_bound,
    lemma_be_bytes_len, lemma_le_bound, lemma_le_bytes_len,
};
use crate::ids::CallId;
use crate::protocol::{
    call_payload, carries_cause, carries_nothing, cause_packet, field, known_class, least_length,
    message_of, parsed, peer_pair, reading, service_text, subscriber_groups, text_length,
    BrewMessage, CallPayload, MessageView, ParseError, PayloadView, CALL_ALERT,
    CALL_CONNECT_CONFIRM, CALL_CONNECT_REQUEST, CALL_GROUP_IDLE, CALL_GROUP_TX, CALL_RELEASE,
    CALL_SETUP_ACCEPT, CALL_SETUP_REJECT, CALL_SETUP_REQUEST, CALL_SHORT_TRANSFER,
    CALL_SIMPLEX_GRANTED, CALL_SIMPLEX_IDLE, CLASS_CALL_CONTROL, CLASS_ERROR, CLASS_FRAME,
    CLASS_SERVICE, CLASS_SUBSCRIBER, FRAME_SDS_REPORT, FRAME_SDS_TRANSFER, FRAME_TRAFFIC_CHANNEL,
    SUB_AFFILIATE, SUB_DEAFFILIATE, SUB_DEREGISTER, SUB_REGISTER, SUB_REREGISTER,
};
use crate::text::{
    all_digits, decimal, digits_value, hex_value, law_decimal_reads_back, law_hex_digits,
};
use vstd::prelude::*;
use vstd::utf8::{decode_utf8, encode_scalar, encode_utf8, valid_utf8};

verus! {

/// Group numbers as bytes, four each.
pub open spec fn group_bytes(groups: Seq<u32>) -> Seq<u8>
    decreases groups.len(),
{
    if groups.len() == 0 {
        Seq::empty()
    } else {
        group_bytes(groups.drop_last()) + le_bytes(groups.last() as nat, 4)
    }
}

/// What follows the identifier of a call control packet, as bytes.
pub open spec fn payload_bytes(payload: PayloadView) -> Seq<u8> {
    match payload {
        PayloadView::GroupTransmission(t) => le_bytes(t.source as nat, 4) + le_bytes(
            t.destination as nat,
            4,
        ) + seq![t.priority, t.access] + le_bytes(t.service as nat, 2),
        PayloadView::Cause(c) => seq![c],
        PayloadView::Empty => Seq::empty(),
        PayloadView::ShortTransfer { source, destination } => le_bytes(source as nat, 4) + le_bytes(
            destination as nat,
            4,
        ),
        PayloadView::Raw(raw) => raw,
    }
}

/// The packet that says a message, and nothing more.
pub open spec fn encoded(m: MessageView) -> Seq<u8> {
    match m {
        MessageView::Subscriber { msg_type, issi, timestamp, fraction, groups } => seq![
            CLASS_SUBSCRIBER,
            msg_type,
        ] + le_bytes(issi as nat, 4) + le_bytes(timestamp as nat, 8) + le_bytes(fraction as nat, 4)
            + group_bytes(groups),
        MessageView::CallControl { call_state, identifier, payload } => seq![
            CLASS_CALL_CONTROL,
            call_state,
        ] + be_bytes(identifier as nat, 16) + payload_bytes(payload),
        MessageView::Frame { frame_type, identifier, length_bits, data } => seq![
            CLASS_FRAME,
            frame_type,
        ] + be_bytes(identifier as nat, 16) + le_bytes(length_bits as nat, 2) + data,
        MessageView::Error { error_type, data } => seq![CLASS_ERROR, error_type] + data,
        MessageView::Service { service_type, json_data } => seq![CLASS_SERVICE, service_type]
            + encode_utf8(json_data),
    }
}

/// The payload is of the form that its call state calls for.
pub open spec fn payload_fits(call_state: u8, payload: PayloadView) -> bool {
    if call_state == CALL_GROUP_TX {
        payload is GroupTransmission
    } else if carries_cause(call_state) {
        payload is Cause
    } else if carries_nothing(call_state) {
        payload is Empty
    } else if call_state == CALL_SHORT_TRANSFER {
        payload is ShortTransfer
    } else {
        payload is Raw
    }
}

/// A packet can say the message: the payload of a call control message fits
/// its state, and the text of a service message has no zero character.
pub open spec fn sayable(m: MessageView) -> bool {
    match m {
        MessageView::CallControl { call_state, payload, .. } => payload_fits(call_state, payload),
        MessageView::Service { json_data, .. } => !json_data.contains('\0'),
        _ => true,
    }
}

/// A number written at `at` is read there.
proof fn lemma_field(data: Seq<u8>, at: int, n: nat, len: nat)
    requires
        0 <= at,
        at + len <= data.len(),
        n < byte_values(len),
        data.subrange(at, at + len) == le_bytes(n, len),
    ensures
        field(data, at, len as int) == n,
{
    law_le_read_back(n, len);
}

/// What was read at `at` stands there.
proof fn lemma_field_back(data: Seq<u8>, at: int, len: nat)
    requires
        0 <= at,
        at + len <= data.len(),
    ensures
        le_bytes(field(data, at, len as int), len) == data.subrange(at, at + len),
        field(data, at, len as int) < byte_values(len),
{
    law_le_write_back(data.subrange(at, at + len));
    lemma_le_bound(data.subrange(at, at + len));
}

/// How many values the fields of packets have.
proof fn lemma_field_sizes()
    ensures
        byte_values(2) == 0x1_0000,
        byte_values(4) == 0x1_0000_0000,
        byte_values(8) == 0x1_0000_0000_0000_0000,
        byte_values(16) == u128::MAX + 1,
{
    reveal_with_fuel(byte_values, 17);
}

/// Each group number stands in its four bytes.
proof fn lemma_group_bytes(groups: Seq<u32>)
    ensures
        group_bytes(groups).len() == 4 * groups.len(),
        forall|i: int|
            #![trigger groups[i]]
            0 <= i < groups.len() ==> group_bytes(groups).subrange(4 * i, 4 * i + 4) == le_bytes(
                groups[i] as nat,
                4,
            ),
    decreases groups.len(),
{
    if groups.len() > 0 {
        let front = groups.drop_last();
        let all = group_bytes(groups);
        let n = front.len() as int;
        lemma_group_bytes(front);
        lemma_le_bytes_len(groups.last() as nat, 4);
        assert forall|i: int| #![trigger groups[i]] 0 <= i < groups.len() implies all.subrange(
            4 * i,
            4 * i + 4,
        ) == le_bytes(groups[i] as nat, 4) by {
            if i < n {
                assert(front[i] == groups[i]);
                assert(all.subrange(4 * i, 4 * i + 4) =~= group_bytes(front).subrange(
                    4 * i,
                    4 * i + 4,
                ));
            } else {
                assert(all.subrange(4 * i, 4 * i + 4) =~= le_bytes(groups.last() as nat, 4));
            }
        }
    }
}

/// The encoding of a character has a zero byte only where the character is zero.
proof fn lemma_scalar_zero(scalar: u32)
    ensures
        encode_scalar(scalar).contains(0u8) <==> scalar == 0,
{
    let s = encode_scalar(scalar);
    assert(scalar <= 0x7F ==> (scalar & 0x7F) as u8 == scalar) by (bit_vector);
    assert(0xC0 | ((scalar >> 6) & 0x1F) as u8 != 0) by (bit_vector);
    assert(0xE0 | ((scalar >> 12) & 0x0F) as u8 != 0) by (bit_vector);
    assert(0xF0 | ((scalar >> 18) & 0x7) as u8 != 0) by (bit_vector);
    assert(0x80 | (scalar & 0x3F) as u8 != 0) by (bit_vector);
    assert(0x80 | ((scalar >> 6) & 0x3F) as u8 != 0) by (bit_vector);
    assert(0x80 | ((scalar >> 12) & 0x3F) as u8 != 0) by (bit_vector);
    if scalar == 0 {
        assert(s[0] == 0u8);
    }
}

/// The encoding of a text has a zero byte only where the text has a zero character.
proof fn lemma_text_zero(chars: Seq<char>)
    ensures
        encode_utf8(chars).contains(0u8) <==> chars.contains('\0'),
    decreases chars.len(),
{
    if chars.len() > 0 {
        let head = encode_scalar(chars[0] as u32);
        let rest = chars.drop_first();
        let tail = encode_utf8(rest);
        vstd::utf8::char_u32_cast(chars[0], chars[0] as u32);
        lemma_scalar_zero(chars[0] as u32);
        lemma_text_zero(rest);
        assert((head + tail).contains(0u8) == (head.contains(0u8) || tail.contains(0u8))) by {
            if head.contains(0u8) {
                let i = choose|i: int| 0 <= i < head.len() && head[i] == 0u8;
                assert((head + tail)[i] == 0u8);
            }
            if tail.contains(0u8) {
                let i = choose|i: int| 0 <= i < tail.len() && tail[i] == 0u8;
                assert((head + tail)[head.len() + i] == 0u8);
            }
        }
        assert(chars.contains('\0') == (chars[0] == '\0' || rest.contains('\0'))) by {
            if rest.contains('\0') {
                let i = choose|i: int| 0 <= i < rest.len() && rest[i] == '\0';
                assert(chars[i + 1] == '\0');
            }
            if chars.contains('\0') && chars[0] != '\0' {
                let i = choose|i: int| 0 <= i < chars.len() && chars[i] == '\0';
                assert(rest[i - 1] == '\0');
            }
        }
    }
}

/// Bytes without a zero are text to their end.
proof fn lemma_text_length_full(s: Seq<u8>)
    requires
        !s.contains(0u8),
    ensures
        text_length(s) == s.len(),
    decreases s.len(),
{
    if s.len() > 0 {
        assert(s[0] != 0u8);
        assert forall|i: int| 0 <= i < s.drop_first().len() implies s.drop_first()[i] != 0u8 by {
            assert(s[i + 1] != 0u8);
        }
        lemma_text_length_full(s.drop_first());
    }
}

/// The text before the first zero byte has no zero byte.
proof fn lemma_text_length_bound(s: Seq<u8>)
    ensures
        text_length(s) <= s.len(),
        !s.take(text_length(s) as int).contains(0u8),
    decreases s.len(),
{
    if s.len() > 0 && s.first() != 0 {
        lemma_text_length_bound(s.drop_first());
        let text = s.take(text_length(s) as int);
        let rest = s.drop_first().take(text_length(s.drop_first()) as int);
        assert forall|i: int| 0 <= i < text.len() implies text[i] != 0u8 by {
            if i > 0 {
                assert(rest[i - 1] == text[i]);
            }
        }
    }
}

/// Reading the packet of a message gives back the message.
pub proof fn law_read_back(m: MessageView)
    requires
        sayable(m),
    ensures
        parsed(encoded(m)) == Ok::<MessageView, ParseError>(m),
{
    let data = encoded(m);
    lemma_field_sizes();
    match m {
        MessageView::Subscriber { msg_type, issi, timestamp, fraction, groups } => {
            lemma_le_bytes_len(issi as nat, 4);
            lemma_le_bytes_len(timestamp as nat, 8);
            lemma_le_bytes_len(fraction as nat, 4);
            lemma_group_bytes(groups);
            assert(data.subrange(2, 6) =~= le_bytes(issi as nat, 4));
            assert(data.subrange(6, 14) =~= le_bytes(timestamp as nat, 8));
            assert(data.subrange(14, 18) =~= le_bytes(fraction as nat, 4));
            lemma_field(data, 2, issi as nat, 4);
            lemma_field(data, 6, timestamp as nat, 8);
            lemma_field(data, 14, fraction as nat, 4);
            assert forall|i: int| 0 <= i < groups.len() implies subscriber_groups(data)[i]
                == groups[i] by {
                assert(data.subrange(18 + 4 * i, 18 + 4 * i + 4) =~= group_bytes(groups).subrange(
                    4 * i,
                    4 * i + 4,
                ));
                lemma_field(data, 18 + 4 * i, groups[i] as nat, 4);
            }
            assert(subscriber_groups(data) =~= groups);
        },
        MessageView::CallControl { call_state, identifier, payload } => {
            lemma_call_read_back(call_state, identifier, payload);
        },
        MessageView::Frame { frame_type, identifier, length_bits, data: body } => {
            lemma_be_bytes_len(identifier as nat, 16);
            lemma_le_bytes_len(length_bits as nat, 2);
            law_be_read_back(identifier as nat, 16);
            assert(data.subrange(2, 18) =~= be_bytes(identifier as nat, 16));
            assert(data.subrange(18, 20) =~= le_bytes(length_bits as nat, 2));
            lemma_field(data, 18, length_bits as nat, 2);
            assert(data.skip(20) =~= body);
        },
        MessageView::Error { error_type, data: body } => {
            assert(data.skip(2) =~= body);
        },
        MessageView::Service { service_type, json_data } => {
            let text = encode_utf8(json_data);
            assert(data.skip(2) =~= text);
            lemma_text_zero(json_data);
            lemma_text_length_full(text);
            assert(service_text(data) =~= text);
            vstd::utf8::encode_utf8_valid_utf8(json_data);
            vstd::utf8::encode_utf8_decode_utf8(json_data);
        },
    }
}

/// Reading a call control packet gives back its message.
proof fn lemma_call_read_back(call_state: u8, identifier: CallId, payload: PayloadView)
    requires
        payload_fits(call_state, payload),
    ensures
        ({
            let m = MessageView::CallControl { call_state, identifier, payload };
            parsed(encoded(m)) == Ok::<MessageView, ParseError>(m)
        }),
{
    let data = encoded(MessageView::CallControl { call_state, identifier, payload });
    lemma_field_sizes();
    lemma_be_bytes_len(identifier as nat, 16);
    law_be_read_back(identifier as nat, 16);
    assert(data.subrange(2, 18) =~= be_bytes(identifier as nat, 16));
    let rest = payload_bytes(payload);
    assert(data.skip(18) =~= rest);
    match payload {
        PayloadView::GroupTransmission(t) => {
            lemma_le_bytes_len(t.source as nat, 4);
            lemma_le_bytes_len(t.destination as nat, 4);
            lemma_le_bytes_len(t.service as nat, 2);
            assert(rest.subrange(0, 4) =~= le_bytes(t.source as nat, 4));
            assert(rest.subrange(4, 8) =~= le_bytes(t.destination as nat, 4));
            assert(rest.subrange(10, 12) =~= le_bytes(t.service as nat, 2));
            lemma_field(rest, 0, t.source as nat, 4);
            lemma_field(rest, 4, t.destination as nat, 4);
            lemma_field(rest, 10, t.service as nat, 2);
        },
        PayloadView::ShortTransfer { source, destination } => {
            lemma_le_bytes_len(source as nat, 4);
            lemma_le_bytes_len(destination as nat, 4);
            assert(rest.subrange(0, 4) =~= le_bytes(source as nat, 4));
            assert(rest.subrange(4, 8) =~= le_bytes(destination as nat, 4));
            lemma_field(rest, 0, source as nat, 4);
            lemma_field(rest, 4, destination as nat, 4);
        },
        _ => {},
    }
}

/// A packet that can be read begins with the packet of what was read, and
/// what was read can be said by a packet.
pub proof fn law_begins_with_message(data: Seq<u8>)
    requires
        parsed(data) is Ok,
    ensures
        encoded(parsed(data)->Ok_0).is_prefix_of(data),
        sayable(parsed(data)->Ok_0),
{
    let m = message_of(data);
    lemma_field_sizes();
    if data[0] == CLASS_SUBSCRIBER {
        lemma_field_back(data, 2, 4);
        lemma_field_back(data, 6, 8);
        lemma_field_back(data, 14, 4);
        let groups = subscriber_groups(data);
        lemma_groups_back(data, groups);
        assert(encoded(m) =~= data.take(18 + 4 * groups.len() as int));
    } else if data[0] == CLASS_CALL_CONTROL {
        lemma_call_begins(data);
    } else if data[0] == CLASS_FRAME {
        lemma_be_bound(data.subrange(2, 18));
        law_be_write_back(data.subrange(2, 18));
        lemma_field_back(data, 18, 2);
        assert(encoded(m) =~= data);
    } else if data[0] == CLASS_ERROR {
        assert(encoded(m) =~= data);
    } else {
        let text = service_text(data);
        vstd::utf8::decode_utf8_encode_utf8(text);
        lemma_text_length_bound(data.skip(2));
        lemma_text_zero(decode_utf8(text));
        assert(encoded(m) =~= data.take(2 + text.len() as int));
    }
}

/// The groups of a subscriber packet are laid out as they stand in it.
proof fn lemma_groups_back(data: Seq<u8>, groups: Seq<u32>)
    requires
        18 + 4 * groups.len() <= data.len(),
        forall|i: int| 0 <= i < groups.len() ==> groups[i] == field(data, 18 + 4 * i, 4) as u32,
    ensures
        group_bytes(groups) == data.subrange(18, 18 + 4 * groups.len() as int),
    decreases groups.len(),
{
    if groups.len() > 0 {
        let front = groups.drop_last();
        let n = front.len() as int;
        lemma_field_sizes();
        lemma_groups_back(data, front);
        assert(groups.last() == groups[n]);
        lemma_field_back(data, 18 + 4 * n, 4);
    }
    assert(group_bytes(groups) =~= data.subrange(18, 18 + 4 * groups.len() as int));
}

/// A call control packet begins with the packet of what was read of it.
proof fn lemma_call_begins(data: Seq<u8>)
    requires
        parsed(data) is Ok,
        data[0] == CLASS_CALL_CONTROL,
    ensures
        encoded(message_of(data)).is_prefix_of(data),
        sayable(message_of(data)),
{
    let m = message_of(data);
    let rest = data.skip(18);
    let payload = call_payload(data[1], rest);
    lemma_field_sizes();
    lemma_be_bound(data.subrange(2, 18));
    law_be_write_back(data.subrange(2, 18));
    if data[1] == CALL_GROUP_TX {
        lemma_field_back(rest, 0, 4);
        lemma_field_back(rest, 4, 4);
        lemma_field_back(rest, 10, 2);
        assert(payload_bytes(payload) =~= rest.take(12));
    } else if carries_cause(data[1]) {
        assert(payload_bytes(payload) =~= rest.take(1));
    } else if carries_nothing(data[1]) {
        assert(payload_bytes(payload) =~= rest.take(0));
    } else if data[1] == CALL_SHORT_TRANSFER {
        lemma_field_back(rest, 0, 4);
        lemma_field_back(rest, 4, 4);
        assert(payload_bytes(payload) =~= rest.take(8));
    } else {
        assert(payload_bytes(payload) =~= rest);
    }
    assert(encoded(m) =~= data.take(18 + payload_bytes(payload).len() as int));
}

/// Different messages have different packets.
pub proof fn law_packets_tell_messages_apart(a: MessageView, b: MessageView)
    requires
        sayable(a),
        sayable(b),
        encoded(a) == encoded(b),
    ensures
        a == b,
{
    law_read_back(a);
    law_read_back(b);
}

/// A packet that was built for a call state and a cause is read as such where
/// the state carries a cause. States that carry nothing lose the cause, those
/// with a longer payload make the packet too short, and all others keep the
/// cause as it stands.
pub proof fn law_cause_packet(call_state: u8, id: CallId, cause: u8)
    ensures
        parsed(cause_packet(call_state, id, cause)) == if call_state == CALL_GROUP_TX || call_state
            == CALL_SHORT_TRANSFER {
            Err::<MessageView, ParseError>(ParseError::TooShort(19))
        } else {
            Ok::<MessageView, ParseError>(
                MessageView::CallControl {
                    call_state,
                    identifier: id,
                    payload: if carries_cause(call_state) {
                        PayloadView::Cause(cause)
                    } else if carries_nothing(call_state) {
                        PayloadView::Empty
                    } else {
                        PayloadView::Raw(seq![cause])
                    },
                },
            )
        },
{
    let data = cause_packet(call_state, id, cause);
    lemma_field_sizes();
    lemma_be_bytes_len(id as nat, 16);
    law_be_read_back(id as nat, 16);
    assert(data.subrange(2, 18) =~= be_bytes(id as nat, 16));
    assert(data.skip(18) =~= seq![cause]);
}

/// What a message says when `extra` follows its packet: a raw payload and the
/// bytes of a frame or an error grow by it, and all other messages of these
/// classes stay the same.
pub open spec fn with_trailing(m: MessageView, extra: Seq<u8>) -> MessageView {
    match m {
        MessageView::CallControl { call_state, identifier, payload: PayloadView::Raw(raw) } => {
            MessageView::CallControl {
                call_state,
                identifier,
                payload: PayloadView::Raw(raw + extra),
            }
        },
        MessageView::Frame { frame_type, identifier, length_bits, data } => MessageView::Frame {
            frame_type,
            identifier,
            length_bits,
            data: data + extra,
        },
        MessageView::Error { error_type, data } => MessageView::Error {
            error_type,
            data: data + extra,
        },
        _ => m,
    }
}

/// Bytes that follow a call control packet are ignored, or belong to its raw
/// payload; those that follow a frame or an error packet belong to its data.
pub proof fn law_trailing_bytes(data: Seq<u8>, extra: Seq<u8>)
    requires
        parsed(data) is Ok,
        data[0] == CLASS_CALL_CONTROL || data[0] == CLASS_FRAME || data[0] == CLASS_ERROR,
    ensures
        parsed(data + extra) == Ok::<MessageView, ParseError>(
            with_trailing(parsed(data)->Ok_0, extra),
        ),
        data[0] == CLASS_CALL_CONTROL && (data[1] == CALL_GROUP_TX || carries_cause(data[1])
            || carries_nothing(data[1]) || data[1] == CALL_SHORT_TRANSFER) ==> parsed(data + extra)
            == parsed(data),
{
    let longer = data + extra;
    if data[0] == CLASS_CALL_CONTROL {
        let rest = data.skip(18);
        let more = longer.skip(18);
        assert(longer.subrange(2, 18) =~= data.subrange(2, 18));
        assert(more =~= rest + extra);
        if data[1] == CALL_GROUP_TX {
            assert(more.subrange(0, 4) =~= rest.subrange(0, 4));
            assert(more.subrange(4, 8) =~= rest.subrange(4, 8));
            assert(more.subrange(10, 12) =~= rest.subrange(10, 12));
        } else if data[1] == CALL_SHORT_TRANSFER {
            assert(more.subrange(0, 4) =~= rest.subrange(0, 4));
            assert(more.subrange(4, 8) =~= rest.subrange(4, 8));
        }
    } else if data[0] == CLASS_FRAME {
        assert(longer.subrange(2, 18) =~= data.subrange(2, 18));
        assert(longer.subrange(18, 20) =~= data.subrange(18, 20));
        assert(longer.skip(20) =~= data.skip(20) + extra);
    } else {
        assert(longer.skip(2) =~= data.skip(2) + extra);
    }
}

/// The request to set up a private call names its source and destination in
/// the first eight bytes after the identifier, where it has so many.
pub proof fn law_setup_request_peers(data: Seq<u8>)
    requires
        data.len() >= 18,
        data[0] == CLASS_CALL_CONTROL,
        data[1] == CALL_SETUP_REQUEST,
    ensures
        parsed(data) matches Ok(MessageView::CallControl { payload, .. }) && peer_pair(payload)
            == if data.len() >= 26 {
            Some((field(data, 18, 4) as u32, field(data, 22, 4) as u32))
        } else {
            None::<(u32, u32)>
        },
{
    let rest = data.skip(18);
    if data.len() >= 26 {
        assert(rest.subrange(0, 4) =~= data.subrange(18, 22));
        assert(rest.subrange(4, 8) =~= data.subrange(22, 26));
    }
}

/// Every packet is read, or refused for one of three reasons: it is shorter
/// than its first two bytes call for, its class is not known, or its text is
/// no UTF-8.
pub proof fn law_parse_complete(data: Seq<u8>)
    ensures
        parsed(data) is Ok <==> {
            &&& data.len() >= 2
            &&& known_class(data[0])
            &&& data.len() >= least_length(data[0], data[1])
            &&& data[0] == CLASS_SERVICE ==> valid_utf8(service_text(data))
        },
{
}

/// The number in four bytes from `at` on, the first counting least.
pub open spec fn four_bytes(data: Seq<u8>, at: int) -> int {
    data[at] + 0x100 * data[at + 1] + 0x1_0000 * data[at + 2] + 0x100_0000 * data[at + 3]
}

/// The number in two bytes from `at` on, the first counting least.
pub open spec fn two_bytes(data: Seq<u8>, at: int) -> int {
    data[at] + 0x100 * data[at + 1]
}

proof fn lemma_four_bytes(data: Seq<u8>, at: int)
    requires
        0 <= at,
        at + 4 <= data.len(),
    ensures
        field(data, at, 4) == four_bytes(data, at),
        four_bytes(data, at) <= u32::MAX,
{
    law_le_four(data.subrange(at, at + 4));
}

proof fn lemma_two_bytes(data: Seq<u8>, at: int)
    requires
        0 <= at,
        at + 2 <= data.len(),
    ensures
        field(data, at, 2) == two_bytes(data, at),
        two_bytes(data, at) <= u16::MAX,
{
    law_le_two(data.subrange(at, at + 2));
}

/// Where the numbers of a subscriber packet stand: its kind in the second
/// byte, the radio in the next four, the time in the next eight, its fraction
/// in the next four, and then the groups in four bytes each.
pub proof fn law_subscriber_bytes(data: Seq<u8>, i: int)
    requires
        data.len() >= 18,
        data[0] == 0xf0,
    ensures
        parsed(data) matches Ok(MessageView::Subscriber {
            msg_type,
            issi,
            timestamp,
            fraction,
            groups,
        }) && {
            &&& msg_type == data[1]
            &&& issi == four_bytes(data, 2)
            &&& timestamp == four_bytes(data, 6) + 0x1_0000_0000 * four_bytes(data, 10)
            &&& fraction == four_bytes(data, 14)
            &&& groups.len() == (data.len() - 18) / 4
            &&& 0 <= i < groups.len() ==> groups[i] == four_bytes(data, 18 + 4 * i)
        },
{
    lemma_four_bytes(data, 2);
    lemma_four_bytes(data, 14);
    lemma_four_bytes(data, 6);
    lemma_four_bytes(data, 10);
    law_le_eight(data.subrange(6, 14));
    if 0 <= i < (data.len() - 18) / 4 {
        lemma_four_bytes(data, 18 + 4 * i);
    }
}

/// Where the parts of a call control packet stand: its state in the second
/// byte, the identifier in the next sixteen, most significant byte first, and
/// then what the state calls for.
pub proof fn law_call_bytes(data: Seq<u8>)
    requires
        data[0] == 0xf1,
        parsed(data) is Ok,
    ensures
        parsed(data) matches Ok(MessageView::CallControl { call_state, identifier, payload }) && {
            &&& call_state == data[1]
            &&& identifier == be_value(data.subrange(2, 18))
            &&& data[1] == 2 ==> (payload matches PayloadView::GroupTransmission(t) && {
                &&& t.source == four_bytes(data, 18)
                &&& t.destination == four_bytes(data, 22)
                &&& t.priority == data[26]
                &&& t.access == data[27]
                &&& t.service == two_bytes(data, 28)
            })
            &&& data[1] == 3 || data[1] == 6 || data[1] == 10 ==> payload == PayloadView::Cause(
                data[18],
            )
            &&& data[1] == 5 || data[1] == 7 ==> payload == PayloadView::Empty
            &&& data[1] == 11 ==> (payload matches PayloadView::ShortTransfer {
                source,
                destination,
            } && source == four_bytes(data, 18) && destination == four_bytes(data, 22))
            &&& data[1] != 2 && data[1] != 3 && data[1] != 5 && data[1] != 6 && data[1] != 7
                && data[1] != 10 && data[1] != 11 ==> payload == PayloadView::Raw(data.skip(18))
        },
{
    let rest = data.skip(18);
    lemma_field_sizes();
    lemma_be_bound(data.subrange(2, 18));
    if data[1] == 2 || data[1] == 11 {
        assert(rest.subrange(0, 4) =~= data.subrange(18, 22));
        assert(rest.subrange(4, 8) =~= data.subrange(22, 26));
        lemma_four_bytes(data, 18);
        lemma_four_bytes(data, 22);
    }
    if data[1] == 2 {
        assert(rest.subrange(10, 12) =~= data.subrange(28, 30));
        lemma_two_bytes(data, 28);
    }
}

/// Where the parts of a frame stand: its kind in the second byte, the
/// identifier in the next sixteen, the length in bits in the next two, and
/// then the data.
pub proof fn law_frame_bytes(data: Seq<u8>)
    requires
        data.len() >= 20,
        data[0] == 0xf2,
    ensures
        parsed(data) matches Ok(MessageView::Frame {
            frame_type,
            identifier,
            length_bits,
            data: body,
        }) && {
            &&& frame_type == data[1]
            &&& identifier == be_value(data.subrange(2, 18))
            &&& length_bits == two_bytes(data, 18)
            &&& body == data.skip(20)
        },
{
    lemma_field_sizes();
    lemma_be_bound(data.subrange(2, 18));
    lemma_two_bytes(data, 18);
}

/// An error packet is its kind and the bytes behind it.
pub proof fn law_error_bytes(data: Seq<u8>)
    requires
        data.len() >= 2,
        data[0] == 0xf3,
    ensures
        parsed(data) == Ok::<MessageView, ParseError>(
            MessageView::Error { error_type: data[1], data: data.skip(2) },
        ),
{
}

/// A service packet is its kind and the text behind it, which ends at the
/// first zero byte or with the packet.
pub proof fn law_service_bytes(data: Seq<u8>, end: int)
    requires
        data.len() >= 2,
        data[0] == 0xf4,
        2 <= end <= data.len(),
        forall|i: int| 2 <= i < end ==> #[trigger] data[i] != 0,
        end == data.len() || data[end] == 0,
    ensures
        valid_utf8(data.subrange(2, end)) ==> parsed(data) == Ok::<MessageView, ParseError>(
            MessageView::Service {
                service_type: data[1],
                json_data: decode_utf8(data.subrange(2, end)),
            },
        ),
        !valid_utf8(data.subrange(2, end)) ==> parsed(data) == Err::<MessageView, ParseError>(
            ParseError::InvalidUtf8,
        ),
{
    let raw = data.skip(2);
    assert forall|i: int| 0 <= i < end - 2 implies #[trigger] raw[i] != 0 by {
        assert(data[i + 2] != 0);
    }
    lemma_text_length_at(raw, end - 2);
    assert(service_text(data) =~= data.subrange(2, end));
}

/// The text ends where the first zero stands.
proof fn lemma_text_length_at(s: Seq<u8>, end: int)
    requires
        0 <= end <= s.len(),
        forall|i: int| 0 <= i < end ==> #[trigger] s[i] != 0,
        end == s.len() || s[end] == 0,
    ensures
        text_length(s) == end,
    decreases s.len(),
{
    if end > 0 {
        assert(s[0] != 0);
        let rest = s.drop_first();
        assert forall|i: int| 0 <= i < end - 1 implies #[trigger] rest[i] != 0 by {
            assert(s[i + 1] != 0);
        }
        lemma_text_length_at(rest, end - 1);
    }
}

/// Which packets are refused as too short or of no known class: each class has
/// its least length, and a call control packet one by its state.
pub proof fn law_parse_refusals(data: Seq<u8>)
    requires
        data.len() <= usize::MAX,
    ensures
        ({
            let n = data.len();
            let short = n < 2 || (data[0] == 0xf0 && n < 18) || (data[0] == 0xf1 && (n < 18 || (
            data[1] == 2 && n < 30) || (data[1] == 11 && n < 26) || ((data[1] == 3 || data[1] == 6
                || data[1] == 10) && n < 19))) || (data[0] == 0xf2 && n < 20);
            &&& parsed(data) matches Err(ParseError::TooShort(k)) ==> k == n
            &&& parsed(data) is Err && parsed(data)->Err_0 is TooShort <==> short
            &&& parsed(data) matches Err(ParseError::UnknownClass(c)) ==> c == data[0]
            &&& parsed(data) is Err && parsed(data)->Err_0 is UnknownClass <==> n >= 2 && (data[0]
                < 0xf0 || data[0] > 0xf4)
            &&& parsed(data) is Err && parsed(data)->Err_0 is InvalidUtf8 ==> data[0] == 0xf4
        }),
{
}

/// A payload names two radios exactly where it is raw and has eight bytes: the
/// first four and the next four.
pub proof fn law_peer_pair(payload: PayloadView)
    ensures
        peer_pair(payload) is Some <==> payload is Raw && payload->Raw_0.len() >= 8,
        peer_pair(payload) matches Some(pair) ==> pair.0 == four_bytes(payload->Raw_0, 0) && pair.1
            == four_bytes(payload->Raw_0, 4),
{
    if payload is Raw && payload->Raw_0.len() >= 8 {
        lemma_four_bytes(payload->Raw_0, 0);
        lemma_four_bytes(payload->Raw_0, 4);
    }
}

/// A packet for a call state and a cause has nineteen bytes: the class, the
/// state, the identifier and the cause.
pub proof fn law_cause_packet_bytes(call_state: u8, id: CallId, cause: u8)
    ensures
        ({
            let p = cause_packet(call_state, id, cause);
            &&& p.len() == 19
            &&& p[0] == 0xf1
            &&& p[1] == call_state
            &&& be_value(p.subrange(2, 18)) == id
            &&& p[18] == cause
        }),
{
    lemma_field_sizes();
    lemma_be_bytes_len(id as nat, 16);
    law_be_read_back(id as nat, 16);
    assert(cause_packet(call_state, id, cause).subrange(2, 18) =~= be_bytes(id as nat, 16));
}

/// The words for an error give its number, so that it reads back.
pub proof fn law_parse_words(n: usize, class: u8)
    ensures
        exists|word: Seq<char>|
            all_digits(word) && #[trigger] digits_value(word) == n && ParseError::TooShort(
                n,
            ).words() == "Brew packet too short: "@ + word + " bytes"@,
        ({
            let words = ParseError::UnknownClass(class).words();
            let k = words.len() as int;
            &&& words.take(k - 2) == "unknown Brew class 0x"@
            &&& hex_value(words[k - 2]) == class / 16 && !('A' <= words[k - 2] <= 'F')
            &&& hex_value(words[k - 1]) == class % 16 && !('A' <= words[k - 1] <= 'F')
        }),
        ParseError::InvalidUtf8.words() == "invalid UTF-8 service payload"@,
{
    law_decimal_reads_back(n as nat);
    law_hex_digits((class / 16) as nat);
    law_hex_digits((class % 16) as nat);
    let words = ParseError::UnknownClass(class).words();
    assert(words.take(words.len() - 2) =~= "unknown Brew class 0x"@);
    assert(digits_value(decimal(n as nat)) == n);
}

/// Messages are shown with all that they hold.
pub proof fn law_message_views(m: BrewMessage)
    ensures
        m matches BrewMessage::Subscriber(s) ==> m@ == (MessageView::Subscriber {
            msg_type: s.msg_type,
            issi: s.issi,
            timestamp: s.timestamp,
            fraction: s.fraction,
            groups: s.groups@,
        }),
        m matches BrewMessage::CallControl(c) ==> {
            &&& m@ matches MessageView::CallControl { call_state, identifier, payload }
            &&& call_state == c.call_state
            &&& identifier == c.identifier
            &&& c.payload matches CallPayload::GroupTransmission(t) ==> payload
                == PayloadView::GroupTransmission(t)
            &&& c.payload matches CallPayload::Cause(x) ==> payload == PayloadView::Cause(x)
            &&& c.payload is Empty <==> payload is Empty
            &&& c.payload matches CallPayload::ShortTransfer { source, destination } ==> payload
                == (PayloadView::ShortTransfer { source, destination })
            &&& c.payload matches CallPayload::Raw(raw) ==> payload == PayloadView::Raw(raw@)
        },
        m matches BrewMessage::Frame(f) ==> m@ == (MessageView::Frame {
            frame_type: f.frame_type,
            identifier: f.identifier,
            length_bits: f.length_bits,
            data: f.data@,
        }),
        m matches BrewMessage::Error(e) ==> m@ == (MessageView::Error {
            error_type: e.error_type,
            data: e.data@,
        }),
        m matches BrewMessage::Service(s) ==> m@ == (MessageView::Service {
            service_type: s.service_type,
            json_data: s.json_data@,
        }),
{
}

/// A result of reading is shown as what it is.
pub proof fn law_reading(r: Result<BrewMessage, ParseError>)
    ensures
        r matches Ok(m) ==> reading(r) == Ok::<MessageView, ParseError>(m@),
        r matches Err(e) ==> reading(r) == Err::<MessageView, ParseError>(e),
{
}

/// The numbers of classes, subscriber messages, call states and frames on the
/// wire.
pub proof fn law_codes()
    ensures
        CLASS_SUBSCRIBER == 0xf0,
        CLASS_CALL_CONTROL == 0xf1,
        CLASS_FRAME == 0xf2,
        CLASS_ERROR == 0xf3,
        CLASS_SERVICE == 0xf4,
        SUB_DEREGISTER == 0,
        SUB_REGISTER == 1,
        SUB_REREGISTER == 2,
        SUB_AFFILIATE == 8,
        SUB_DEAFFILIATE == 9,
        CALL_GROUP_TX == 2,
        CALL_GROUP_IDLE == 3,
        CALL_SETUP_REQUEST == 4,
        CALL_SETUP_ACCEPT == 5,
        CALL_SETUP_REJECT == 6,
        CALL_ALERT == 7,
        CALL_CONNECT_REQUEST == 8,
        CALL_CONNECT_CONFIRM == 9,
        CALL_RELEASE == 10,
        CALL_SHORT_TRANSFER == 11,
        CALL_SIMPLEX_GRANTED == 12,
        CALL_SIMPLEX_IDLE == 13,
        FRAME_TRAFFIC_CHANNEL == 0,
        FRAME_SDS_TRANSFER == 1,
        FRAME_SDS_REPORT == 2,
{
}

} // verus!
