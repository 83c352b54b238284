use crate::errors::errors::{is_buffer_full, ParseError, Result};
use crate::packets::builder::packet_assembler::{assembled, can_assemble, spec_packet_size};
use crate::structs::json::{
    field_view,
    packets_view,
    JsonDeserializer,
    JsonEthernet,
    JsonEthernetView,
    JsonIpv4,
    JsonIpv4View,
    JsonL4,
    JsonL4View,
    JsonMetadata,
    JsonMetadataView,
    JsonPacket,
    JsonPacketView,
    JsonSerializer,
    JsonValue,
    JsonValueView,
};
use crate::structs::l4_protocol::L4Data;
use crate::structs::network_packet::NetworkPacket;
use crate::utils::formating_types::{
    decimal_digit,
    decimal_text,
    format_bytes,
    format_ip,
    format_mac,
    get_timestamp_ms,
    hex_pair,
    hex_upper,
    ip_text,
    joined_hex,
    push_decimal,
};
use crate::utils::payload_size::{payload_len, spec_payload_len};
use vstd::prelude::*;
use vstd::string::{StringExecFns, StringSliceAdditionalSpecFns};
use vstd::utf8::encode_utf8;

verus! {

/// Room, in bytes, for the text of one packet.
pub const JSON_PACKET_CAPACITY: usize = 4096;

/// Room, in bytes, for the text of a list of packets.
pub const JSON_LIST_CAPACITY: usize = 8192;

/// The fields that only one of the protocols has, each under its name, in
/// the order of the names. A TCP header adds its acknowledgment number,
/// flags, sequence number and window; a UDP header adds its length.
pub open spec fn spec_additional_fields(l4_data: L4Data) -> Seq<(Seq<char>, JsonValueView)> {
    match l4_data {
        L4Data::Tcp(tcp) => seq![
            ("ack_number"@, JsonValueView::U64(tcp.ack_nowledgment_number as u64)),
            ("flags"@, JsonValueView::U64(tcp.flags as u64)),
            ("sequence_number"@, JsonValueView::U64(tcp.sequence_number as u64)),
            ("window"@, JsonValueView::U64(tcp.window as u64)),
        ],
        L4Data::Udp(udp) => seq![("length"@, JsonValueView::U64(udp.length as u64))],
    }
}

/// The structured form of the transport layer.
pub open spec fn spec_json_l4(l4_data: L4Data) -> JsonL4View {
    match l4_data {
        L4Data::Tcp(tcp) => JsonL4View {
            protocol_type: "TCP"@,
            src_port: tcp.src_port,
            dst_port: tcp.dst_port,
            payload_size: spec_payload_len(tcp.payload) as usize,
            checksum: tcp.checksum,
            additional_fields: spec_additional_fields(l4_data),
        },
        L4Data::Udp(udp) => JsonL4View {
            protocol_type: "UDP"@,
            src_port: udp.src_port,
            dst_port: udp.dst_port,
            payload_size: spec_payload_len(udp.payload) as usize,
            checksum: udp.checksum,
            additional_fields: spec_additional_fields(l4_data),
        },
    }
}

/// The structured form of a packet: its layers field by field, with the
/// addresses as text, and as metadata its size, a time of zero and the dump
/// of its wire bytes, which is empty where no dump is asked for.
pub open spec fn spec_json_packet(packet: NetworkPacket, include_raw_data: bool) -> JsonPacketView {
    JsonPacketView {
        ethernet: JsonEthernetView {
            src_mac: joined_hex(packet.ethernet.src_mac@, ':'),
            dst_mac: joined_hex(packet.ethernet.dst_mac@, ':'),
            ethertype: packet.ethernet.ethertype,
        },
        ipv4: JsonIpv4View {
            src_addr: ip_text(packet.ipv4.src_addr@),
            dst_addr: ip_text(packet.ipv4.dst_addr@),
            protocol: packet.ipv4.protocol,
            total_length: packet.ipv4.total_length,
            header_checksum: packet.ipv4.header_checksum,
            ttl: packet.ipv4.ttl,
            flags: packet.ipv4.flags,
            fragment_offset: packet.ipv4.fragment_offset,
        },
        l4: spec_json_l4(packet.l4_data),
        metadata: JsonMetadataView {
            packet_size: spec_packet_size(packet) as usize,
            timestamp: 0,
            raw_data: if include_raw_data {
                joined_hex(assembled(packet), ' ')
            } else {
                Seq::<char>::empty()
            },
        },
    }
}

/// The structured forms of a list of packets.
pub open spec fn spec_json_packets(packets: Seq<NetworkPacket>, include_raw_data: bool) -> Seq<
    JsonPacketView,
> {
    packets.map_values(|packet: NetworkPacket| spec_json_packet(packet, include_raw_data))
}

/// A character that JSON takes as it is inside a string: not a double quote,
/// not a backslash, and not a control character below U+0020.
pub open spec fn is_plain_char(c: char) -> bool {
    c as u32 != 0x22 && c as u32 != 0x5C && c as u32 >= 0x20
}

/// A text in which no character needs an escape.
pub open spec fn is_plain_text(value: Seq<char>) -> bool {
    forall|i: int| 0 <= i < value.len() ==> is_plain_char(#[trigger] value[i])
}

/// A text between two double quotes.
pub open spec fn quoted(value: Seq<char>) -> Seq<char> {
    seq!['"'] + value + seq!['"']
}

/// The JSON text of a string in which some character needs an escape, as
/// `serde_json_core` writes it: the string between double quotes, with the
/// characters that JSON does not take as they are replaced by their escapes.
pub uninterp spec fn json_escaped_text(value: Seq<char>) -> Seq<char>;

/// The JSON text of a string: a plain text between double quotes as it is,
/// and any other text with its escapes.
pub open spec fn json_str_text(value: Seq<char>) -> Seq<char> {
    if is_plain_text(value) {
        quoted(value)
    } else {
        json_escaped_text(value)
    }
}

/// Number of bytes that a text takes in UTF-8.
pub open spec fn utf8_len(text: Seq<char>) -> nat {
    encode_utf8(text).len()
}

/// `serde_json_core::ser::to_slice` on a string, with `room` bytes to write
/// to. It either writes the JSON text of the string, which then takes no
/// more than `room` bytes, or fails because that text takes more. The text
/// starts and ends with a double quote; between them every character other
/// than a double quote, a backslash and the characters below U+0020 stands
/// as it is, so a string with none of those is written unchanged.
#[verifier::external_body]
fn json_encode_str(value: &str, room: usize) -> (res: core::result::Result<
    String,
    serde_json_core::ser::Error,
>)
    ensures
        match res {
            Ok(text) => utf8_len(text@) <= room && text@ == if is_plain_text(value@) {
                quoted(value@)
            } else {
                json_escaped_text(value@)
            },
            Err(_) => utf8_len(
                if is_plain_text(value@) {
                    quoted(value@)
                } else {
                    json_escaped_text(value@)
                },
            ) > room,
        },
{
    let mut buf = vec![0u8; room];
    let len = serde_json_core::ser::to_slice(value, &mut buf)?;
    Ok(std::string::String::from_utf8_lossy(&buf[..len]).into_owned())
}

/// Bytes in hexadecimal, with a plain separator between them, are plain.
proof fn lemma_joined_hex_is_plain(bytes: Seq<u8>, sep: char)
    requires
        is_plain_char(sep),
    ensures
        is_plain_text(joined_hex(bytes, sep)),
    decreases bytes.len(),
{
    if bytes.len() > 0 {
        let pair = hex_pair(bytes.last());
        let hi = bytes.last() as nat / 16;
        let lo = bytes.last() as nat % 16;
        assert(hex_upper(hi) as u32 == if hi < 10 {
            0x30 + hi
        } else {
            0x37 + hi
        });
        assert(hex_upper(lo) as u32 == if lo < 10 {
            0x30 + lo
        } else {
            0x37 + lo
        });
        assert(is_plain_char(pair[0]) && is_plain_char(pair[1]));
        if bytes.len() == 1 {
            assert(bytes.last() == bytes[0]);
        } else {
            let before = joined_hex(bytes.drop_last(), sep);
            lemma_joined_hex_is_plain(bytes.drop_last(), sep);
            let text = joined_hex(bytes, sep);
            assert(text == before.push(sep) + pair);
            assert forall|i: int| 0 <= i < text.len() implies is_plain_char(#[trigger] text[i]) by {
                if i < before.len() {
                    assert(text[i] == before[i]);
                } else if i > before.len() {
                    assert(text[i] == pair[i - before.len() - 1]);
                }
            }
        }
    }
}

/// A number in decimal is plain.
proof fn lemma_decimal_text_is_plain(n: nat)
    ensures
        is_plain_text(decimal_text(n)),
    decreases n,
{
    let text = decimal_text(n);
    let last = decimal_digit(n % 10);
    assert(last as u32 == 0x30 + n % 10);
    if n >= 10 {
        let init = decimal_text(n / 10);
        lemma_decimal_text_is_plain(n / 10);
        assert(text == init.push(last));
        assert forall|i: int| 0 <= i < text.len() implies is_plain_char(#[trigger] text[i]) by {
            if i < init.len() {
                assert(text[i] == init[i]);
            }
        }
    }
}

/// An address in dotted decimal is plain.
proof fn lemma_ip_text_is_plain(ip: Seq<u8>)
    ensures
        is_plain_text(ip_text(ip)),
{
    let a = decimal_text(ip[0] as nat);
    let b = decimal_text(ip[1] as nat);
    let c = decimal_text(ip[2] as nat);
    let d = decimal_text(ip[3] as nat);
    lemma_decimal_text_is_plain(ip[0] as nat);
    lemma_decimal_text_is_plain(ip[1] as nat);
    lemma_decimal_text_is_plain(ip[2] as nat);
    lemma_decimal_text_is_plain(ip[3] as nat);
    let text = ip_text(ip);
    assert(text == a.push('.') + b.push('.') + c.push('.') + d);
    assert(is_plain_char('.'));
    assert forall|i: int| 0 <= i < text.len() implies is_plain_char(#[trigger] text[i]) by {
        let la = a.len() + 1;
        let lb = la + b.len() + 1;
        let lc = lb + c.len() + 1;
        if i < a.len() {
            assert(text[i] == a[i]);
        } else if i < la {
        } else if i < lb - 1 {
            assert(text[i] == b[i - la]);
        } else if i < lb {
        } else if i < lc - 1 {
            assert(text[i] == c[i - lb]);
        } else if i < lc {
        } else {
            assert(text[i] == d[i - lc]);
        }
    }
}

/// No string in the structured form of a packet needs an escape.
///
/// The addresses, the name of the protocol, the names of the additional
/// fields and the dump of the wire bytes are made of digits, upper-case
/// letters, lower-case letters, underscores, dots, colons and spaces. So
/// the JSON text of each is the string itself between two double quotes,
/// and no additional field holds a string.
pub proof fn lemma_packet_strings_are_plain(packet: NetworkPacket, include_raw_data: bool)
    ensures
        ({
            let json = spec_json_packet(packet, include_raw_data);
            &&& json_str_text(json.ethernet.src_mac) == quoted(json.ethernet.src_mac)
            &&& json_str_text(json.ethernet.dst_mac) == quoted(json.ethernet.dst_mac)
            &&& json_str_text(json.ipv4.src_addr) == quoted(json.ipv4.src_addr)
            &&& json_str_text(json.ipv4.dst_addr) == quoted(json.ipv4.dst_addr)
            &&& json_str_text(json.l4.protocol_type) == quoted(json.l4.protocol_type)
            &&& json_str_text(json.metadata.raw_data) == quoted(json.metadata.raw_data)
            &&& forall|i: int|
                0 <= i < json.l4.additional_fields.len() ==> {
                    &&& json_str_text((#[trigger] json.l4.additional_fields[i]).0) == quoted(
                        json.l4.additional_fields[i].0,
                    )
                    &&& json.l4.additional_fields[i].1 is U64
                }
        }),
{
    let json = spec_json_packet(packet, include_raw_data);
    assert(is_plain_char(':') && is_plain_char(' '));
    lemma_joined_hex_is_plain(packet.ethernet.src_mac@, ':');
    lemma_joined_hex_is_plain(packet.ethernet.dst_mac@, ':');
    lemma_ip_text_is_plain(packet.ipv4.src_addr@);
    lemma_ip_text_is_plain(packet.ipv4.dst_addr@);
    lemma_joined_hex_is_plain(assembled(packet), ' ');
    reveal_strlit("TCP");
    reveal_strlit("UDP");
    reveal_strlit("ack_number");
    reveal_strlit("flags");
    reveal_strlit("sequence_number");
    reveal_strlit("window");
    reveal_strlit("length");
    assert(is_plain_text("TCP"@) && is_plain_text("UDP"@));
    assert(is_plain_text("ack_number"@));
    assert(is_plain_text("flags"@));
    assert(is_plain_text("sequence_number"@));
    assert(is_plain_text("window"@));
    assert(is_plain_text("length"@));
    assert(is_plain_text(Seq::<char>::empty()));
}

/// The bytes of two texts in a row are the bytes of the first, then those
/// of the second.
pub proof fn lemma_encode_utf8_concat(a: Seq<char>, b: Seq<char>)
    ensures
        encode_utf8(a + b) == encode_utf8(a) + encode_utf8(b),
    decreases a.len(),
{
    if a.len() == 0 {
        assert(a + b =~= b);
        assert(encode_utf8(a) + encode_utf8(b) =~= encode_utf8(b));
    } else {
        lemma_encode_utf8_concat(a.drop_first(), b);
        assert((a + b).drop_first() =~= a.drop_first() + b);
        assert((a + b)[0] == a[0]);
        assert(encode_utf8(a + b) =~= encode_utf8(a) + encode_utf8(b));
    }
}

/// Two texts in a row take the bytes of both.
pub broadcast proof fn lemma_utf8_len_concat(a: Seq<char>, b: Seq<char>)
    ensures
        #[trigger] utf8_len(a + b) == utf8_len(a) + utf8_len(b),
{
    lemma_encode_utf8_concat(a, b);
}

/// The JSON text of a field value: an object with the value under the
/// name of its kind.
pub open spec fn json_value_text(value: JsonValueView) -> Seq<char> {
    match value {
        JsonValueView::U64(n) => "{\"U64\":"@ + decimal_text(n as nat) + "}"@,
        JsonValueView::Bool(b) => "{\"Bool\":"@ + (if b {
            "true"@
        } else {
            "false"@
        }) + "}"@,
        JsonValueView::String(s) => "{\"String\":"@ + json_str_text(s) + "}"@,
    }
}

/// The JSON text of named fields, without the braces around them: each
/// name, a colon and the value, with commas in between.
pub open spec fn json_fields_text(fields: Seq<(Seq<char>, JsonValueView)>) -> Seq<char>
    decreases fields.len(),
{
    if fields.len() == 0 {
        Seq::empty()
    } else {
        json_fields_text(fields.drop_last()) + (if fields.len() == 1 {
            ""@
        } else {
            ","@
        }) + json_str_text(fields.last().0) + ":"@ + json_value_text(fields.last().1)
    }
}

/// The JSON text of the Ethernet layer.
#[verifier::opaque]
pub open spec fn json_ethernet_text(ethernet: JsonEthernetView) -> Seq<char> {
    "{\"src_mac\":"@ + json_str_text(ethernet.src_mac) + ",\"dst_mac\":"@ + json_str_text(
        ethernet.dst_mac,
    ) + ",\"ethertype\":"@ + decimal_text(ethernet.ethertype as nat) + "}"@
}

/// The JSON text of the IPv4 layer.
#[verifier::opaque]
pub open spec fn json_ipv4_text(ipv4: JsonIpv4View) -> Seq<char> {
    "{\"src_addr\":"@ + json_str_text(ipv4.src_addr) + ",\"dst_addr\":"@ + json_str_text(
        ipv4.dst_addr,
    ) + ",\"protocol\":"@ + decimal_text(ipv4.protocol as nat) + ",\"total_length\":"@
        + decimal_text(ipv4.total_length as nat) + ",\"header_checksum\":"@ + decimal_text(
        ipv4.header_checksum as nat,
    ) + ",\"ttl\":"@ + decimal_text(ipv4.ttl as nat) + ",\"flags\":"@ + decimal_text(
        ipv4.flags as nat,
    ) + ",\"fragment_offset\":"@ + decimal_text(ipv4.fragment_offset as nat) + "}"@
}

/// The JSON text of the transport layer.
#[verifier::opaque]
pub open spec fn json_l4_text(l4: JsonL4View) -> Seq<char> {
    "{\"protocol_type\":"@ + json_str_text(l4.protocol_type) + ",\"src_port\":"@ + decimal_text(
        l4.src_port as nat,
    ) + ",\"dst_port\":"@ + decimal_text(l4.dst_port as nat) + ",\"payload_size\":"@
        + decimal_text(l4.payload_size as nat) + ",\"checksum\":"@ + decimal_text(
        l4.checksum as nat,
    ) + ",\"additional_fields\":{"@ + json_fields_text(l4.additional_fields) + "}}"@
}

/// The JSON text of the metadata.
#[verifier::opaque]
pub open spec fn json_metadata_text(metadata: JsonMetadataView) -> Seq<char> {
    "{\"packet_size\":"@ + decimal_text(metadata.packet_size as nat) + ",\"timestamp\":"@
        + decimal_text(metadata.timestamp as nat) + ",\"raw_data\":"@ + json_str_text(
        metadata.raw_data,
    ) + "}"@
}

/// The JSON text of a packet: one object with its three layers and its
/// metadata, without any white space.
#[verifier::opaque]
pub open spec fn json_packet_text(packet: JsonPacketView) -> Seq<char> {
    "{\"ethernet\":"@ + json_ethernet_text(packet.ethernet) + ",\"ipv4\":"@ + json_ipv4_text(
        packet.ipv4,
    ) + ",\"l4\":"@ + json_l4_text(packet.l4) + ",\"metadata\":"@ + json_metadata_text(
        packet.metadata,
    ) + "}"@
}

/// The JSON texts of packets with commas in between.
pub open spec fn json_packets_joined(packets: Seq<JsonPacketView>) -> Seq<char>
    decreases packets.len(),
{
    if packets.len() == 0 {
        Seq::empty()
    } else {
        json_packets_joined(packets.drop_last()) + (if packets.len() == 1 {
            ""@
        } else {
            ","@
        }) + json_packet_text(packets.last())
    }
}

/// The JSON text of a list of packets: an array of their objects.
pub open spec fn json_packets_text(packets: Seq<JsonPacketView>) -> Seq<char> {
    "["@ + json_packets_joined(packets) + "]"@
}

/// What writing a packet as JSON text yields: the text, where it can be
/// written in `JSON_PACKET_CAPACITY` bytes.
pub open spec fn spec_json_text(packet: JsonPacketView) -> Option<Seq<char>> {
    if utf8_len(json_packet_text(packet)) <= JSON_PACKET_CAPACITY {
        Some(json_packet_text(packet))
    } else {
        None
    }
}

/// What writing a list of packets as JSON text yields: the text, where it
/// can be written in `JSON_LIST_CAPACITY` bytes.
pub open spec fn spec_json_list_text(packets: Seq<JsonPacketView>) -> Option<Seq<char>> {
    if utf8_len(json_packets_text(packets)) <= JSON_LIST_CAPACITY {
        Some(json_packets_text(packets))
    } else {
        None
    }
}

/// `res` is the text `expected`, or the error of a full buffer where there
/// is no text.
pub open spec fn is_json_result(res: Result<String>, expected: Option<Seq<char>>) -> bool {
    match res {
        Ok(text) => expected == Some(text@),
        Err(e) => expected is None && is_buffer_full(e),
    }
}

/// The text of the first `k` fields takes no more bytes than the text of
/// all of them.
proof fn lemma_fields_text_prefix(fields: Seq<(Seq<char>, JsonValueView)>, k: int)
    requires
        0 <= k <= fields.len(),
    ensures
        utf8_len(json_fields_text(fields.take(k))) <= utf8_len(json_fields_text(fields)),
    decreases fields.len(),
{
    broadcast use lemma_utf8_len_concat;

    if k == fields.len() {
        assert(fields.take(k) =~= fields);
    } else {
        lemma_fields_text_prefix(fields.drop_last(), k);
        assert(fields.drop_last().take(k) =~= fields.take(k));
    }
}

/// The texts of the first `k` packets take no more bytes than the texts of
/// all of them.
proof fn lemma_packets_joined_prefix(packets: Seq<JsonPacketView>, k: int)
    requires
        0 <= k <= packets.len(),
    ensures
        utf8_len(json_packets_joined(packets.take(k))) <= utf8_len(json_packets_joined(packets)),
    decreases packets.len(),
{
    broadcast use lemma_utf8_len_concat;

    if k == packets.len() {
        assert(packets.take(k) =~= packets);
    } else {
        lemma_packets_joined_prefix(packets.drop_last(), k);
        assert(packets.drop_last().take(k) =~= packets.take(k));
    }
}

/// The text of named fields takes at least the bytes of each name and of
/// each value among them.
proof fn lemma_fields_text_part(fields: Seq<(Seq<char>, JsonValueView)>, i: int)
    requires
        0 <= i < fields.len(),
    ensures
        utf8_len(json_str_text(fields[i].0)) <= utf8_len(json_fields_text(fields)),
        utf8_len(json_value_text(fields[i].1)) <= utf8_len(json_fields_text(fields)),
{
    broadcast use lemma_utf8_len_concat;

    let upto = fields.take(i + 1);
    lemma_fields_text_prefix(fields, i + 1);
    assert(upto.last() == fields[i]);
}

/// The text of a list of packets takes at least the bytes of the text of
/// each packet in it.
proof fn lemma_packets_text_part(packets: Seq<JsonPacketView>, i: int)
    requires
        0 <= i < packets.len(),
    ensures
        utf8_len(json_packet_text(packets[i])) <= utf8_len(json_packets_text(packets)),
{
    broadcast use lemma_utf8_len_concat;

    let upto = packets.take(i + 1);
    lemma_packets_joined_prefix(packets, i + 1);
    assert(upto.last() == packets[i]);
}

/// The text of each layer, and of the metadata, takes at least the bytes
/// of each string in it.
proof fn lemma_layer_text_parts(packet: JsonPacketView)
    ensures
        utf8_len(json_str_text(packet.ethernet.src_mac)) <= utf8_len(
            json_ethernet_text(packet.ethernet),
        ),
        utf8_len(json_str_text(packet.ethernet.dst_mac)) <= utf8_len(
            json_ethernet_text(packet.ethernet),
        ),
        utf8_len(json_str_text(packet.ipv4.src_addr)) <= utf8_len(json_ipv4_text(packet.ipv4)),
        utf8_len(json_str_text(packet.ipv4.dst_addr)) <= utf8_len(json_ipv4_text(packet.ipv4)),
        utf8_len(json_str_text(packet.l4.protocol_type)) <= utf8_len(json_l4_text(packet.l4)),
        utf8_len(json_fields_text(packet.l4.additional_fields)) <= utf8_len(
            json_l4_text(packet.l4),
        ),
        utf8_len(json_str_text(packet.metadata.raw_data)) <= utf8_len(
            json_metadata_text(packet.metadata),
        ),
{
    broadcast use lemma_utf8_len_concat;

    reveal(json_ethernet_text);
    reveal(json_ipv4_text);
    reveal(json_l4_text);
    reveal(json_metadata_text);
}

/// The text of a packet takes at least the bytes of the text of each of
/// its four parts.
proof fn lemma_packet_text_parts(packet: JsonPacketView)
    ensures
        utf8_len(json_ethernet_text(packet.ethernet)) <= utf8_len(json_packet_text(packet)),
        utf8_len(json_ipv4_text(packet.ipv4)) <= utf8_len(json_packet_text(packet)),
        utf8_len(json_l4_text(packet.l4)) <= utf8_len(json_packet_text(packet)),
        utf8_len(json_metadata_text(packet.metadata)) <= utf8_len(json_packet_text(packet)),
{
    reveal(json_packet_text);
    broadcast use lemma_utf8_len_concat;

}

/// The JSON text of a string, unless it takes more than `capacity` bytes.
fn json_str(value: &str, capacity: usize) -> (res: Result<String>)
    ensures
        match res {
            Ok(text) => text@ == json_str_text(value@),
            Err(e) => is_buffer_full(e) && utf8_len(json_str_text(value@)) > capacity,
        },
{
    match json_encode_str(value, capacity) {
        Ok(text) => Ok(text),
        Err(e) => Err(ParseError::from(e)),
    }
}

/// The JSON text of a field value, unless it takes more than `capacity`
/// bytes.
fn json_value(value: &JsonValue, capacity: usize) -> (res: Result<String>)
    ensures
        match res {
            Ok(text) => text@ == json_value_text(value@),
            Err(e) => is_buffer_full(e) && utf8_len(json_value_text(value@)) > capacity,
        },
{
    broadcast use lemma_utf8_len_concat;

    match value {
        JsonValue::U64(n) => {
            let mut text = String::from_str("{\"U64\":");
            push_decimal(&mut text, *n);
            text.append("}");
            Ok(text)
        },
        JsonValue::Bool(b) => {
            let mut text = String::from_str("{\"Bool\":");
            if *b {
                text.append("true");
            } else {
                text.append("false");
            }
            text.append("}");
            Ok(text)
        },
        JsonValue::String(s) => {
            let mut text = String::from_str("{\"String\":");
            let quoted = json_str(s.as_str(), capacity)?;
            text.append(quoted.as_str());
            text.append("}");
            Ok(text)
        },
    }
}

/// The JSON text of named fields, without braces, unless it takes more than
/// `capacity` bytes.
fn json_fields(fields: &Vec<(String, JsonValue)>, capacity: usize) -> (res: Result<String>)
    ensures
        match res {
            Ok(text) => text@ == json_fields_text(
                fields@.map_values(|f: (String, JsonValue)| field_view(f)),
            ),
            Err(e) => is_buffer_full(e) && utf8_len(
                json_fields_text(fields@.map_values(|f: (String, JsonValue)| field_view(f))),
            ) > capacity,
        },
{
    let ghost views = fields@.map_values(|f: (String, JsonValue)| field_view(f));
    let mut text = String::new();
    let mut i: usize = 0;
    assert(views.take(0) =~= Seq::<(Seq<char>, JsonValueView)>::empty());
    while i < fields.len()
        invariant
            i <= fields@.len(),
            views == fields@.map_values(|f: (String, JsonValue)| field_view(f)),
            text@ == json_fields_text(views.take(i as int)),
        decreases fields@.len() - i,
    {
        proof {
            let next = views.take(i + 1);
            assert(next.drop_last() =~= views.take(i as int));
            assert(next.last() == field_view(fields@[i as int]));
            assert(views[i as int] == field_view(fields@[i as int]));
            lemma_fields_text_part(views, i as int);
        }
        text.append(if i == 0 {
            ""
        } else {
            ","
        });
        let field = &fields[i];
        let name = json_str(field.0.as_str(), capacity)?;
        text.append(name.as_str());
        text.append(":");
        let value = json_value(&field.1, capacity)?;
        text.append(value.as_str());
        i += 1;
    }
    assert(views.take(i as int) =~= views);
    Ok(text)
}

/// The JSON text of the Ethernet layer, unless it takes more than
/// `capacity` bytes.
fn json_ethernet(ethernet: &JsonEthernet, capacity: usize) -> (res: Result<String>)
    ensures
        match res {
            Ok(text) => text@ == json_ethernet_text(ethernet@),
            Err(e) => is_buffer_full(e) && utf8_len(json_ethernet_text(ethernet@)) > capacity,
        },
{
    reveal(json_ethernet_text);
    proof {
        lemma_layer_text_parts(
            JsonPacketView {
                ethernet: ethernet@,
                ipv4: arbitrary(),
                l4: arbitrary(),
                metadata: arbitrary(),
            },
        );
    }
    let mut text = String::from_str("{\"src_mac\":");
    let src_mac = json_str(ethernet.src_mac.as_str(), capacity)?;
    text.append(src_mac.as_str());
    text.append(",\"dst_mac\":");
    let dst_mac = json_str(ethernet.dst_mac.as_str(), capacity)?;
    text.append(dst_mac.as_str());
    text.append(",\"ethertype\":");
    push_decimal(&mut text, ethernet.ethertype as u64);
    text.append("}");
    Ok(text)
}

/// The JSON text of the IPv4 layer, unless it takes more than `capacity`
/// bytes.
fn json_ipv4(ipv4: &JsonIpv4, capacity: usize) -> (res: Result<String>)
    ensures
        match res {
            Ok(text) => text@ == json_ipv4_text(ipv4@),
            Err(e) => is_buffer_full(e) && utf8_len(json_ipv4_text(ipv4@)) > capacity,
        },
{
    reveal(json_ipv4_text);
    proof {
        lemma_layer_text_parts(
            JsonPacketView {
                ethernet: arbitrary(),
                ipv4: ipv4@,
                l4: arbitrary(),
                metadata: arbitrary(),
            },
        );
    }
    let mut text = String::from_str("{\"src_addr\":");
    let src_addr = json_str(ipv4.src_addr.as_str(), capacity)?;
    text.append(src_addr.as_str());
    text.append(",\"dst_addr\":");
    let dst_addr = json_str(ipv4.dst_addr.as_str(), capacity)?;
    text.append(dst_addr.as_str());
    text.append(",\"protocol\":");
    push_decimal(&mut text, ipv4.protocol as u64);
    text.append(",\"total_length\":");
    push_decimal(&mut text, ipv4.total_length as u64);
    text.append(",\"header_checksum\":");
    push_decimal(&mut text, ipv4.header_checksum as u64);
    text.append(",\"ttl\":");
    push_decimal(&mut text, ipv4.ttl as u64);
    text.append(",\"flags\":");
    push_decimal(&mut text, ipv4.flags as u64);
    text.append(",\"fragment_offset\":");
    push_decimal(&mut text, ipv4.fragment_offset as u64);
    text.append("}");
    Ok(text)
}

/// The JSON text of the transport layer, unless it takes more than
/// `capacity` bytes.
fn json_l4(l4: &JsonL4, capacity: usize) -> (res: Result<String>)
    ensures
        match res {
            Ok(text) => text@ == json_l4_text(l4@),
            Err(e) => is_buffer_full(e) && utf8_len(json_l4_text(l4@)) > capacity,
        },
{
    reveal(json_l4_text);
    proof {
        lemma_layer_text_parts(
            JsonPacketView {
                ethernet: arbitrary(),
                ipv4: arbitrary(),
                l4: l4@,
                metadata: arbitrary(),
            },
        );
    }
    let mut text = String::from_str("{\"protocol_type\":");
    let protocol_type = json_str(l4.protocol_type.as_str(), capacity)?;
    text.append(protocol_type.as_str());
    text.append(",\"src_port\":");
    push_decimal(&mut text, l4.src_port as u64);
    text.append(",\"dst_port\":");
    push_decimal(&mut text, l4.dst_port as u64);
    text.append(",\"payload_size\":");
    push_decimal(&mut text, l4.payload_size as u64);
    text.append(",\"checksum\":");
    push_decimal(&mut text, l4.checksum as u64);
    text.append(",\"additional_fields\":{");
    let fields = json_fields(&l4.additional_fields, capacity)?;
    text.append(fields.as_str());
    text.append("}}");
    Ok(text)
}

/// The JSON text of the metadata, unless it takes more than `capacity`
/// bytes.
fn json_metadata(metadata: &JsonMetadata, capacity: usize) -> (res: Result<String>)
    ensures
        match res {
            Ok(text) => text@ == json_metadata_text(metadata@),
            Err(e) => is_buffer_full(e) && utf8_len(json_metadata_text(metadata@)) > capacity,
        },
{
    reveal(json_metadata_text);
    proof {
        lemma_layer_text_parts(
            JsonPacketView {
                ethernet: arbitrary(),
                ipv4: arbitrary(),
                l4: arbitrary(),
                metadata: metadata@,
            },
        );
    }
    let mut text = String::from_str("{\"packet_size\":");
    push_decimal(&mut text, metadata.packet_size as u64);
    text.append(",\"timestamp\":");
    push_decimal(&mut text, metadata.timestamp);
    text.append(",\"raw_data\":");
    let raw_data = json_str(metadata.raw_data.as_str(), capacity)?;
    text.append(raw_data.as_str());
    text.append("}");
    Ok(text)
}

/// The error that stands for a text that does not fit its buffer.
fn buffer_full() -> (error: ParseError)
    ensures
        is_buffer_full(error),
{
    let mut message = String::from_str("Serialization error: ");
    message.append("BufferFull");
    ParseError::SerdeError(message)
}

/// Number of bytes that `text` takes.
fn utf8_size(text: &str) -> (size: usize)
    ensures
        size == utf8_len(text@),
{
    text.as_bytes().len()
}

/// The JSON text of a packet, unless it takes more than `capacity` bytes.
fn json_packet(packet: &JsonPacket, capacity: usize) -> (res: Result<String>)
    ensures
        match res {
            Ok(text) => text@ == json_packet_text(packet@) && utf8_len(text@) <= capacity,
            Err(e) => is_buffer_full(e) && utf8_len(json_packet_text(packet@)) > capacity,
        },
{
    reveal(json_packet_text);
    proof {
        lemma_packet_text_parts(packet@);
    }
    let mut text = String::from_str("{\"ethernet\":");
    let ethernet = json_ethernet(&packet.ethernet, capacity)?;
    text.append(ethernet.as_str());
    text.append(",\"ipv4\":");
    let ipv4 = json_ipv4(&packet.ipv4, capacity)?;
    text.append(ipv4.as_str());
    text.append(",\"l4\":");
    let l4 = json_l4(&packet.l4, capacity)?;
    text.append(l4.as_str());
    text.append(",\"metadata\":");
    let metadata = json_metadata(&packet.metadata, capacity)?;
    text.append(metadata.as_str());
    text.append("}");
    if utf8_size(text.as_str()) > capacity {
        return Err(buffer_full());
    }
    Ok(text)
}

/// Writes a packet in its structured form as JSON text, in a buffer of
/// `JSON_PACKET_CAPACITY` bytes. A text that takes more room is refused.
pub fn json_packet_to_string(packet: &JsonPacket) -> (res: Result<String>)
    ensures
        is_json_result(res, spec_json_text(packet@)),
{
    json_packet(packet, JSON_PACKET_CAPACITY)
}

/// Writes a list of packets in their structured form as a JSON array, in a
/// buffer of `JSON_LIST_CAPACITY` bytes. A text that takes more room is
/// refused.
pub fn json_packets_to_string(packets: &Vec<JsonPacket>) -> (res: Result<String>)
    ensures
        is_json_result(res, spec_json_list_text(packets_view(packets@))),
{
    let ghost views = packets_view(packets@);
    let mut joined = String::new();
    let mut i: usize = 0;
    assert(views.take(0) =~= Seq::<JsonPacketView>::empty());
    while i < packets.len()
        invariant
            i <= packets@.len(),
            views == packets_view(packets@),
            joined@ == json_packets_joined(views.take(i as int)),
        decreases packets@.len() - i,
    {
        proof {
            let next = views.take(i + 1);
            assert(next.drop_last() =~= views.take(i as int));
            assert(next.last() == packets@[i as int]@);
            assert(views[i as int] == packets@[i as int]@);
            lemma_packets_text_part(views, i as int);
        }
        joined.append(if i == 0 {
            ""
        } else {
            ","
        });
        let packet = json_packet(&packets[i], JSON_LIST_CAPACITY)?;
        joined.append(packet.as_str());
        i += 1;
    }
    assert(views.take(i as int) =~= views);
    let mut text = String::from_str("[");
    text.append(joined.as_str());
    text.append("]");
    if utf8_size(text.as_str()) > JSON_LIST_CAPACITY {
        return Err(buffer_full());
    }
    Ok(text)
}

impl JsonSerializer {
    /// A serialiser that includes the dump of the wire bytes.
    pub fn new() -> (serializer: Self)
        ensures
            serializer.include_raw_data,
    {
        Self { include_raw_data: true }
    }

    /// A serialiser that leaves the dump of the wire bytes empty.
    pub fn without_raw_data() -> (serializer: Self)
        ensures
            !serializer.include_raw_data,
    {
        Self { include_raw_data: false }
    }

    /// Writes a packet as JSON text.
    ///
    /// The text has to fit in `JSON_PACKET_CAPACITY` bytes; a packet with a
    /// long dump of its wire bytes is refused.
    pub fn serialize_packet(&self, packet: &NetworkPacket) -> (res: Result<String>)
        requires
            self.include_raw_data ==> can_assemble(*packet),
            spec_packet_size(*packet) <= usize::MAX,
        ensures
            is_json_result(res, spec_json_text(spec_json_packet(*packet, self.include_raw_data))),
    {
        let json_packet = self.convert_to_json_packet(packet)?;
        json_packet_to_string(&json_packet)
    }

    /// Converts a packet into its structured form.
    pub fn convert_to_json_packet(&self, packet: &NetworkPacket) -> (res: Result<JsonPacket>)
        requires
            self.include_raw_data ==> can_assemble(*packet),
            spec_packet_size(*packet) <= usize::MAX,
        ensures
            res is Ok,
            res->Ok_0@ == spec_json_packet(*packet, self.include_raw_data),
    {
        let ethernet = JsonEthernet {
            src_mac: format_mac(&packet.ethernet.src_mac),
            dst_mac: format_mac(&packet.ethernet.dst_mac),
            ethertype: packet.ethernet.ethertype,
        };

        let ipv4 = JsonIpv4 {
            src_addr: format_ip(&packet.ipv4.src_addr),
            dst_addr: format_ip(&packet.ipv4.dst_addr),
            protocol: packet.ipv4.protocol,
            total_length: packet.ipv4.total_length,
            header_checksum: packet.ipv4.header_checksum,
            ttl: packet.ipv4.ttl,
            flags: packet.ipv4.flags,
            fragment_offset: packet.ipv4.fragment_offset,
        };

        let l4 = match &packet.l4_data {
            L4Data::Tcp(tcp) => {
                let mut additional_fields: Vec<(String, JsonValue)> = Vec::new();
                additional_fields.push(
                    (
                        String::from_str("ack_number"),
                        JsonValue::U64(tcp.ack_nowledgment_number as u64),
                    ),
                );
                additional_fields.push((String::from_str("flags"), JsonValue::U64(tcp.flags as u64)));
                additional_fields.push(
                    (String::from_str("sequence_number"), JsonValue::U64(tcp.sequence_number as u64)),
                );
                additional_fields.push(
                    (String::from_str("window"), JsonValue::U64(tcp.window as u64)),
                );
                assert(additional_fields@.map_values(|f: (String, JsonValue)| field_view(f))
                    =~= spec_additional_fields(packet.l4_data));

                JsonL4 {
                    protocol_type: String::from_str("TCP"),
                    src_port: tcp.src_port,
                    dst_port: tcp.dst_port,
                    payload_size: payload_len(&tcp.payload),
                    checksum: tcp.checksum,
                    additional_fields,
                }
            },
            L4Data::Udp(udp) => {
                let mut additional_fields: Vec<(String, JsonValue)> = Vec::new();
                additional_fields.push(
                    (String::from_str("length"), JsonValue::U64(udp.length as u64)),
                );
                assert(additional_fields@.map_values(|f: (String, JsonValue)| field_view(f))
                    =~= spec_additional_fields(packet.l4_data));

                JsonL4 {
                    protocol_type: String::from_str("UDP"),
                    src_port: udp.src_port,
                    dst_port: udp.dst_port,
                    payload_size: payload_len(&udp.payload),
                    checksum: udp.checksum,
                    additional_fields,
                }
            },
        };

        let raw_data = if self.include_raw_data {
            let packet_bytes = packet.assemble_packet()?;
            format_bytes(&packet_bytes)
        } else {
            String::new()
        };

        let metadata = JsonMetadata {
            packet_size: packet.get_packet_size(),
            timestamp: get_timestamp_ms(),
            raw_data,
        };

        Ok(JsonPacket { ethernet, ipv4, l4, metadata })
    }

    /// Writes a list of packets as one JSON array.
    ///
    /// The text has to fit in `JSON_LIST_CAPACITY` bytes.
    pub fn serialize_packets(&self, packets: &[NetworkPacket]) -> (res: Result<String>)
        requires
            forall|i: int|
                0 <= i < packets@.len() ==> (self.include_raw_data ==> can_assemble(
                    #[trigger] packets@[i],
                )) && spec_packet_size(packets@[i]) <= usize::MAX,
        ensures
            is_json_result(
                res,
                spec_json_list_text(spec_json_packets(packets@, self.include_raw_data)),
            ),
    {
        let mut json_packets: Vec<JsonPacket> = Vec::new();
        let mut i: usize = 0;
        while i < packets.len()
            invariant
                i <= packets@.len(),
                forall|k: int|
                    0 <= k < packets@.len() ==> (self.include_raw_data ==> can_assemble(
                        #[trigger] packets@[k],
                    )) && spec_packet_size(packets@[k]) <= usize::MAX,
                json_packets@.len() == i,
                forall|k: int|
                    0 <= k < i ==> (#[trigger] json_packets@[k])@ == spec_json_packet(
                        packets@[k],
                        self.include_raw_data,
                    ),
            decreases packets@.len() - i,
        {
            let json_packet = self.convert_to_json_packet(&packets[i])?;
            json_packets.push(json_packet);
            i += 1;
        }
        assert(packets_view(json_packets@) =~= spec_json_packets(
            packets@,
            self.include_raw_data,
        ));
        json_packets_to_string(&json_packets)
    }
}

impl JsonDeserializer {
    pub fn new() -> (deserializer: Self) {
        JsonDeserializer
    }
}

} // verus!
