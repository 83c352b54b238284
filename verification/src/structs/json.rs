use vstd::prelude::*;

verus! {

/// A value of a field whose type depends on the protocol.
#[derive(Debug)]
pub enum JsonValue {
    U64(u64),
    Bool(bool),
    String(String),
}

/// A packet as it is written in the structured-text format.
#[derive(Debug)]
pub struct JsonPacket {
    pub ethernet: JsonEthernet,
    pub ipv4: JsonIpv4,
    pub l4: JsonL4,
    pub metadata: JsonMetadata,
}

/// The Ethernet layer, with its addresses as text.
#[derive(Debug)]
pub struct JsonEthernet {
    pub src_mac: String,
    pub dst_mac: String,
    pub ethertype: u16,
}

/// The IPv4 layer, with its addresses in dotted decimal.
#[derive(Debug)]
pub struct JsonIpv4 {
    pub src_addr: String,
    pub dst_addr: String,
    pub protocol: u8,
    pub total_length: u16,
    pub header_checksum: u16,
    pub ttl: u8,
    pub flags: u8,
    pub fragment_offset: u16,
}

/// The transport layer. `additional_fields` holds the fields that only one
/// of the protocols has, each under its name, in the order of the names.
#[derive(Debug)]
pub struct JsonL4 {
    pub protocol_type: String,
    pub src_port: u16,
    pub dst_port: u16,
    pub payload_size: usize,
    pub checksum: u16,
    pub additional_fields: Vec<(String, JsonValue)>,
}

/// What is known of the packet as a whole.
#[derive(Debug)]
pub struct JsonMetadata {
    pub packet_size: usize,
    pub timestamp: u64,
    pub raw_data: String,
}

/// Writes packets in the structured-text format, with or without a
/// hexadecimal dump of their wire bytes.
pub struct JsonSerializer {
    pub include_raw_data: bool,
}

/// Stands for the reading side of the structured-text format, which holds
/// no packets to read back.
pub struct JsonDeserializer;

/// A field value as a mathematical value.
pub enum JsonValueView {
    U64(u64),
    Bool(bool),
    String(Seq<char>),
}

impl View for JsonValue {
    type V = JsonValueView;

    open spec fn view(&self) -> JsonValueView {
        match *self {
            JsonValue::U64(n) => JsonValueView::U64(n),
            JsonValue::Bool(b) => JsonValueView::Bool(b),
            JsonValue::String(s) => JsonValueView::String(s@),
        }
    }
}

/// The Ethernet layer as a mathematical value.
pub struct JsonEthernetView {
    pub src_mac: Seq<char>,
    pub dst_mac: Seq<char>,
    pub ethertype: u16,
}

impl View for JsonEthernet {
    type V = JsonEthernetView;

    open spec fn view(&self) -> JsonEthernetView {
        JsonEthernetView {
            src_mac: self.src_mac@,
            dst_mac: self.dst_mac@,
            ethertype: self.ethertype,
        }
    }
}

/// The IPv4 layer as a mathematical value.
pub struct JsonIpv4View {
    pub src_addr: Seq<char>,
    pub dst_addr: Seq<char>,
    pub protocol: u8,
    pub total_length: u16,
    pub header_checksum: u16,
    pub ttl: u8,
    pub flags: u8,
    pub fragment_offset: u16,
}

impl View for JsonIpv4 {
    type V = JsonIpv4View;

    open spec fn view(&self) -> JsonIpv4View {
        JsonIpv4View {
            src_addr: self.src_addr@,
            dst_addr: self.dst_addr@,
            protocol: self.protocol,
            total_length: self.total_length,
            header_checksum: self.header_checksum,
            ttl: self.ttl,
            flags: self.flags,
            fragment_offset: self.fragment_offset,
        }
    }
}

/// One named field as a mathematical value.
pub open spec fn field_view(field: (String, JsonValue)) -> (Seq<char>, JsonValueView) {
    (field.0@, field.1@)
}

/// The transport layer as a mathematical value.
pub struct JsonL4View {
    pub protocol_type: Seq<char>,
    pub src_port: u16,
    pub dst_port: u16,
    pub payload_size: usize,
    pub checksum: u16,
    pub additional_fields: Seq<(Seq<char>, JsonValueView)>,
}

impl View for JsonL4 {
    type V = JsonL4View;

    open spec fn view(&self) -> JsonL4View {
        JsonL4View {
            protocol_type: self.protocol_type@,
            src_port: self.src_port,
            dst_port: self.dst_port,
            payload_size: self.payload_size,
            checksum: self.checksum,
            additional_fields: self.additional_fields@.map_values(
                |field: (String, JsonValue)| field_view(field),
            ),
        }
    }
}

/// The metadata as a mathematical value.
pub struct JsonMetadataView {
    pub packet_size: usize,
    pub timestamp: u64,
    pub raw_data: Seq<char>,
}

impl View for JsonMetadata {
    type V = JsonMetadataView;

    open spec fn view(&self) -> JsonMetadataView {
        JsonMetadataView {
            packet_size: self.packet_size,
            timestamp: self.timestamp,
            raw_data: self.raw_data@,
        }
    }
}

/// A packet in its structured form as a mathematical value.
pub struct JsonPacketView {
    pub ethernet: JsonEthernetView,
    pub ipv4: JsonIpv4View,
    pub l4: JsonL4View,
    pub metadata: JsonMetadataView,
}

impl View for JsonPacket {
    type V = JsonPacketView;

    open spec fn view(&self) -> JsonPacketView {
        JsonPacketView {
            ethernet: self.ethernet@,
            ipv4: self.ipv4@,
            l4: self.l4@,
            metadata: self.metadata@,
        }
    }
}

/// A list of packets in their structured form as a mathematical value.
pub open spec fn packets_view(packets: Seq<JsonPacket>) -> Seq<JsonPacketView> {
    packets.map_values(|packet: JsonPacket| packet@)
}

} // verus!
