use crate::errors::errors::{is_buffer_full, ParseError, Result};
use crate::formats::json::{
    spec_json_list_text,
    spec_json_packet,
    spec_json_packets,
    spec_json_text,
};
use crate::formats::pcap::{
    lemma_pcap_records_split,
    pcap_file,
    pcap_global_header,
    pcap_record,
    pcap_records,
    spec_has_more_packets,
    spec_read_outcome,
    ReadOutcome,
};
use crate::packets::builder::packet_assembler::{assembled, can_assemble, spec_packet_size};
use crate::structs::formats::FormatType;
use crate::structs::json::{JsonDeserializer, JsonSerializer};
use crate::structs::network_packet::NetworkPacket;
use crate::structs::pcap::{PcapReader, PcapWriter};
use vstd::prelude::*;
use vstd::string::{StrSliceExecFns, StringSliceAdditionalSpecFns};
use vstd::utf8::encode_utf8;

verus! {

/// Something that packets can be written to, one after the other.
pub trait FormatWriter {
    /// The bytes that were written so far.
    spec fn written(&self) -> Seq<u8>;

    /// The packet can be handed to this writer at all.
    spec fn can_write(&self, packet: NetworkPacket) -> bool;

    /// The writer takes the packet: writing it succeeds.
    spec fn accepts(&self, packet: NetworkPacket) -> bool;

    /// The bytes that writing the packet adds.
    spec fn record_of(&self, packet: NetworkPacket) -> Seq<u8>;

    /// Writes one packet. A packet that is not accepted is refused and
    /// leaves what was written as it is.
    fn write_packet(&mut self, packet: &NetworkPacket) -> (res: Result<()>)
        requires
            old(self).can_write(*packet),
        ensures
            res is Ok <==> old(self).accepts(*packet),
            final(self).written() == if res is Ok {
                old(self).written() + old(self).record_of(*packet)
            } else {
                old(self).written()
            },
    ;

    /// What was written so far.
    fn get_data(&self) -> (data: &[u8])
        ensures
            data@ == self.written(),
    ;

    /// Gives up the writer for what was written.
    fn into_data(self: Box<Self>) -> (data: Vec<u8>)
        ensures
            data@ == self.written(),
    ;
}

/// Something that packets can be read from, one after the other.
pub trait FormatReader {
    /// What the next read finds.
    spec fn next_outcome(&self) -> ReadOutcome;

    /// Whether anything is left to read.
    spec fn has_more(&self) -> bool;

    /// Reads the next packet, or `None` at the end.
    fn read_next_packet(&mut self) -> (res: Result<Option<Vec<u8>>>)
        ensures
            match old(self).next_outcome() {
                ReadOutcome::End => res == Ok::<Option<Vec<u8>>, ParseError>(None),
                ReadOutcome::Packet(packet) => res matches Ok(Some(bytes)) && bytes@ == packet,
                ReadOutcome::Truncated => res is Err,
            },
    ;

    /// Whether anything is left to read.
    fn has_more_packets(&self) -> (more: bool)
        ensures
            more == self.has_more(),
    ;
}

impl FormatWriter for PcapWriter {
    open spec fn written(&self) -> Seq<u8> {
        self.buffer@
    }

    open spec fn can_write(&self, packet: NetworkPacket) -> bool {
        can_assemble(packet)
    }

    open spec fn accepts(&self, packet: NetworkPacket) -> bool {
        true
    }

    open spec fn record_of(&self, packet: NetworkPacket) -> Seq<u8> {
        pcap_record(assembled(packet))
    }

    fn write_packet(&mut self, packet: &NetworkPacket) -> (res: Result<()>) {
        PcapWriter::write_packet(self, packet)
    }

    fn get_data(&self) -> (data: &[u8]) {
        PcapWriter::get_data(self)
    }

    fn into_data(self: Box<Self>) -> (data: Vec<u8>) {
        PcapWriter::into_data(*self)
    }
}

/// The structured-text writer keeps nothing: each packet is serialised, and
/// the text is dropped.
impl FormatWriter for JsonSerializer {
    open spec fn written(&self) -> Seq<u8> {
        Seq::empty()
    }

    open spec fn can_write(&self, packet: NetworkPacket) -> bool {
        &&& self.include_raw_data ==> can_assemble(packet)
        &&& spec_packet_size(packet) <= usize::MAX
    }

    open spec fn accepts(&self, packet: NetworkPacket) -> bool {
        spec_json_text(spec_json_packet(packet, self.include_raw_data)) is Some
    }

    open spec fn record_of(&self, packet: NetworkPacket) -> Seq<u8> {
        Seq::empty()
    }

    fn write_packet(&mut self, packet: &NetworkPacket) -> (res: Result<()>) {
        let _json = self.serialize_packet(packet)?;
        Ok(())
    }

    fn get_data(&self) -> (data: &[u8]) {
        &[]
    }

    fn into_data(self: Box<Self>) -> (data: Vec<u8>) {
        Vec::new()
    }
}

impl FormatReader for PcapReader {
    open spec fn next_outcome(&self) -> ReadOutcome {
        spec_read_outcome(self.data@, self.position as int)
    }

    open spec fn has_more(&self) -> bool {
        spec_has_more_packets(self.data@, self.position as int)
    }

    fn read_next_packet(&mut self) -> (res: Result<Option<Vec<u8>>>) {
        PcapReader::read_next_packet(self)
    }

    fn has_more_packets(&self) -> (more: bool) {
        PcapReader::has_more_packets(self)
    }
}

/// The structured-text reader holds no packets.
impl FormatReader for JsonDeserializer {
    open spec fn next_outcome(&self) -> ReadOutcome {
        ReadOutcome::End
    }

    open spec fn has_more(&self) -> bool {
        false
    }

    fn read_next_packet(&mut self) -> (res: Result<Option<Vec<u8>>>) {
        Ok(None)
    }

    fn has_more_packets(&self) -> (more: bool) {
        false
    }
}

/// A writer of one of the formats.
pub enum AnyWriter {
    Pcap(PcapWriter),
    Json(JsonSerializer),
}

/// A reader of one of the formats.
pub enum AnyReader {
    Pcap(PcapReader),
    Json(JsonDeserializer),
}

impl FormatWriter for AnyWriter {
    open spec fn written(&self) -> Seq<u8> {
        match *self {
            AnyWriter::Pcap(writer) => writer.written(),
            AnyWriter::Json(writer) => writer.written(),
        }
    }

    open spec fn can_write(&self, packet: NetworkPacket) -> bool {
        match *self {
            AnyWriter::Pcap(writer) => writer.can_write(packet),
            AnyWriter::Json(writer) => writer.can_write(packet),
        }
    }

    open spec fn accepts(&self, packet: NetworkPacket) -> bool {
        match *self {
            AnyWriter::Pcap(writer) => writer.accepts(packet),
            AnyWriter::Json(writer) => writer.accepts(packet),
        }
    }

    open spec fn record_of(&self, packet: NetworkPacket) -> Seq<u8> {
        match *self {
            AnyWriter::Pcap(writer) => writer.record_of(packet),
            AnyWriter::Json(writer) => writer.record_of(packet),
        }
    }

    fn write_packet(&mut self, packet: &NetworkPacket) -> (res: Result<()>) {
        match self {
            AnyWriter::Pcap(writer) => PcapWriter::write_packet(writer, packet),
            AnyWriter::Json(writer) => FormatWriter::write_packet(writer, packet),
        }
    }

    fn get_data(&self) -> (data: &[u8]) {
        match self {
            AnyWriter::Pcap(writer) => PcapWriter::get_data(writer),
            AnyWriter::Json(writer) => FormatWriter::get_data(writer),
        }
    }

    fn into_data(self: Box<Self>) -> (data: Vec<u8>) {
        match *self {
            AnyWriter::Pcap(writer) => PcapWriter::into_data(writer),
            AnyWriter::Json(_) => Vec::new(),
        }
    }
}

impl FormatReader for AnyReader {
    open spec fn next_outcome(&self) -> ReadOutcome {
        match *self {
            AnyReader::Pcap(reader) => reader.next_outcome(),
            AnyReader::Json(reader) => reader.next_outcome(),
        }
    }

    open spec fn has_more(&self) -> bool {
        match *self {
            AnyReader::Pcap(reader) => reader.has_more(),
            AnyReader::Json(reader) => reader.has_more(),
        }
    }

    fn read_next_packet(&mut self) -> (res: Result<Option<Vec<u8>>>) {
        match self {
            AnyReader::Pcap(reader) => PcapReader::read_next_packet(reader),
            AnyReader::Json(reader) => FormatReader::read_next_packet(reader),
        }
    }

    fn has_more_packets(&self) -> (more: bool) {
        match self {
            AnyReader::Pcap(reader) => PcapReader::has_more_packets(reader),
            AnyReader::Json(reader) => FormatReader::has_more_packets(reader),
        }
    }
}

/// The wire images of a list of packets.
pub open spec fn wire_images(packets: Seq<NetworkPacket>) -> Seq<Seq<u8>> {
    packets.map_values(|packet: NetworkPacket| assembled(packet))
}

/// The bytes of a text, where there is one.
pub open spec fn text_bytes(text: Option<Seq<char>>) -> Option<Seq<u8>> {
    match text {
        Some(t) => Some(encode_utf8(t)),
        None => None,
    }
}

/// What writing one packet in a format yields: a capture file with the one
/// packet, or the bytes of the JSON text of the packet, with the dump of
/// its wire bytes, where that text fits its buffer.
pub open spec fn spec_write_packet(packet: NetworkPacket, format_type: FormatType) -> Option<
    Seq<u8>,
> {
    match format_type {
        FormatType::Pcap => Some(pcap_global_header() + pcap_record(assembled(packet))),
        FormatType::Json => text_bytes(spec_json_text(spec_json_packet(packet, true))),
    }
}

/// What writing a list of packets in a format yields: a capture file with
/// the packets in order, or the bytes of the JSON array of the packets,
/// where that text fits its buffer.
pub open spec fn spec_write_packets(packets: Seq<NetworkPacket>, format_type: FormatType) -> Option<
    Seq<u8>,
> {
    match format_type {
        FormatType::Pcap => Some(pcap_file(wire_images(packets))),
        FormatType::Json => text_bytes(spec_json_list_text(spec_json_packets(packets, true))),
    }
}

/// `res` holds the bytes `expected`, or the error of a full buffer where
/// there are none.
pub open spec fn is_write_result(res: Result<Vec<u8>>, expected: Option<Seq<u8>>) -> bool {
    match res {
        Ok(bytes) => expected == Some(bytes@),
        Err(e) => expected is None && is_buffer_full(e),
    }
}

/// The packet can be written in the format: it can be assembled, and for
/// the structured text its size can be computed.
pub open spec fn can_write_packet(packet: NetworkPacket, format_type: FormatType) -> bool {
    &&& can_assemble(packet)
    &&& format_type is Json ==> spec_packet_size(packet) <= usize::MAX
}

/// Makes writers and readers for a format, and writes packets in one step.
pub struct FormatFactory;

impl FormatFactory {
    pub fn new() -> (factory: Self) {
        Self
    }

    /// A writer for the format, which has written nothing yet. The writer
    /// of the structured text includes the dump of the wire bytes.
    pub fn create_writer(&self, format_type: FormatType) -> (writer: AnyWriter)
        ensures
            writer.written() == Seq::<u8>::empty(),
            match format_type {
                FormatType::Pcap => writer is Pcap,
                FormatType::Json => writer matches AnyWriter::Json(serializer)
                    && serializer.include_raw_data,
            },
    {
        match format_type {
            FormatType::Pcap => AnyWriter::Pcap(PcapWriter::new()),
            FormatType::Json => AnyWriter::Json(JsonSerializer::new()),
        }
    }

    /// A reader for the format at the start of `data`. The reader of the
    /// structured text holds nothing, whatever `data` is.
    pub fn create_reader(&self, format_type: FormatType, data: Vec<u8>) -> (reader: AnyReader)
        ensures
            match format_type {
                FormatType::Pcap => reader matches AnyReader::Pcap(pcap) && pcap.data == data
                    && pcap.position == 0,
                FormatType::Json => reader is Json,
            },
    {
        match format_type {
            FormatType::Pcap => AnyReader::Pcap(PcapReader::new(data)),
            FormatType::Json => AnyReader::Json(JsonDeserializer::new()),
        }
    }

    /// Writes one packet in the format.
    pub fn write_packet(&self, packet: &NetworkPacket, format_type: FormatType) -> (res: Result<
        Vec<u8>,
    >)
        requires
            can_write_packet(*packet, format_type),
        ensures
            is_write_result(res, spec_write_packet(*packet, format_type)),
    {
        match format_type {
            FormatType::Pcap => {
                let mut writer = PcapWriter::new();
                writer.write_global_header()?;
                writer.write_packet(packet)?;
                let data = writer.into_data();
                assert(data@ =~= pcap_global_header() + pcap_record(assembled(*packet)));
                Ok(data)
            },
            FormatType::Json => {
                let serializer = JsonSerializer::new();
                let text = serializer.serialize_packet(packet)?;
                Ok(text.as_str().as_bytes_vec())
            },
        }
    }

    /// Writes a list of packets in the format.
    pub fn write_packets(&self, packets: &[NetworkPacket], format_type: FormatType) -> (res: Result<
        Vec<u8>,
    >)
        requires
            forall|i: int|
                0 <= i < packets@.len() ==> can_write_packet(#[trigger] packets@[i], format_type),
        ensures
            is_write_result(res, spec_write_packets(packets@, format_type)),
    {
        match format_type {
            FormatType::Pcap => {
                let ghost wires = wire_images(packets@);
                let mut writer = PcapWriter::new();
                writer.write_global_header()?;
                let mut i: usize = 0;
                assert(wires.take(0) =~= Seq::<Seq<u8>>::empty());
                assert(writer.buffer@ =~= pcap_global_header() + pcap_records(wires.take(0)));
                while i < packets.len()
                    invariant
                        i <= packets@.len(),
                        wires == wire_images(packets@),
                        forall|k: int|
                            0 <= k < packets@.len() ==> can_write_packet(
                                #[trigger] packets@[k],
                                format_type,
                            ),
                        writer.buffer@ == pcap_global_header() + pcap_records(wires.take(i as int)),
                    decreases packets@.len() - i,
                {
                    writer.write_packet(&packets[i])?;
                    proof {
                        lemma_pcap_records_split(wires, i as int);
                        assert(writer.buffer@ =~= pcap_global_header() + pcap_records(
                            wires.take(i + 1),
                        ));
                    }
                    i += 1;
                }
                assert(wires.take(i as int) =~= wires);
                Ok(writer.into_data())
            },
            FormatType::Json => {
                let serializer = JsonSerializer::new();
                let text = serializer.serialize_packets(packets)?;
                Ok(text.as_str().as_bytes_vec())
            },
        }
    }
}

} // verus!
