use crate::errors::errors::{ParseError, Result};
use crate::packets::builder::packet_assembler::{assembled, can_assemble};
use crate::structs::network_packet::NetworkPacket;
use crate::structs::pcap::{PcapReader, PcapWriter};
use vstd::prelude::*;

verus! {

/// Magic number of a capture file, as read in little-endian order.
pub const PCAP_MAGIC: u32 = 0xA1B2_C3D4;

/// Length of the header at the start of a capture file.
pub const PCAP_GLOBAL_HEADER_LEN: usize = 24;

/// Length of the header in front of each captured packet.
pub const PCAP_RECORD_HEADER_LEN: usize = 16;

/// The four bytes of `value`, least significant first.
pub open spec fn le_bytes32(value: u32) -> Seq<u8> {
    seq![
        (value as nat % 256) as u8,
        (value as nat / 0x100 % 256) as u8,
        (value as nat / 0x1_0000 % 256) as u8,
        (value as nat / 0x100_0000 % 256) as u8,
    ]
}

/// The number that the four bytes from `at` on hold, least significant first.
pub open spec fn le_value32(data: Seq<u8>, at: int) -> nat {
    (data[at] as nat) + (data[at + 1] as nat) * 0x100 + (data[at + 2] as nat) * 0x1_0000 + (data[at
        + 3] as nat) * 0x100_0000
}

/// The header at the start of every capture file: magic number, version
/// 2.4, no time zone offset, no accuracy, a snapshot length of 65535 and
/// the link type of Ethernet, each in little-endian order.
pub open spec fn pcap_global_header() -> Seq<u8> {
    seq![
        0xD4u8, 0xC3u8, 0xB2u8, 0xA1u8,
        0x02u8, 0x00u8, 0x04u8, 0x00u8,
        0x00u8, 0x00u8, 0x00u8, 0x00u8,
        0x00u8, 0x00u8, 0x00u8, 0x00u8,
        0xFFu8, 0xFFu8, 0x00u8, 0x00u8,
        0x01u8, 0x00u8, 0x00u8, 0x00u8,
    ]
}

/// The length of a packet as a record header holds it, in 32 bits.
pub open spec fn recorded_len(data: Seq<u8>) -> u32 {
    (data.len() % 0x1_0000_0000) as u32
}

/// One record: a timestamp of zero seconds and zero microseconds, the
/// captured length, the length on the wire, and the bytes of the packet.
pub open spec fn pcap_record(data: Seq<u8>) -> Seq<u8> {
    le_bytes32(0) + le_bytes32(0) + le_bytes32(recorded_len(data)) + le_bytes32(
        recorded_len(data),
    ) + data
}

/// The records of `packets`, one after the other.
pub open spec fn pcap_records(packets: Seq<Seq<u8>>) -> Seq<u8>
    decreases packets.len(),
{
    if packets.len() == 0 {
        Seq::empty()
    } else {
        pcap_record(packets.first()) + pcap_records(packets.drop_first())
    }
}

/// A capture file that holds `packets` in order.
pub open spec fn pcap_file(packets: Seq<Seq<u8>>) -> Seq<u8> {
    pcap_global_header() + pcap_records(packets)
}

/// Where the reader stands after the header of `data` was checked: the
/// file has to hold a whole header that starts with the magic number.
pub open spec fn spec_read_global_header(data: Seq<u8>) -> core::result::Result<int, ParseError> {
    if data.len() < 24 {
        Err(ParseError::InvalidFormat("PCAP header too short"))
    } else if le_value32(data, 0) != PCAP_MAGIC {
        Err(ParseError::InvalidFormat("Invalid PCAP magic number"))
    } else {
        Ok(24)
    }
}

/// A read found the end of the records, a packet, or a record that is cut
/// short.
pub enum ReadOutcome {
    End,
    Packet(Seq<u8>),
    Truncated,
}

/// What reading the record at `position` finds. With fewer than sixteen
/// bytes left there is no further record. A record whose captured length
/// exceeds what follows its header is cut short.
pub open spec fn spec_read_outcome(data: Seq<u8>, position: int) -> ReadOutcome {
    if position + 16 > data.len() {
        ReadOutcome::End
    } else if position + 16 + le_value32(data, position + 8) > data.len() {
        ReadOutcome::Truncated
    } else {
        ReadOutcome::Packet(
            data.subrange(position + 16, position + 16 + le_value32(data, position + 8)),
        )
    }
}

/// Where the reader stands after it read the record at `position`: where
/// it was at the end of the records, behind the header of a record that is
/// cut short, and else behind the packet.
pub open spec fn spec_position_after_read(data: Seq<u8>, position: int) -> int {
    match spec_read_outcome(data, position) {
        ReadOutcome::End => position,
        ReadOutcome::Truncated => position + 16,
        ReadOutcome::Packet(packet) => position + 16 + packet.len(),
    }
}

/// Whether a reader at `position` has anything left before the end of `data`.
pub open spec fn spec_has_more_packets(data: Seq<u8>, position: int) -> bool {
    position < data.len()
}

/// Offset of record `k` in a capture file that holds `packets`.
pub open spec fn record_offset(packets: Seq<Seq<u8>>, k: int) -> int {
    24 + pcap_records(packets.take(k)).len() as int
}

/// The four bytes that encode a 32-bit number decode to it.
pub proof fn lemma_le32_round_trip(value: u32, data: Seq<u8>, at: int)
    requires
        0 <= at,
        at + 4 <= data.len(),
        data.subrange(at, at + 4) == le_bytes32(value),
    ensures
        le_value32(data, at) == value,
{
    let b = le_bytes32(value);
    assert(data[at] == data.subrange(at, at + 4)[0]);
    assert(data[at + 1] == data.subrange(at, at + 4)[1]);
    assert(data[at + 2] == data.subrange(at, at + 4)[2]);
    assert(data[at + 3] == data.subrange(at, at + 4)[3]);
    let v = value as nat;
    assert(v == v % 256 + (v / 0x100 % 256) * 0x100 + (v / 0x1_0000 % 256) * 0x1_0000 + (v
        / 0x100_0000 % 256) * 0x100_0000) by (nonlinear_arith)
        requires
            v < 0x1_0000_0000,
    ;
}

/// The records of a list are those of its first `k` packets, the record
/// of packet `k`, and the records of the packets after it.
pub proof fn lemma_pcap_records_split(packets: Seq<Seq<u8>>, k: int)
    requires
        0 <= k < packets.len(),
    ensures
        pcap_records(packets) == pcap_records(packets.take(k)) + pcap_record(packets[k])
            + pcap_records(packets.skip(k + 1)),
        pcap_records(packets.take(k + 1)) == pcap_records(packets.take(k)) + pcap_record(packets[k]),
    decreases k,
{
    if k == 0 {
        assert(packets.take(0) =~= Seq::<Seq<u8>>::empty());
        assert(packets.skip(1) =~= packets.drop_first());
        assert(packets.take(1).drop_first() =~= Seq::<Seq<u8>>::empty());
        assert(pcap_records(packets) =~= pcap_records(packets.take(0)) + pcap_record(packets[0])
            + pcap_records(packets.skip(1)));
        assert(pcap_records(packets.take(1)) =~= pcap_records(packets.take(0)) + pcap_record(
            packets[0],
        ));
    } else {
        let rest = packets.drop_first();
        lemma_pcap_records_split(rest, k - 1);
        assert(rest.take(k - 1) =~= packets.take(k).drop_first());
        assert(rest.take(k) =~= packets.take(k + 1).drop_first());
        assert(rest.skip(k) =~= packets.skip(k + 1));
        assert(packets.take(k).first() == packets.first());
        assert(packets.take(k + 1).first() == packets.first());
        assert(pcap_records(packets) =~= pcap_records(packets.take(k)) + pcap_record(packets[k])
            + pcap_records(packets.skip(k + 1)));
        assert(pcap_records(packets.take(k + 1)) =~= pcap_records(packets.take(k)) + pcap_record(
            packets[k],
        ));
    }
}

/// A record is sixteen bytes of header and the packet; the captured
/// length stands at offset eight.
proof fn lemma_pcap_record_layout(packet: Seq<u8>)
    ensures
        pcap_record(packet).len() == 16 + packet.len(),
        pcap_record(packet).subrange(8, 12) == le_bytes32(recorded_len(packet)),
        pcap_record(packet).subrange(16, 16 + packet.len() as int) == packet,
{
    let record = pcap_record(packet);
    assert(record.subrange(8, 12) =~= le_bytes32(recorded_len(packet)));
    assert(record.subrange(16, 16 + packet.len() as int) =~= packet);
}

/// The header of a capture file is accepted whatever follows it.
proof fn lemma_pcap_header_accepted(records: Seq<u8>)
    ensures
        spec_read_global_header(pcap_global_header() + records) == Ok::<int, ParseError>(24),
{
    let data = pcap_global_header() + records;
    assert(data[0] == 0xD4 && data[1] == 0xC3 && data[2] == 0xB2 && data[3] == 0xA1);
}

/// In a file where `record` stands at `at`, the read at `at` yields the
/// packet of the record and ends behind it.
proof fn lemma_pcap_read_record(data: Seq<u8>, at: int, packet: Seq<u8>)
    requires
        0 <= at,
        at + 16 + packet.len() <= data.len(),
        packet.len() < 0x1_0000_0000,
        data.subrange(at, at + 16 + packet.len()) == pcap_record(packet),
    ensures
        spec_read_outcome(data, at) == ReadOutcome::Packet(packet),
        spec_position_after_read(data, at) == at + 16 + packet.len(),
{
    lemma_pcap_record_layout(packet);
    let record = data.subrange(at, at + 16 + packet.len());
    assert(data.subrange(at + 8, at + 12) =~= record.subrange(8, 12));
    lemma_le32_round_trip(recorded_len(packet), data, at + 8);
    assert(data.subrange(at + 16, at + 16 + packet.len()) =~= record.subrange(
        16,
        16 + packet.len() as int,
    ));
}

/// Reading back what was written recovers the packets, in order.
///
/// In a capture file that holds `packets`, each shorter than 2^32 bytes,
/// the header is accepted and leaves the reader at the first record. At
/// record `k` there is more to read, the read yields packet `k` byte for
/// byte and leaves the reader at record `k + 1`. Behind the last record
/// the reader is at the end of the file: nothing more is there, and a
/// read yields no packet.
pub proof fn lemma_pcap_round_trip(packets: Seq<Seq<u8>>, k: int)
    requires
        0 <= k <= packets.len(),
        forall|i: int| 0 <= i < packets.len() ==> (#[trigger] packets[i]).len() < 0x1_0000_0000,
    ensures
        spec_read_global_header(pcap_file(packets)) == Ok::<int, ParseError>(
            record_offset(packets, 0),
        ),
        k < packets.len() ==> {
            &&& spec_has_more_packets(pcap_file(packets), record_offset(packets, k))
            &&& spec_read_outcome(pcap_file(packets), record_offset(packets, k))
                == ReadOutcome::Packet(packets[k])
            &&& spec_position_after_read(pcap_file(packets), record_offset(packets, k))
                == record_offset(packets, k + 1)
        },
        k == packets.len() ==> {
            &&& record_offset(packets, k) == pcap_file(packets).len()
            &&& !spec_has_more_packets(pcap_file(packets), record_offset(packets, k))
            &&& spec_read_outcome(pcap_file(packets), record_offset(packets, k)) == ReadOutcome::End
        },
{
    let data = pcap_file(packets);
    assert(packets.take(0) =~= Seq::<Seq<u8>>::empty());
    lemma_pcap_header_accepted(pcap_records(packets));
    assert(pcap_global_header().len() == 24);
    if k < packets.len() {
        lemma_pcap_records_split(packets, k);
        lemma_pcap_record_layout(packets[k]);
        let at = record_offset(packets, k);
        let before = pcap_records(packets.take(k));
        let record = pcap_record(packets[k]);
        let after = pcap_records(packets.skip(k + 1));
        assert(data =~= pcap_global_header() + before + record + after);
        assert(data.subrange(at, at + 16 + packets[k].len()) =~= record);
        lemma_pcap_read_record(data, at, packets[k]);
    } else {
        assert(packets.take(k) =~= packets);
    }
}

/// The four bytes of `value`, least significant first.
fn u32_le_bytes(value: u32) -> (bytes: [u8; 4])
    ensures
        bytes@ == le_bytes32(value),
{
    let b0: u32 = value & 0xFF;
    let b1: u32 = (value >> 8) & 0xFF;
    let b2: u32 = (value >> 16) & 0xFF;
    let b3: u32 = (value >> 24) & 0xFF;
    assert(b0 == value % 256 && b1 == value / 0x100 % 256 && b2 == value / 0x1_0000 % 256 && b3
        == value / 0x100_0000 % 256) by (bit_vector)
        requires
            b0 == value & 0xFF,
            b1 == (value >> 8) & 0xFF,
            b2 == (value >> 16) & 0xFF,
            b3 == (value >> 24) & 0xFF,
    ;
    let bytes: [u8; 4] = [b0 as u8, b1 as u8, b2 as u8, b3 as u8];
    assert(bytes@ =~= le_bytes32(value));
    bytes
}

/// The number that the four bytes of `data` from `at` on hold, least
/// significant first.
fn u32_from_le_bytes(data: &Vec<u8>, at: usize) -> (value: u32)
    requires
        at + 4 <= data.len(),
    ensures
        value == le_value32(data@, at as int),
{
    let b0: u8 = data[at];
    let b1: u8 = data[at + 1];
    let b2: u8 = data[at + 2];
    let b3: u8 = data[at + 3];
    let value: u32 = (b0 as u32) | ((b1 as u32) << 8) | ((b2 as u32) << 16) | ((b3 as u32) << 24);
    assert(value == (b0 as nat) + (b1 as nat) * 0x100 + (b2 as nat) * 0x1_0000 + (b3 as nat)
        * 0x100_0000) by (bit_vector)
        requires
            value == (b0 as u32) | ((b1 as u32) << 8) | ((b2 as u32) << 16) | ((b3 as u32) << 24),
    ;
    value
}

/// The time at which a packet is recorded. No clock is read: every packet
/// is recorded at time zero.
fn get_timestamp() -> (timestamp: u64)
    ensures
        timestamp == 0,
{
    0
}

impl PcapWriter {
    /// A writer that holds nothing yet.
    pub fn new() -> (writer: Self)
        ensures
            writer.buffer@ == Seq::<u8>::empty(),
    {
        Self { buffer: Vec::new() }
    }

    /// Appends the header that starts a capture file.
    pub fn write_global_header(&mut self) -> (res: Result<()>)
        ensures
            res is Ok,
            final(self).buffer@ == old(self).buffer@ + pcap_global_header(),
    {
        let global_header: [u8; 24] = [
            0xD4, 0xC3, 0xB2, 0xA1,
            0x02, 0x00, 0x04, 0x00,
            0x00, 0x00, 0x00, 0x00,
            0x00, 0x00, 0x00, 0x00,
            0xFF, 0xFF, 0x00, 0x00,
            0x01, 0x00, 0x00, 0x00,
        ];
        assert(global_header@ =~= pcap_global_header());
        self.buffer.extend_from_slice(&global_header);
        Ok(())
    }

    /// Appends the record of `packet`: its header, then its wire bytes.
    pub fn write_packet(&mut self, packet: &NetworkPacket) -> (res: Result<()>)
        requires
            can_assemble(*packet),
        ensures
            res is Ok,
            final(self).buffer@ == old(self).buffer@ + pcap_record(assembled(*packet)),
    {
        let packet_data = packet.assemble_packet()?;
        let timestamp = get_timestamp();

        let seconds: u64 = timestamp & 0xFFFF_FFFF;
        let microseconds: u64 = (timestamp >> 32) & 0xFFFF_FFFF;
        assert(seconds == 0 && microseconds == 0) by (bit_vector)
            requires
                timestamp == 0,
                seconds == timestamp & 0xFFFF_FFFF,
                microseconds == (timestamp >> 32) & 0xFFFF_FFFF,
        ;
        let length: u32 = ((packet_data.len() as u64) % 0x1_0000_0000) as u32;

        self.buffer.extend_from_slice(&u32_le_bytes(seconds as u32));
        self.buffer.extend_from_slice(&u32_le_bytes(microseconds as u32));
        self.buffer.extend_from_slice(&u32_le_bytes(length));
        self.buffer.extend_from_slice(&u32_le_bytes(length));
        self.buffer.extend_from_slice(&packet_data);
        assert(self.buffer@ =~= old(self).buffer@ + pcap_record(assembled(*packet)));

        Ok(())
    }

    /// What was written so far.
    pub fn get_data(&self) -> (data: &[u8])
        ensures
            data@ == self.buffer@,
    {
        self.buffer.as_slice()
    }

    /// Gives up the writer for what was written.
    pub fn into_data(self) -> (data: Vec<u8>)
        ensures
            data@ == self.buffer@,
    {
        self.buffer
    }
}

impl PcapReader {
    /// A reader at the start of `data`.
    pub fn new(data: Vec<u8>) -> (reader: Self)
        ensures
            reader.data == data,
            reader.position == 0,
    {
        Self { data, position: 0 }
    }

    /// Checks the header at the start of the file and moves behind it.
    /// When the header is refused the reader stays where it was.
    pub fn read_global_header(&mut self) -> (res: Result<()>)
        ensures
            final(self).data == old(self).data,
            match spec_read_global_header(old(self).data@) {
                Ok(position) => res is Ok && final(self).position == position,
                Err(e) => res == Err::<(), ParseError>(e) && final(self).position == old(
                    self,
                ).position,
            },
    {
        if self.data.len() < PCAP_GLOBAL_HEADER_LEN {
            return Err(ParseError::InvalidFormat("PCAP header too short"));
        }
        let magic = u32_from_le_bytes(&self.data, 0);

        if magic != PCAP_MAGIC {
            return Err(ParseError::InvalidFormat("Invalid PCAP magic number"));
        }
        self.position = PCAP_GLOBAL_HEADER_LEN;
        Ok(())
    }

    /// Reads the record at the current position: its packet, or `None`
    /// where fewer than sixteen bytes are left. A record that announces more
    /// bytes than follow its header is refused, with the reader left behind
    /// that header.
    pub fn read_next_packet(&mut self) -> (res: Result<Option<Vec<u8>>>)
        ensures
            final(self).data == old(self).data,
            final(self).position == spec_position_after_read(
                old(self).data@,
                old(self).position as int,
            ),
            match spec_read_outcome(old(self).data@, old(self).position as int) {
                ReadOutcome::End => res == Ok::<Option<Vec<u8>>, ParseError>(None),
                ReadOutcome::Packet(packet) => res matches Ok(Some(bytes)) && bytes@ == packet,
                ReadOutcome::Truncated => res == Err::<Option<Vec<u8>>, ParseError>(
                    ParseError::InvalidFormat("PCAP packet data truncated"),
                ),
            },
    {
        if self.position > self.data.len() || self.data.len() - self.position
            < PCAP_RECORD_HEADER_LEN {
            return Ok(None);
        }
        let _timestamp_sec = u32_from_le_bytes(&self.data, self.position);
        let _timestamp_usec = u32_from_le_bytes(&self.data, self.position + 4);
        let caplen = u32_from_le_bytes(&self.data, self.position + 8);
        let _len = u32_from_le_bytes(&self.data, self.position + 12);

        self.position += PCAP_RECORD_HEADER_LEN;

        if caplen as u64 > (self.data.len() - self.position) as u64 {
            return Err(ParseError::InvalidFormat("PCAP packet data truncated"));
        }
        let end: usize = self.position + caplen as usize;
        let packet_data = vstd::slice::slice_to_vec(
            vstd::slice::slice_subrange(self.data.as_slice(), self.position, end),
        );
        self.position = end;

        Ok(Some(packet_data))
    }

    /// Whether the reader stands before the end of the file.
    pub fn has_more_packets(&self) -> (more: bool)
        ensures
            more == spec_has_more_packets(self.data@, self.position as int),
    {
        self.position < self.data.len()
    }
}

} // verus!
