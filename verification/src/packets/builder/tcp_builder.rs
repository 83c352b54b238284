use crate::errors::errors::Result;
use crate::packets::builder::ipv4_builder::IP_PROTOCOL_TCP;
use crate::packets::ip::ipv4_pseudo_header;
use crate::packets::l4::tcp::{pack_tcp, tcp_segment};
use crate::structs::ipv4::Ipv4Addr;
use crate::structs::tcp::TcpHeader;
use crate::utils::checksum::{
    internet_checksum,
    lemma_checksum_verifies,
    spec_internet_checksum,
    with_word,
};
use crate::utils::convert_bytes::{convert_n_to_bytes, lemma_be_bytes_values};
use crate::utils::payload_size::{payload_len, spec_payload_len};
use vstd::prelude::*;

verus! {

/// Flag bit SYN, set on every header that is built.
pub const TCP_FLAG_SYN: u16 = 0x02;

/// The checksum of a TCP segment between two addresses: the Internet
/// checksum of the pseudo-header followed by the segment as `header` has it.
/// The segment length in the pseudo-header ignores options and is kept to
/// its sixteen bits.
pub open spec fn tcp_checksum(src_ip: Ipv4Addr, dst_ip: Ipv4Addr, header: TcpHeader) -> u16 {
    spec_internet_checksum(
        ipv4_pseudo_header(
            src_ip,
            dst_ip,
            IP_PROTOCOL_TCP,
            ((20 + spec_payload_len(header.payload)) % 0x1_0000) as u16,
        ) + tcp_segment(header),
    )
}

/// A segment that holds its checksum verifies: the checksum over the
/// pseudo-header and the segment, the checksum field included, is zero.
pub proof fn lemma_tcp_segment_verifies(src_ip: Ipv4Addr, dst_ip: Ipv4Addr, header: TcpHeader)
    requires
        header.checksum == tcp_checksum(src_ip, dst_ip, TcpHeader { checksum: 0, ..header }),
    ensures
        tcp_checksum(src_ip, dst_ip, header) == 0,
{
    let unsummed = TcpHeader { checksum: 0, ..header };
    let length = ((20 + spec_payload_len(header.payload)) % 0x1_0000) as u16;
    let pseudo = ipv4_pseudo_header(src_ip, dst_ip, IP_PROTOCOL_TCP, length);
    lemma_be_bytes_values(0);
    lemma_be_bytes_values(header.checksum as nat);
    assert(pseudo.len() == 12);
    assert(pseudo + tcp_segment(header) =~= with_word(
        pseudo + tcp_segment(unsummed),
        28,
        header.checksum,
    ));
    lemma_checksum_verifies(pseudo + tcp_segment(unsummed), 28);
}

/// `header` is what is built for the given ports and payload: a SYN with
/// the largest window, no options, and the checksum of the segment taken
/// with the checksum field at zero.
pub open spec fn is_built_tcp_header(
    header: TcpHeader,
    src_ip: Ipv4Addr,
    dst_ip: Ipv4Addr,
    src_port: u16,
    dst_port: u16,
    payload: Option<Vec<u8>>,
) -> bool {
    &&& header.src_port == src_port
    &&& header.dst_port == dst_port
    &&& header.sequence_number == 0
    &&& header.ack_nowledgment_number == 0
    &&& header.data_offset == 5
    &&& header.reserved == 0
    &&& header.flags == TCP_FLAG_SYN
    &&& header.window == 65535
    &&& header.urgent_pointer == 0
    &&& header.options is None
    &&& header.payload == payload
    &&& header.checksum == tcp_checksum(src_ip, dst_ip, TcpHeader { checksum: 0, ..header })
}

/// Builds TCP headers between two fixed addresses.
pub struct TcpBuilder {
    src_ip: Ipv4Addr,
    dst_ip: Ipv4Addr,
}

impl TcpBuilder {
    /// Source address that enters the checksums.
    pub closed spec fn src_ip(&self) -> Ipv4Addr {
        self.src_ip
    }

    /// Destination address that enters the checksums.
    pub closed spec fn dst_ip(&self) -> Ipv4Addr {
        self.dst_ip
    }

    pub fn new(src_ip: Ipv4Addr, dst_ip: Ipv4Addr) -> (builder: Self)
        ensures
            builder.src_ip() == src_ip,
            builder.dst_ip() == dst_ip,
    {
        Self { src_ip, dst_ip }
    }

    /// Builds the TCP header for the given ports around `payload`, checksum
    /// included. No handshake is implied: the header is a lone SYN.
    pub fn build_tcp_header(&self, src_port: u16, dst_port: u16, payload: Option<Vec<u8>>) -> (res:
        Result<TcpHeader>)
        requires
            20 + spec_payload_len(payload) <= usize::MAX,
        ensures
            res is Ok,
            is_built_tcp_header(
                res->Ok_0,
                self.src_ip(),
                self.dst_ip(),
                src_port,
                dst_port,
                payload,
            ),
    {
        let mut tcp_header = TcpHeader {
            src_port,
            dst_port,
            sequence_number: 0,
            ack_nowledgment_number: 0,
            data_offset: 5,
            reserved: 0,
            flags: TCP_FLAG_SYN,
            window: 65535,
            checksum: 0,
            urgent_pointer: 0,
            options: None,
            payload,
        };
        tcp_header.checksum = self.calculate_tcp_checksum(&tcp_header)?;

        Ok(tcp_header)
    }

    /// Checksum over the pseudo-header and the segment as serialised from
    /// `tcp_header`.
    fn calculate_tcp_checksum(&self, tcp_header: &TcpHeader) -> (res: Result<u16>)
        requires
            tcp_header.options is None,
            20 + spec_payload_len(tcp_header.payload) <= usize::MAX,
        ensures
            res is Ok,
            res->Ok_0 == tcp_checksum(self.src_ip(), self.dst_ip(), *tcp_header),
    {
        let mut pseudo_header: Vec<u8> = Vec::new();
        pseudo_header.extend_from_slice(&self.src_ip.octets);
        pseudo_header.extend_from_slice(&self.dst_ip.octets);
        pseudo_header.push(0);
        pseudo_header.push(IP_PROTOCOL_TCP);
        let tcp_length = 20 + payload_len(&tcp_header.payload);
        proof {
            vstd::arithmetic::power2::lemma2_to64();
        }
        let length_bytes = convert_n_to_bytes((tcp_length % 0x1_0000) as u16, 2)?;
        pseudo_header.extend_from_slice(&length_bytes);

        let segment = pack_tcp(tcp_header)?;

        let mut checksum_data = pseudo_header;
        checksum_data.extend_from_slice(&segment);
        assert(checksum_data@ =~= ipv4_pseudo_header(
            self.src_ip,
            self.dst_ip,
            IP_PROTOCOL_TCP,
            ((20 + spec_payload_len(tcp_header.payload)) % 0x1_0000) as u16,
        ) + tcp_segment(*tcp_header));

        Ok(internet_checksum(&checksum_data))
    }
}

} // verus!
