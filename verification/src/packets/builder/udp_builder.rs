use crate::errors::errors::Result;
use crate::packets::builder::ipv4_builder::IP_PROTOCOL_UDP;
use crate::packets::ip::ipv4_pseudo_header;
use crate::packets::l4::udp::{pack_udp, udp_datagram};
use crate::structs::ipv4::Ipv4Addr;
use crate::structs::udp::UdpHeader;
use crate::utils::checksum::{
    internet_checksum,
    lemma_checksum_verifies,
    spec_internet_checksum,
    with_word,
};
use crate::utils::convert_bytes::{convert_n_to_bytes, lemma_be_bytes_values};
use crate::utils::payload_size::{payload_len, spec_payload_len};
use vstd::prelude::*;

verus! {

/// The checksum of a UDP datagram between two addresses: the Internet
/// checksum of the pseudo-header, which repeats the length field, followed
/// by the datagram as `header` has it.
pub open spec fn udp_checksum(src_ip: Ipv4Addr, dst_ip: Ipv4Addr, header: UdpHeader) -> u16 {
    spec_internet_checksum(
        ipv4_pseudo_header(src_ip, dst_ip, IP_PROTOCOL_UDP, header.length) + udp_datagram(header),
    )
}

/// A datagram that holds its checksum verifies: the checksum over the
/// pseudo-header and the datagram, the checksum field included, is zero.
pub proof fn lemma_udp_datagram_verifies(src_ip: Ipv4Addr, dst_ip: Ipv4Addr, header: UdpHeader)
    requires
        header.checksum == udp_checksum(src_ip, dst_ip, UdpHeader { checksum: 0, ..header }),
    ensures
        udp_checksum(src_ip, dst_ip, header) == 0,
{
    let unsummed = UdpHeader { checksum: 0, ..header };
    let pseudo = ipv4_pseudo_header(src_ip, dst_ip, IP_PROTOCOL_UDP, header.length);
    lemma_be_bytes_values(0);
    lemma_be_bytes_values(header.checksum as nat);
    assert(pseudo.len() == 12);
    assert(pseudo + udp_datagram(header) =~= with_word(
        pseudo + udp_datagram(unsummed),
        18,
        header.checksum,
    ));
    lemma_checksum_verifies(pseudo + udp_datagram(unsummed), 18);
}

/// `header` is what is built for the given ports and payload: the length
/// covers header and payload, kept to its sixteen bits, and the checksum is
/// that of the datagram taken with the checksum field at zero.
pub open spec fn is_built_udp_header(
    header: UdpHeader,
    src_ip: Ipv4Addr,
    dst_ip: Ipv4Addr,
    src_port: u16,
    dst_port: u16,
    payload: Option<Vec<u8>>,
) -> bool {
    &&& header.src_port == src_port
    &&& header.dst_port == dst_port
    &&& header.length == ((8 + spec_payload_len(payload)) % 0x1_0000) as u16
    &&& header.payload == payload
    &&& header.checksum == udp_checksum(src_ip, dst_ip, UdpHeader { checksum: 0, ..header })
}

/// Builds UDP headers between two fixed addresses.
pub struct UdpBuilder {
    src_ip: Ipv4Addr,
    dst_ip: Ipv4Addr,
}

impl UdpBuilder {
    /// Source address that enters the checksums.
    pub closed spec fn src_ip(&self) -> Ipv4Addr {
        self.src_ip
    }

    /// Destination address that enters the checksums.
    pub closed spec fn dst_ip(&self) -> Ipv4Addr {
        self.dst_ip
    }

    pub fn new(src_ip: Ipv4Addr, dst_ip: Ipv4Addr) -> (builder: Self)
        ensures
            builder.src_ip() == src_ip,
            builder.dst_ip() == dst_ip,
    {
        Self { src_ip, dst_ip }
    }

    /// Builds the UDP header for the given ports around `payload`, length
    /// and checksum included.
    pub fn build_udp_header(&self, src_port: u16, dst_port: u16, payload: Option<Vec<u8>>) -> (res:
        Result<UdpHeader>)
        requires
            8 + spec_payload_len(payload) <= usize::MAX,
        ensures
            res is Ok,
            is_built_udp_header(
                res->Ok_0,
                self.src_ip(),
                self.dst_ip(),
                src_port,
                dst_port,
                payload,
            ),
    {
        let udp_length = 8 + payload_len(&payload);

        let mut udp_header = UdpHeader {
            src_port,
            dst_port,
            length: (udp_length % 0x1_0000) as u16,
            checksum: 0,
            payload,
        };

        udp_header.checksum = self.calculate_udp_checksum(&udp_header)?;

        Ok(udp_header)
    }

    /// Checksum over the pseudo-header and the datagram as serialised from
    /// `udp_header`.
    fn calculate_udp_checksum(&self, udp_header: &UdpHeader) -> (res: Result<u16>)
        requires
            8 + spec_payload_len(udp_header.payload) <= usize::MAX,
        ensures
            res is Ok,
            res->Ok_0 == udp_checksum(self.src_ip(), self.dst_ip(), *udp_header),
    {
        let mut pseudo_header: Vec<u8> = Vec::new();
        pseudo_header.extend_from_slice(&self.src_ip.octets);
        pseudo_header.extend_from_slice(&self.dst_ip.octets);
        pseudo_header.push(0);
        pseudo_header.push(IP_PROTOCOL_UDP);
        proof {
            vstd::arithmetic::power2::lemma2_to64();
        }
        let length_bytes = convert_n_to_bytes(udp_header.length, 2)?;
        pseudo_header.extend_from_slice(&length_bytes);
        let datagram = pack_udp(udp_header)?;
        let mut checksum_data = pseudo_header;
        checksum_data.extend_from_slice(&datagram);
        assert(checksum_data@ =~= ipv4_pseudo_header(
            self.src_ip,
            self.dst_ip,
            IP_PROTOCOL_UDP,
            udp_header.length,
        ) + udp_datagram(*udp_header));
        Ok(internet_checksum(&checksum_data))
    }
}

} // verus!
