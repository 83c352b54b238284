use crate::errors::errors::Result;
use crate::packets::ip::{ipv4_fixed_header, pack_ipv4};
use crate::structs::ip::Ipv4Header;
use crate::structs::ipv4::Ipv4Addr;
use crate::structs::l4_protocol::L4Data;
use crate::utils::checksum::{
    internet_checksum,
    lemma_checksum_verifies,
    spec_internet_checksum,
    with_word,
};
use crate::utils::convert_bytes::lemma_be_bytes_values;
use crate::utils::payload_size::{payload_len, spec_payload_len};
use vstd::prelude::*;
use vstd::slice::slice_subrange;

verus! {

/// Protocol number of TCP in the IPv4 header.
pub const IP_PROTOCOL_TCP: u8 = 6;

/// Protocol number of UDP in the IPv4 header.
pub const IP_PROTOCOL_UDP: u8 = 17;

/// Number of bytes the transport layer occupies when it carries no options:
/// its fixed header and its payload.
pub open spec fn l4_length(l4_data: L4Data) -> nat {
    match l4_data {
        L4Data::Tcp(tcp) => spec_payload_len(tcp.payload) + 20,
        L4Data::Udp(udp) => spec_payload_len(udp.payload) + 8,
    }
}

/// Protocol number under which the transport layer travels.
pub open spec fn l4_protocol_number(l4_data: L4Data) -> u8 {
    match l4_data {
        L4Data::Tcp(_) => IP_PROTOCOL_TCP,
        L4Data::Udp(_) => IP_PROTOCOL_UDP,
    }
}

/// The checksum that belongs in `header`: the Internet checksum of its
/// twenty fixed bytes, taken with the checksum field at zero. Options are
/// not covered.
pub open spec fn ipv4_header_checksum(header: Ipv4Header) -> u16 {
    spec_internet_checksum(ipv4_fixed_header(Ipv4Header { header_checksum: 0, ..header }))
}

/// A header that holds its checksum verifies: the checksum over its twenty
/// fixed bytes, the checksum field included, is zero.
pub proof fn lemma_ipv4_header_verifies(header: Ipv4Header)
    requires
        header.header_checksum == ipv4_header_checksum(header),
    ensures
        spec_internet_checksum(ipv4_fixed_header(header)) == 0,
{
    let unsummed = Ipv4Header { header_checksum: 0, ..header };
    lemma_be_bytes_values(0);
    lemma_be_bytes_values(header.header_checksum as nat);
    assert(ipv4_fixed_header(header) =~= with_word(
        ipv4_fixed_header(unsummed),
        10,
        header.header_checksum,
    ));
    lemma_checksum_verifies(ipv4_fixed_header(unsummed), 10);
}

/// The header that is built for a transport layer between two addresses.
///
/// The three high bits of `ip_bitfield` are the flags; its five low bits are
/// the high bits of the fragment offset. The total length is kept to its
/// sixteen bits.
pub open spec fn spec_build_ipv4_header(
    src_ip: Ipv4Addr,
    dst_ip: Ipv4Addr,
    ip_bitfield: u8,
    l4_data: L4Data,
) -> Ipv4Header {
    let unsummed = Ipv4Header {
        version: 4,
        ihl: 5,
        dscp: 0,
        total_length: ((20 + l4_length(l4_data)) % 0x1_0000) as u16,
        identification: 0,
        flags: (ip_bitfield >> 5) & 0x07,
        fragment_offset: ((ip_bitfield & 0x1F) as u16) << 8,
        ttl: 64,
        protocol: l4_protocol_number(l4_data),
        header_checksum: 0,
        src_addr: src_ip.octets,
        dst_addr: dst_ip.octets,
        options: None,
    };
    Ipv4Header { header_checksum: ipv4_header_checksum(unsummed), ..unsummed }
}

/// Builds IPv4 headers between two fixed addresses.
pub struct Ipv4Builder {
    src_ip: Ipv4Addr,
    dst_ip: Ipv4Addr,
    ip_bitfield: u8,
}

impl Ipv4Builder {
    /// Source address of the headers this builder makes.
    pub closed spec fn src_ip(&self) -> Ipv4Addr {
        self.src_ip
    }

    /// Destination address of the headers this builder makes.
    pub closed spec fn dst_ip(&self) -> Ipv4Addr {
        self.dst_ip
    }

    /// The byte that the flags and the fragment offset are taken from.
    pub closed spec fn ip_bitfield(&self) -> u8 {
        self.ip_bitfield
    }

    pub fn new(src_ip: Ipv4Addr, dst_ip: Ipv4Addr, ip_bitfield: u8) -> (builder: Self)
        ensures
            builder.src_ip() == src_ip,
            builder.dst_ip() == dst_ip,
            builder.ip_bitfield() == ip_bitfield,
    {
        Self { src_ip, dst_ip, ip_bitfield }
    }

    /// Builds the IPv4 header that goes in front of `l4_data`, checksum
    /// included.
    pub fn build_ipv4_header(&self, l4_data: &L4Data) -> (res: Result<Ipv4Header>)
        requires
            20 + l4_length(*l4_data) <= usize::MAX,
        ensures
            res is Ok,
            res->Ok_0 == spec_build_ipv4_header(
                self.src_ip(),
                self.dst_ip(),
                self.ip_bitfield(),
                *l4_data,
            ),
    {
        let l4_length = match l4_data {
            L4Data::Tcp(tcp) => payload_len(&tcp.payload) + 20,
            L4Data::Udp(udp) => payload_len(&udp.payload) + 8,
        };
        let total_length = 20 + l4_length;
        let mut ipv4_header = Ipv4Header {
            version: 4,
            ihl: 5,
            dscp: 0,
            total_length: (total_length % 0x1_0000) as u16,
            identification: 0,
            flags: (self.ip_bitfield >> 5) & 0x07,
            fragment_offset: ((self.ip_bitfield & 0x1F) as u16) << 8,
            ttl: 64,
            protocol: match l4_data {
                L4Data::Tcp(_) => IP_PROTOCOL_TCP,
                L4Data::Udp(_) => IP_PROTOCOL_UDP,
            },
            header_checksum: 0,
            src_addr: self.src_ip.octets,
            dst_addr: self.dst_ip.octets,
            options: None,
        };

        ipv4_header.header_checksum = self.calculate_ipv4_checksum(&ipv4_header)?;

        Ok(ipv4_header)
    }

    /// Checksum of the twenty fixed bytes of `ipv4_header`, computed with the
    /// checksum field at zero.
    fn calculate_ipv4_checksum(&self, ipv4_header: &Ipv4Header) -> (res: Result<u16>)
        requires
            20 <= ipv4_header.ihl * 4 <= u8::MAX,
        ensures
            res is Ok,
            res->Ok_0 == ipv4_header_checksum(*ipv4_header),
    {
        let temp_header = Ipv4Header {
            version: ipv4_header.version,
            ihl: ipv4_header.ihl,
            dscp: ipv4_header.dscp,
            total_length: ipv4_header.total_length,
            identification: ipv4_header.identification,
            flags: ipv4_header.flags,
            fragment_offset: ipv4_header.fragment_offset,
            ttl: ipv4_header.ttl,
            protocol: ipv4_header.protocol,
            header_checksum: 0,
            src_addr: ipv4_header.src_addr,
            dst_addr: ipv4_header.dst_addr,
            options: None,
        };
        let no_payload: Vec<u8> = Vec::new();
        let ip_header_bytes = pack_ipv4(&temp_header, no_payload.as_slice())?;
        let header_for_checksum = slice_subrange(ip_header_bytes.as_slice(), 0, 20);
        assert(header_for_checksum@ =~= ipv4_fixed_header(
            Ipv4Header { header_checksum: 0, ..*ipv4_header },
        ));
        Ok(internet_checksum(header_for_checksum))
    }
}

} // verus!
