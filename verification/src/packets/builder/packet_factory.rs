use crate::errors::errors::{ParseError, Result};
use crate::packets::builder::ethernet_builder::{EthernetBuilder, ETHERTYPE_IPV4};
use crate::packets::builder::ipv4_builder::{
    ipv4_header_checksum,
    l4_protocol_number,
    spec_build_ipv4_header,
    Ipv4Builder,
};
use crate::packets::builder::packet_assembler::{can_assemble, has_plain_headers, l4_bytes};
use crate::packets::builder::tcp_builder::{is_built_tcp_header, tcp_checksum, TcpBuilder};
use crate::packets::builder::udp_builder::{is_built_udp_header, udp_checksum, UdpBuilder};
use crate::parsing::my_parser::{parse_ipv4, spec_parse_ipv4};
use crate::structs::ip::Ipv4Header;
use crate::structs::ipv4::Ipv4Addr;
use crate::structs::l4_protocol::{L4Data, L4Protocol};
use crate::structs::network_packet::NetworkPacket;
use crate::structs::packet_builder::PacketBuilder;
use crate::structs::tcp::TcpHeader;
use crate::structs::udp::UdpHeader;
use crate::utils::convert_string::str_equals;
use crate::utils::payload_size::{payload_view, spec_payload_len};
use vstd::prelude::*;
use vstd::string::StringSliceAdditionalSpecFns;

verus! {

/// `l4_data` is the transport layer that is built for `builder` between the
/// two addresses: the header of the chosen protocol, around a payload with
/// the bytes of the builder's.
pub open spec fn is_built_l4_data(
    l4_data: L4Data,
    src_ip: Ipv4Addr,
    dst_ip: Ipv4Addr,
    builder: PacketBuilder,
) -> bool {
    match builder.protocol {
        L4Protocol::Tcp => l4_data matches L4Data::Tcp(tcp) && payload_view(tcp.payload)
            == payload_view(builder.payload) && is_built_tcp_header(
            tcp,
            src_ip,
            dst_ip,
            builder.src_port,
            builder.dst_port,
            tcp.payload,
        ),
        L4Protocol::Udp => l4_data matches L4Data::Udp(udp) && payload_view(udp.payload)
            == payload_view(builder.payload) && is_built_udp_header(
            udp,
            src_ip,
            dst_ip,
            builder.src_port,
            builder.dst_port,
            udp.payload,
        ),
    }
}

/// `packet` is the packet that is built for `builder` between the two
/// addresses, with flags and fragment offset taken from `ip_bitfield`.
pub open spec fn is_built_packet(
    packet: NetworkPacket,
    src_ip: Ipv4Addr,
    dst_ip: Ipv4Addr,
    ip_bitfield: u8,
    builder: PacketBuilder,
) -> bool {
    &&& is_built_l4_data(packet.l4_data, src_ip, dst_ip, builder)
    &&& packet.ipv4 == spec_build_ipv4_header(src_ip, dst_ip, ip_bitfield, packet.l4_data)
    &&& packet.ethernet.src_mac == builder.src_mac
    &&& packet.ethernet.dst_mac == builder.dst_mac
    &&& packet.ethernet.ethertype == ETHERTYPE_IPV4
}

/// The lengths and checksums that the headers of `packet` hold are those of
/// its contents: the IPv4 total length counts the header and the transport
/// layer, the IPv4 checksum is that of the fixed header, a UDP length counts
/// header and payload, and the transport checksum is that of the segment or
/// datagram between the two addresses of the IPv4 header. Lengths are kept
/// to their sixteen bits, and each checksum is taken with its own field at
/// zero.
pub open spec fn is_consistent(packet: NetworkPacket) -> bool {
    let src_ip = Ipv4Addr { octets: packet.ipv4.src_addr };
    let dst_ip = Ipv4Addr { octets: packet.ipv4.dst_addr };
    &&& packet.ipv4.total_length == ((packet.ipv4.ihl * 4 + l4_bytes(packet.l4_data).len())
        % 0x1_0000) as u16
    &&& packet.ipv4.header_checksum == ipv4_header_checksum(packet.ipv4)
    &&& packet.ipv4.protocol == l4_protocol_number(packet.l4_data)
    &&& match packet.l4_data {
        L4Data::Tcp(tcp) => tcp.checksum == tcp_checksum(
            src_ip,
            dst_ip,
            TcpHeader { checksum: 0, ..tcp },
        ),
        L4Data::Udp(udp) => {
            &&& udp.length == ((8 + spec_payload_len(udp.payload)) % 0x1_0000) as u16
            &&& udp.checksum == udp_checksum(src_ip, dst_ip, UdpHeader { checksum: 0, ..udp })
        },
    }
}

/// Every built packet is consistent: its lengths and checksums are those
/// of its contents.
pub proof fn lemma_built_packet_is_consistent(
    packet: NetworkPacket,
    src_ip: Ipv4Addr,
    dst_ip: Ipv4Addr,
    ip_bitfield: u8,
    builder: PacketBuilder,
)
    requires
        is_built_packet(packet, src_ip, dst_ip, ip_bitfield, builder),
    ensures
        is_consistent(packet),
{
    assert(Ipv4Header { header_checksum: 0, ..packet.ipv4 } == Ipv4Header {
        header_checksum: 0,
        ..spec_build_ipv4_header(src_ip, dst_ip, ip_bitfield, packet.l4_data)
    });
}

/// A built packet carries no options, so it can be assembled and its
/// computed size is the size of its wire image.
pub proof fn lemma_built_packet_is_plain(
    packet: NetworkPacket,
    src_ip: Ipv4Addr,
    dst_ip: Ipv4Addr,
    ip_bitfield: u8,
    builder: PacketBuilder,
)
    requires
        is_built_packet(packet, src_ip, dst_ip, ip_bitfield, builder),
    ensures
        has_plain_headers(packet),
        54 + spec_payload_len(builder.payload) <= usize::MAX ==> can_assemble(packet),
{
}

/// Source MAC address of a packet for which none is given.
pub open spec fn default_src_mac() -> [u8; 6] {
    [0x00u8, 0x00u8, 0x00u8, 0x00u8, 0x00u8, 0x00u8]
}

/// Destination MAC address of a packet for which none is given: broadcast.
pub open spec fn default_dst_mac() -> [u8; 6] {
    [0xFFu8, 0xFFu8, 0xFFu8, 0xFFu8, 0xFFu8, 0xFFu8]
}

/// Source port of a packet for which none is given.
pub const DEFAULT_SRC_PORT: u16 = 12345;

/// Destination port of a packet for which none is given.
pub const DEFAULT_DST_PORT: u16 = 80;

/// The protocol that a name selects: `udp` selects UDP, and every other
/// name, or none, selects TCP.
pub open spec fn spec_protocol(l4_protocol: Option<&str>) -> L4Protocol {
    match l4_protocol {
        Some(name) => if name@ == "udp"@ {
            L4Protocol::Udp
        } else {
            L4Protocol::Tcp
        },
        None => L4Protocol::Tcp,
    }
}

/// The address that a required parameter gives: it has to be there, and it
/// has to parse.
pub open spec fn required_address(text: Option<&str>, field: &'static str) -> core::result::Result<
    Ipv4Addr,
    ParseError,
> {
    match text {
        None => Err(ParseError::MissingRequiredField(field)),
        Some(s) => spec_parse_ipv4(s.spec_bytes()),
    }
}

/// The parameters that are left once both addresses are known: every
/// absent one takes its default.
pub open spec fn normalized_params(
    src_ip: Ipv4Addr,
    dst_ip: Ipv4Addr,
    src_mac: Option<[u8; 6]>,
    dst_mac: Option<[u8; 6]>,
    src_port: Option<u16>,
    dst_port: Option<u16>,
    l4_protocol: Option<&str>,
    ip_bitfield: Option<u8>,
    payload: Option<Vec<u8>>,
) -> PacketBuilder {
    PacketBuilder {
        src_ip,
        dst_ip,
        src_mac: match src_mac {
            Some(mac) => mac,
            None => default_src_mac(),
        },
        dst_mac: match dst_mac {
            Some(mac) => mac,
            None => default_dst_mac(),
        },
        src_port: match src_port {
            Some(port) => port,
            None => DEFAULT_SRC_PORT,
        },
        dst_port: match dst_port {
            Some(port) => port,
            None => DEFAULT_DST_PORT,
        },
        protocol: spec_protocol(l4_protocol),
        ip_bitfield: match ip_bitfield {
            Some(bits) => bits,
            None => 0,
        },
        payload,
    }
}

/// What normalising a set of construction parameters yields. Both addresses
/// are required; the source address is looked at first.
pub open spec fn spec_from_cli_args(
    src_ip: Option<&str>,
    dst_ip: Option<&str>,
    src_mac: Option<[u8; 6]>,
    dst_mac: Option<[u8; 6]>,
    src_port: Option<u16>,
    dst_port: Option<u16>,
    l4_protocol: Option<&str>,
    ip_bitfield: Option<u8>,
    payload: Option<Vec<u8>>,
) -> core::result::Result<PacketBuilder, ParseError> {
    match required_address(src_ip, "src_ip") {
        Err(e) => Err(e),
        Ok(src) => match required_address(dst_ip, "dst_ip") {
            Err(e) => Err(e),
            Ok(dst) => Ok(
                normalized_params(
                    src,
                    dst,
                    src_mac,
                    dst_mac,
                    src_port,
                    dst_port,
                    l4_protocol,
                    ip_bitfield,
                    payload,
                ),
            ),
        },
    }
}

/// Fills in the defaults of the parameters other than the addresses.
pub(crate) fn normalize_params(
    src_ip: Ipv4Addr,
    dst_ip: Ipv4Addr,
    src_mac: Option<[u8; 6]>,
    dst_mac: Option<[u8; 6]>,
    src_port: Option<u16>,
    dst_port: Option<u16>,
    l4_protocol: Option<&str>,
    ip_bitfield: Option<u8>,
    payload: Option<Vec<u8>>,
) -> (builder: PacketBuilder)
    ensures
        builder == normalized_params(
            src_ip,
            dst_ip,
            src_mac,
            dst_mac,
            src_port,
            dst_port,
            l4_protocol,
            ip_bitfield,
            payload,
        ),
{
    let src_mac = match src_mac {
        Some(mac) => mac,
        None => [0x00, 0x00, 0x00, 0x00, 0x00, 0x00],
    };
    let dst_mac = match dst_mac {
        Some(mac) => mac,
        None => [0xFF, 0xFF, 0xFF, 0xFF, 0xFF, 0xFF],
    };
    let src_port = match src_port {
        Some(port) => port,
        None => DEFAULT_SRC_PORT,
    };
    let dst_port = match dst_port {
        Some(port) => port,
        None => DEFAULT_DST_PORT,
    };
    let protocol = match l4_protocol {
        Some(name) => if str_equals(name, "udp") {
            L4Protocol::Udp
        } else {
            L4Protocol::Tcp
        },
        None => L4Protocol::Tcp,
    };
    let ip_bitfield = match ip_bitfield {
        Some(bits) => bits,
        None => 0x00,
    };
    PacketBuilder {
        src_ip,
        dst_ip,
        src_mac,
        dst_mac,
        src_port,
        dst_port,
        protocol,
        ip_bitfield,
        payload,
    }
}

/// Builds whole packets between two fixed addresses.
pub struct PacketFactory {
    tcp_builder: TcpBuilder,
    udp_builder: UdpBuilder,
    ipv4_builder: Ipv4Builder,
    ethernet_builder: EthernetBuilder,
}

impl PacketFactory {
    /// The addresses and the bitfield are the same in every builder.
    pub closed spec fn wf(&self) -> bool {
        &&& self.tcp_builder.src_ip() == self.ipv4_builder.src_ip()
        &&& self.tcp_builder.dst_ip() == self.ipv4_builder.dst_ip()
        &&& self.udp_builder.src_ip() == self.ipv4_builder.src_ip()
        &&& self.udp_builder.dst_ip() == self.ipv4_builder.dst_ip()
    }

    /// Source address of the packets this factory builds.
    pub closed spec fn src_ip(&self) -> Ipv4Addr {
        self.ipv4_builder.src_ip()
    }

    /// Destination address of the packets this factory builds.
    pub closed spec fn dst_ip(&self) -> Ipv4Addr {
        self.ipv4_builder.dst_ip()
    }

    /// The byte that the IPv4 flags and fragment offset are taken from.
    pub closed spec fn ip_bitfield(&self) -> u8 {
        self.ipv4_builder.ip_bitfield()
    }

    pub fn new(src_ip: Ipv4Addr, dst_ip: Ipv4Addr, ip_bitfield: u8) -> (factory: Self)
        ensures
            factory.wf(),
            factory.src_ip() == src_ip,
            factory.dst_ip() == dst_ip,
            factory.ip_bitfield() == ip_bitfield,
    {
        Self {
            tcp_builder: TcpBuilder::new(src_ip, dst_ip),
            udp_builder: UdpBuilder::new(src_ip, dst_ip),
            ipv4_builder: Ipv4Builder::new(src_ip, dst_ip, ip_bitfield),
            ethernet_builder: EthernetBuilder::new(),
        }
    }

    /// Builds the packet that `builder` describes: transport header, IPv4
    /// header in front of it, Ethernet header between the builder's MAC
    /// addresses. Addresses and bitfield are the factory's.
    pub fn build_packet(&self, builder: &PacketBuilder) -> (res: Result<NetworkPacket>)
        requires
            self.wf(),
            40 + spec_payload_len(builder.payload) <= usize::MAX,
        ensures
            res is Ok,
            is_built_packet(
                res->Ok_0,
                self.src_ip(),
                self.dst_ip(),
                self.ip_bitfield(),
                *builder,
            ),
    {
        let l4_data = match builder.protocol {
            L4Protocol::Tcp => {
                let tcp_header = self.tcp_builder.build_tcp_header(
                    builder.src_port,
                    builder.dst_port,
                    builder.payload.clone(),
                )?;
                L4Data::Tcp(tcp_header)
            },
            L4Protocol::Udp => {
                let udp_header = self.udp_builder.build_udp_header(
                    builder.src_port,
                    builder.dst_port,
                    builder.payload.clone(),
                )?;
                L4Data::Udp(udp_header)
            },
        };

        let ipv4_header = self.ipv4_builder.build_ipv4_header(&l4_data)?;
        let ethernet_header = self.ethernet_builder.build_ethernet_header(
            builder.src_mac,
            builder.dst_mac,
        );

        Ok(NetworkPacket { ethernet: ethernet_header, ipv4: ipv4_header, l4_data })
    }

    /// Normalises a set of construction parameters, and makes the factory
    /// for them. Both addresses are required; every other absent parameter
    /// takes its default. This is the one place where input is refused.
    pub fn from_cli_args(
        src_ip: Option<&str>,
        dst_ip: Option<&str>,
        src_mac: Option<[u8; 6]>,
        dst_mac: Option<[u8; 6]>,
        src_port: Option<u16>,
        dst_port: Option<u16>,
        l4_protocol: Option<&str>,
        ip_bitfield: Option<u8>,
        payload: Option<Vec<u8>>,
    ) -> (res: Result<(Self, PacketBuilder)>)
        ensures
            match (
                res,
                spec_from_cli_args(
                    src_ip,
                    dst_ip,
                    src_mac,
                    dst_mac,
                    src_port,
                    dst_port,
                    l4_protocol,
                    ip_bitfield,
                    payload,
                ),
            ) {
                (Ok((factory, builder)), Ok(expected)) => {
                    &&& builder == expected
                    &&& factory.wf()
                    &&& factory.src_ip() == builder.src_ip
                    &&& factory.dst_ip() == builder.dst_ip
                    &&& factory.ip_bitfield() == builder.ip_bitfield
                },
                (Err(e), Err(expected)) => e == expected,
                _ => false,
            },
    {
        let src_ip = match src_ip {
            Some(text) => parse_ipv4(text)?,
            None => {
                return Err(ParseError::MissingRequiredField("src_ip"));
            },
        };
        let dst_ip = match dst_ip {
            Some(text) => parse_ipv4(text)?,
            None => {
                return Err(ParseError::MissingRequiredField("dst_ip"));
            },
        };
        let packet_builder = normalize_params(
            src_ip,
            dst_ip,
            src_mac,
            dst_mac,
            src_port,
            dst_port,
            l4_protocol,
            ip_bitfield,
            payload,
        );
        let factory = Self::new(src_ip, dst_ip, packet_builder.ip_bitfield);

        Ok((factory, packet_builder))
    }
}

} // verus!
