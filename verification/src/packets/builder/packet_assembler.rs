use crate::errors::errors::Result;
use crate::packets::ethernet::{ethernet_frame, pack_ethernet};
use crate::packets::ip::{ipv4_packable, ipv4_packet, pack_ipv4};
use crate::packets::l4::tcp::{pack_tcp, tcp_segment};
use crate::packets::l4::udp::{pack_udp, udp_datagram};
use crate::structs::l4_protocol::L4Data;
use crate::structs::network_packet::NetworkPacket;
use crate::utils::payload_size::{payload_len, spec_payload_bytes, spec_payload_len};
use vstd::prelude::*;

verus! {

/// Wire image of the transport layer.
pub open spec fn l4_bytes(l4_data: L4Data) -> Seq<u8> {
    match l4_data {
        L4Data::Tcp(tcp) => tcp_segment(tcp),
        L4Data::Udp(udp) => udp_datagram(udp),
    }
}

/// Wire image of a whole packet: the transport layer inside IPv4 inside
/// Ethernet.
pub open spec fn assembled(packet: NetworkPacket) -> Seq<u8> {
    ethernet_frame(packet.ethernet, ipv4_packet(packet.ipv4, l4_bytes(packet.l4_data)))
}

/// Size of a packet whose headers carry no options: fourteen bytes of
/// Ethernet, twenty of IPv4, then the transport header and its payload.
pub open spec fn spec_packet_size(packet: NetworkPacket) -> nat {
    14 + 20 + match packet.l4_data {
        L4Data::Tcp(tcp) => 20 + spec_payload_len(tcp.payload),
        L4Data::Udp(udp) => 8 + spec_payload_len(udp.payload),
    }
}

/// The packet can be assembled: its IPv4 header can be serialised and the
/// whole fits in memory.
pub open spec fn can_assemble(packet: NetworkPacket) -> bool {
    &&& ipv4_packable(packet.ipv4)
    &&& 14 + packet.ipv4.ihl * 4 + l4_bytes(packet.l4_data).len() <= usize::MAX
}

/// Neither the IPv4 header nor a TCP header carries options, and the IPv4
/// header announces its plain twenty bytes. Every built packet is so.
pub open spec fn has_plain_headers(packet: NetworkPacket) -> bool {
    &&& packet.ipv4.ihl == 5
    &&& spec_payload_bytes(packet.ipv4.options).len() == 0
    &&& packet.l4_data matches L4Data::Tcp(tcp) ==> spec_payload_bytes(tcp.options).len() == 0
}

/// The size that is computed without serialising is the size of what is
/// serialised, for every packet whose headers carry no options.
pub proof fn lemma_assembled_len_is_packet_size(packet: NetworkPacket)
    requires
        has_plain_headers(packet),
    ensures
        assembled(packet).len() == spec_packet_size(packet),
{
}

/// Decides whether `packet` can be assembled.
pub fn can_assemble_packet(packet: &NetworkPacket) -> (ok: bool)
    ensures
        ok == can_assemble(*packet),
{
    let options_len = payload_len(&packet.ipv4.options);
    let header_len: usize = packet.ipv4.ihl as usize * 4;
    if header_len > 255 || options_len > header_len || header_len - options_len < 20 {
        return false;
    }
    let l4_len = match &packet.l4_data {
        L4Data::Tcp(tcp) => {
            let tcp_options_len = payload_len(&tcp.options);
            let tcp_payload_len = payload_len(&tcp.payload);
            if tcp_options_len > usize::MAX - 20 || tcp_payload_len > usize::MAX - 20
                - tcp_options_len {
                return false;
            }
            20 + tcp_options_len + tcp_payload_len
        },
        L4Data::Udp(udp) => {
            let udp_payload_len = payload_len(&udp.payload);
            if udp_payload_len > usize::MAX - 8 {
                return false;
            }
            8 + udp_payload_len
        },
    };
    l4_len <= usize::MAX - 14 - header_len
}

/// Composes the layers of a packet into its wire bytes.
pub struct PacketAssembler;

impl PacketAssembler {
    pub fn new() -> (assembler: Self) {
        Self
    }

    /// Serialises `packet`: transport layer first, then IPv4 around it, then
    /// Ethernet around that.
    pub fn assemble_packet(&self, packet: &NetworkPacket) -> (res: Result<Vec<u8>>)
        requires
            can_assemble(*packet),
        ensures
            res is Ok,
            res->Ok_0@ == assembled(*packet),
            has_plain_headers(*packet) ==> res->Ok_0@.len() == spec_packet_size(*packet),
    {
        let l4_data = match &packet.l4_data {
            L4Data::Tcp(tcp_header) => pack_tcp(tcp_header)?,
            L4Data::Udp(udp_header) => pack_udp(udp_header)?,
        };
        let ip_packet = pack_ipv4(&packet.ipv4, &l4_data)?;
        let ethernet_packet = pack_ethernet(&packet.ethernet, &ip_packet)?;
        proof {
            if has_plain_headers(*packet) {
                lemma_assembled_len_is_packet_size(*packet);
            }
        }
        Ok(ethernet_packet)
    }

    /// Size in bytes of a packet whose headers carry no options, computed
    /// without serialising it.
    pub fn get_packet_size(&self, packet: &NetworkPacket) -> (size: usize)
        requires
            spec_packet_size(*packet) <= usize::MAX,
        ensures
            size == spec_packet_size(*packet),
            has_plain_headers(*packet) ==> size == assembled(*packet).len(),
    {
        let l4_size = match &packet.l4_data {
            L4Data::Tcp(tcp) => 20 + payload_len(&tcp.payload),
            L4Data::Udp(udp) => 8 + payload_len(&udp.payload),
        };
        proof {
            if has_plain_headers(*packet) {
                lemma_assembled_len_is_packet_size(*packet);
            }
        }
        14 + 20 + l4_size
    }
}

} // verus!
