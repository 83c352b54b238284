use crate::errors::errors::{ParseError, Result};
use crate::structs::ip::Ipv4Header;
use crate::structs::ipv4::Ipv4Addr;
use crate::utils::convert_bytes::{be_bytes, convert_n_to_bytes};
use crate::utils::payload_size::spec_payload_bytes;
use crate::utils::push_bytes::push_bytes;
use vstd::prelude::*;

verus! {

/// First byte of the header: version in the high nibble, IHL in the low one.
pub open spec fn ipv4_version_ihl(header: Ipv4Header) -> u8 {
    (header.version << 4) | header.ihl
}

/// The 16-bit field that carries the three flags above the thirteen bits of
/// the fragment offset.
pub open spec fn ipv4_flags_fragment(header: Ipv4Header) -> u16 {
    ((header.flags as u16) << 13) | (header.fragment_offset & 0x1FFF)
}

/// The twenty bytes that every IPv4 header starts with, in wire order.
pub open spec fn ipv4_fixed_header(header: Ipv4Header) -> Seq<u8> {
    be_bytes(ipv4_version_ihl(header) as nat, 1) + be_bytes(header.dscp as nat, 1) + be_bytes(
        header.total_length as nat,
        2,
    ) + be_bytes(header.identification as nat, 2) + be_bytes(
        ipv4_flags_fragment(header) as nat,
        2,
    ) + be_bytes(header.ttl as nat, 1) + be_bytes(header.protocol as nat, 1) + be_bytes(
        header.header_checksum as nat,
        2,
    ) + header.src_addr@ + header.dst_addr@
}

/// The pseudo-header that precedes a TCP segment or a UDP datagram when its
/// checksum is computed: both addresses, a zero byte, the protocol number
/// and the length of the segment or datagram.
pub open spec fn ipv4_pseudo_header(
    src_ip: Ipv4Addr,
    dst_ip: Ipv4Addr,
    protocol: u8,
    length: u16,
) -> Seq<u8> {
    src_ip.octets@ + dst_ip.octets@ + seq![0u8, protocol] + be_bytes(length as nat, 2)
}

/// The header can be serialised: the length that `ihl` announces has room
/// for the fixed part and the options, and fits the byte it is computed in.
pub open spec fn ipv4_packable(header: Ipv4Header) -> bool {
    20 + spec_payload_bytes(header.options).len() <= header.ihl * 4 <= u8::MAX
}

/// Wire image of an IPv4 packet of `ihl * 4 + payload.len()` bytes: fixed
/// header, options, payload. Where `ihl` announces more header than the
/// options fill, the packet ends in zero bytes.
pub open spec fn ipv4_packet(header: Ipv4Header, payload: Seq<u8>) -> Seq<u8> {
    ipv4_fixed_header(header) + spec_payload_bytes(header.options) + payload + Seq::new(
        (header.ihl * 4 - 20 - spec_payload_bytes(header.options).len()) as nat,
        |i: int| 0u8,
    )
}

/// Writes the twenty fixed bytes of the header at the start of `packet`.
fn pack_ipv4_fixed_header(header: &Ipv4Header, packet: &mut [u8]) -> (res: Result<usize>)
    requires
        old(packet)@.len() >= 20,
    ensures
        res == Ok::<usize, ParseError>(20),
        final(packet)@.len() == old(packet)@.len(),
        final(packet)@.subrange(0, 20) == ipv4_fixed_header(*header),
        final(packet)@.subrange(20, final(packet)@.len() as int) == old(packet)@.subrange(
            20,
            old(packet)@.len() as int,
        ),
{
    let mut offset: usize = 0;

    let version_ihl: u8 = (header.version << 4) | header.ihl;
    let flags_fragment: u16 = ((header.flags as u16) << 13) | (header.fragment_offset & 0x1FFF);

    proof {
        vstd::arithmetic::power2::lemma2_to64();
    }
    let bytes = convert_n_to_bytes(version_ihl, 1)?;
    offset = push_bytes(packet, offset, &bytes);
    assert(packet@.subrange(0, offset as int) =~= be_bytes(ipv4_version_ihl(*header) as nat, 1));
    let bytes = convert_n_to_bytes(header.dscp, 1)?;
    offset = push_bytes(packet, offset, &bytes);
    let bytes = convert_n_to_bytes(header.total_length, 2)?;
    offset = push_bytes(packet, offset, &bytes);
    let bytes = convert_n_to_bytes(header.identification, 2)?;
    offset = push_bytes(packet, offset, &bytes);
    let bytes = convert_n_to_bytes(flags_fragment, 2)?;
    offset = push_bytes(packet, offset, &bytes);
    let bytes = convert_n_to_bytes(header.ttl, 1)?;
    offset = push_bytes(packet, offset, &bytes);
    let bytes = convert_n_to_bytes(header.protocol, 1)?;
    offset = push_bytes(packet, offset, &bytes);
    let bytes = convert_n_to_bytes(header.header_checksum, 2)?;
    offset = push_bytes(packet, offset, &bytes);

    offset = push_bytes(packet, offset, &header.src_addr);
    offset = push_bytes(packet, offset, &header.dst_addr);
    Ok(offset)
}

/// Serialises an IPv4 packet around `payload`.
pub fn pack_ipv4(header: &Ipv4Header, payload: &[u8]) -> (res: Result<Vec<u8>>)
    requires
        ipv4_packable(*header),
        header.ihl * 4 + payload@.len() <= usize::MAX,
    ensures
        res is Ok,
        res->Ok_0@ == ipv4_packet(*header, payload@),
{
    let header_len: usize = (header.ihl * 4) as usize;
    let total_len: usize = header_len + payload.len();

    let mut packet = vec![0u8;total_len];
    let ghost zeros = packet@;
    let mut offset: usize = pack_ipv4_fixed_header(header, packet.as_mut_slice())?;
    let ghost fixed = packet@;

    if let Some(options) = &header.options {
        if !options.is_empty() {
            offset = push_bytes(&mut packet, offset, options.as_slice());
        }
    }
    let ghost with_options = packet@;
    assert(with_options.subrange(0, offset as int) =~= ipv4_fixed_header(*header)
        + spec_payload_bytes(header.options));
    assert(with_options.subrange(offset as int, total_len as int) == fixed.subrange(
        offset as int,
        total_len as int,
    ));
    let end: usize = push_bytes(&mut packet, offset, payload);
    assert forall|i: int| end <= i < total_len implies packet@[i] == 0u8 by {
        assert(packet@[i] == packet@.subrange(end as int, total_len as int)[i - end]);
        assert(with_options[i] == with_options.subrange(offset as int, total_len as int)[i
            - offset]);
        assert(fixed[i] == fixed.subrange(offset as int, total_len as int)[i - offset]);
        assert(fixed[i] == fixed.subrange(20, total_len as int)[i - 20]);
        assert(zeros[i] == zeros.subrange(20, total_len as int)[i - 20]);
    }

    assert(packet@ =~= ipv4_packet(*header, payload@));
    Ok(packet)
}

} // verus!
