use crate::errors::errors::Result;
use crate::structs::tcp::TcpHeader;
use crate::utils::convert_bytes::{be_bytes, convert_n_to_bytes};
use crate::utils::payload_size::spec_payload_bytes;
use crate::utils::push_bytes::push_bytes;
use vstd::prelude::*;

verus! {

/// Header length in 32-bit words, as written to the wire: the fixed twenty
/// bytes and the options, kept to the sixteen bits it is computed in.
pub open spec fn tcp_data_offset(header: TcpHeader) -> u16 {
    (((20 + spec_payload_bytes(header.options).len()) / 4) % 0x1_0000) as u16
}

/// The 16-bit field that carries the data offset in its four high bits, the
/// reserved bits below them, and the low nine bits of the flags.
pub open spec fn tcp_offset_reserved_flags(header: TcpHeader) -> u16 {
    (tcp_data_offset(header) << 12) | ((header.reserved as u16) << 9) | (header.flags & 0x01FF)
}

/// The twenty bytes that every TCP header starts with, in wire order.
pub open spec fn tcp_fixed_header(header: TcpHeader) -> Seq<u8> {
    be_bytes(header.src_port as nat, 2) + be_bytes(header.dst_port as nat, 2) + be_bytes(
        header.sequence_number as nat,
        4,
    ) + be_bytes(header.ack_nowledgment_number as nat, 4) + be_bytes(
        tcp_offset_reserved_flags(header) as nat,
        2,
    ) + be_bytes(header.window as nat, 2) + be_bytes(header.checksum as nat, 2) + be_bytes(
        header.urgent_pointer as nat,
        2,
    )
}

/// Wire image of a TCP segment: the twenty fixed bytes, options, payload.
pub open spec fn tcp_segment(header: TcpHeader) -> Seq<u8> {
    tcp_fixed_header(header) + spec_payload_bytes(header.options) + spec_payload_bytes(
        header.payload,
    )
}

/// Serialises a TCP header with its options and payload.
pub fn pack_tcp(header: &TcpHeader) -> (res: Result<Vec<u8>>)
    requires
        20 + spec_payload_bytes(header.options).len() + spec_payload_bytes(header.payload).len()
            <= usize::MAX,
    ensures
        res is Ok,
        res->Ok_0@ == tcp_segment(*header),
{
    let empty: Vec<u8> = Vec::new();
    let payload: &[u8] = match &header.payload {
        Some(p) => p.as_slice(),
        None => empty.as_slice(),
    };
    let options: &[u8] = match &header.options {
        Some(o) => o.as_slice(),
        None => empty.as_slice(),
    };

    let total_len: usize = 20 + options.len() + payload.len();
    let mut packet = vec![0u8;total_len];
    let mut offset: usize = 0;

    let data_offset_value: u16 = (((20 + options.len()) / 4) % 0x1_0000) as u16;
    let combined_offset_reserved_flags: u16 = (data_offset_value << 12) | ((header.reserved as u16)
        << 9) | (header.flags & 0x01FF);

    proof {
        vstd::arithmetic::power2::lemma2_to64();
    }
    let bytes = convert_n_to_bytes(header.src_port, 2)?;
    offset = push_bytes(&mut packet, offset, &bytes);
    assert(packet@.subrange(0, offset as int) =~= be_bytes(header.src_port as nat, 2));
    let bytes = convert_n_to_bytes(header.dst_port, 2)?;
    offset = push_bytes(&mut packet, offset, &bytes);
    let bytes = convert_n_to_bytes(header.sequence_number, 4)?;
    offset = push_bytes(&mut packet, offset, &bytes);
    let bytes = convert_n_to_bytes(header.ack_nowledgment_number, 4)?;
    offset = push_bytes(&mut packet, offset, &bytes);
    let bytes = convert_n_to_bytes(combined_offset_reserved_flags, 2)?;
    offset = push_bytes(&mut packet, offset, &bytes);
    let bytes = convert_n_to_bytes(header.window, 2)?;
    offset = push_bytes(&mut packet, offset, &bytes);
    let bytes = convert_n_to_bytes(header.checksum, 2)?;
    offset = push_bytes(&mut packet, offset, &bytes);
    let bytes = convert_n_to_bytes(header.urgent_pointer, 2)?;
    offset = push_bytes(&mut packet, offset, &bytes);

    assert(packet@.subrange(0, 20) == tcp_fixed_header(*header));

    if !options.is_empty() {
        offset = push_bytes(&mut packet, offset, options);
    }
    assert(packet@.subrange(0, offset as int) =~= tcp_fixed_header(*header) + options@);
    if !payload.is_empty() {
        offset = push_bytes(&mut packet, offset, payload);
    }

    assert(packet@ =~= tcp_segment(*header));
    Ok(packet)
}

} // verus!
