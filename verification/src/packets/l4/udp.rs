use crate::errors::errors::Result;
use crate::structs::udp::UdpHeader;
use crate::utils::convert_bytes::{be_bytes, convert_n_to_bytes};
use crate::utils::payload_size::spec_payload_bytes;
use crate::utils::push_bytes::push_bytes;
use vstd::prelude::*;

verus! {

/// Wire image of a UDP datagram: ports, length, checksum, payload.
pub open spec fn udp_datagram(header: UdpHeader) -> Seq<u8> {
    be_bytes(header.src_port as nat, 2) + be_bytes(header.dst_port as nat, 2) + be_bytes(
        header.length as nat,
        2,
    ) + be_bytes(header.checksum as nat, 2) + spec_payload_bytes(header.payload)
}

/// Serialises a UDP header and its payload.
pub fn pack_udp(header: &UdpHeader) -> (res: Result<Vec<u8>>)
    requires
        8 + spec_payload_bytes(header.payload).len() <= usize::MAX,
    ensures
        res is Ok,
        res->Ok_0@ == udp_datagram(*header),
{
    let empty: Vec<u8> = Vec::new();
    let payload: &[u8] = match &header.payload {
        Some(p) => p.as_slice(),
        None => empty.as_slice(),
    };

    let total_len: usize = 8 + payload.len();
    let mut packet = vec![0u8;total_len];
    let mut offset: usize = 0;

    proof {
        vstd::arithmetic::power2::lemma2_to64();
    }
    let bytes = convert_n_to_bytes(header.src_port, 2)?;
    offset = push_bytes(&mut packet, offset, &bytes);
    let bytes = convert_n_to_bytes(header.dst_port, 2)?;
    offset = push_bytes(&mut packet, offset, &bytes);
    let bytes = convert_n_to_bytes(header.length, 2)?;
    offset = push_bytes(&mut packet, offset, &bytes);
    let bytes = convert_n_to_bytes(header.checksum, 2)?;
    offset = push_bytes(&mut packet, offset, &bytes);

    push_bytes(&mut packet, offset, payload);

    assert(packet@ =~= udp_datagram(*header));
    Ok(packet)
}

} // verus!
