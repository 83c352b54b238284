use crate::errors::errors::Result;
use crate::structs::ethernet::EthernetHeader;
use crate::utils::convert_bytes::{be_bytes, convert_n_to_bytes};
use crate::utils::push_bytes::push_bytes;
use vstd::prelude::*;

verus! {

/// Wire image of an Ethernet frame: destination, source, ethertype, payload.
pub open spec fn ethernet_frame(header: EthernetHeader, payload: Seq<u8>) -> Seq<u8> {
    header.dst_mac@ + header.src_mac@ + be_bytes(header.ethertype as nat, 2) + payload
}

/// Serialises an Ethernet frame around `payload`.
pub fn pack_ethernet(header: &EthernetHeader, payload: &[u8]) -> (res: Result<Vec<u8>>)
    requires
        14 + payload@.len() <= usize::MAX,
    ensures
        res is Ok,
        res->Ok_0@ == ethernet_frame(*header, payload@),
{
    let total_len = 14 + payload.len();
    let mut packet = vec![0u8;total_len];
    let mut offset: usize = 0;

    proof {
        vstd::arithmetic::power2::lemma2_to64();
    }
    let ethertype_bytes = convert_n_to_bytes(header.ethertype, 2)?;

    offset = push_bytes(&mut packet, offset, &header.dst_mac);
    offset = push_bytes(&mut packet, offset, &header.src_mac);
    offset = push_bytes(&mut packet, offset, &ethertype_bytes);
    offset = push_bytes(&mut packet, offset, payload);

    assert(packet@ =~= ethernet_frame(*header, payload@));
    Ok(packet)
}

} // verus!
