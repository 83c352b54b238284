use crate::errors::errors::Result;
use crate::packets::builder::packet_assembler::{
    assembled,
    can_assemble,
    has_plain_headers,
    spec_packet_size,
    PacketAssembler,
};
use crate::structs::network_packet::NetworkPacket;
use vstd::prelude::*;

verus! {

impl NetworkPacket {
    /// Serialises the packet to its wire bytes.
    pub fn assemble_packet(&self) -> (res: Result<Vec<u8>>)
        requires
            can_assemble(*self),
        ensures
            res is Ok,
            res->Ok_0@ == assembled(*self),
            has_plain_headers(*self) ==> res->Ok_0@.len() == spec_packet_size(*self),
    {
        let assembler = PacketAssembler::new();
        assembler.assemble_packet(self)
    }

    /// Size in bytes of the packet when its headers carry no options.
    pub fn get_packet_size(&self) -> (size: usize)
        requires
            spec_packet_size(*self) <= usize::MAX,
        ensures
            size == spec_packet_size(*self),
            has_plain_headers(*self) ==> size == assembled(*self).len(),
    {
        let assembler = PacketAssembler::new();
        assembler.get_packet_size(self)
    }
}

} // verus!
