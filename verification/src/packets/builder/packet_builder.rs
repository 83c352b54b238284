use crate::errors::errors::{ParseError, Result};
use crate::packets::builder::packet_factory::{
    is_built_packet,
    normalize_params,
    spec_from_cli_args,
    PacketFactory,
};
use crate::parsing::my_parser::parse_ipv4;
use crate::structs::network_packet::NetworkPacket;
use crate::structs::packet_builder::PacketBuilder;
use crate::utils::payload_size::spec_payload_len;
use vstd::prelude::*;

verus! {

impl PacketBuilder {
    /// Normalises a set of construction parameters. Both addresses are
    /// required, and the source address is looked at first; every other
    /// absent parameter takes its default.
    pub fn from_cli_args(
        src_ip: Option<&str>,
        dst_ip: Option<&str>,
        src_mac: Option<[u8; 6]>,
        dst_mac: Option<[u8; 6]>,
        src_port: Option<u16>,
        dst_port: Option<u16>,
        l4_protocol: Option<&str>,
        ip_bitfield: Option<u8>,
        payload: Option<Vec<u8>>,
    ) -> (res: Result<Self>)
        ensures
            res == spec_from_cli_args(
                src_ip,
                dst_ip,
                src_mac,
                dst_mac,
                src_port,
                dst_port,
                l4_protocol,
                ip_bitfield,
                payload,
            ),
    {
        let src_ip = match src_ip {
            Some(text) => parse_ipv4(text)?,
            None => {
                return Err(ParseError::MissingRequiredField("src_ip"));
            },
        };
        let dst_ip = match dst_ip {
            Some(text) => parse_ipv4(text)?,
            None => {
                return Err(ParseError::MissingRequiredField("dst_ip"));
            },
        };
        Ok(
            normalize_params(
                src_ip,
                dst_ip,
                src_mac,
                dst_mac,
                src_port,
                dst_port,
                l4_protocol,
                ip_bitfield,
                payload,
            ),
        )
    }

    /// Builds the packet these parameters describe.
    pub fn build_packet(&self) -> (res: Result<NetworkPacket>)
        requires
            40 + spec_payload_len(self.payload) <= usize::MAX,
        ensures
            res is Ok,
            is_built_packet(res->Ok_0, self.src_ip, self.dst_ip, self.ip_bitfield, *self),
    {
        let factory = PacketFactory::new(self.src_ip, self.dst_ip, self.ip_bitfield);
        factory.build_packet(self)
    }
}

} // verus!
