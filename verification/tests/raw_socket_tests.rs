use projet_rsns_morissetlarresacha::structs::ethernet::EthernetHeader;
use projet_rsns_morissetlarresacha::structs::ip::Ipv4Header;
use projet_rsns_morissetlarresacha::structs::l4_protocol::L4Data;
use projet_rsns_morissetlarresacha::structs::network_packet::NetworkPacket;
use projet_rsns_morissetlarresacha::structs::tcp::TcpHeader;

fn create_test_packet() -> NetworkPacket {
    NetworkPacket {
        ethernet: EthernetHeader {
            src_mac: [0xAA, 0xBB, 0xCC, 0xDD, 0xEE, 0xFF],
            dst_mac: [0x11, 0x22, 0x33, 0x44, 0x55, 0x66],
            ethertype: 0x0800,
        },
        ipv4: Ipv4Header {
            version: 4,
            ihl: 5,
            dscp: 0,
            total_length: 55,
            identification: 0,
            flags: 0,
            fragment_offset: 0,
            ttl: 64,
            protocol: 6,
            header_checksum: 0x1234,
            src_addr: [192, 168, 1, 1],
            dst_addr: [192, 168, 1, 2],
            options: None,
        },
        l4_data: L4Data::Tcp(TcpHeader {
            src_port: 8080,
            dst_port: 443,
            sequence_number: 12345,
            ack_nowledgment_number: 67890,
            data_offset: 5,
            reserved: 0,
            flags: 0x02,
            window: 65535,
            checksum: 0x5678,
            urgent_pointer: 0,
            options: None,
            payload: Some(b"test payload".to_vec()),
        }),
    }
}

#[test]
fn test_packet_assembly_for_sending() {
    let packet = create_test_packet();
    let packet_bytes = packet.assemble_packet().unwrap();

    assert!(packet_bytes.len() > 0);
    assert!(packet_bytes.len() < 1000);

    assert_eq!(packet_bytes[0..6], packet.ethernet.dst_mac);
    assert_eq!(packet_bytes[6..12], packet.ethernet.src_mac);
    assert_eq!(packet_bytes[12..14], [0x08, 0x00]);
}
