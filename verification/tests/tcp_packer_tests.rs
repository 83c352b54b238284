use projet_rsns_morissetlarresacha::errors::errors::ParseError;
use projet_rsns_morissetlarresacha::packets::l4::tcp::pack_tcp;
use projet_rsns_morissetlarresacha::structs::tcp::TcpHeader;
use projet_rsns_morissetlarresacha::utils::convert_bytes::convert_n_to_bytes;

#[test]
fn test_tcp_pack_minimal() {
    let header = TcpHeader {
        src_port: 1234,
        dst_port: 80,
        sequence_number: 0,
        ack_nowledgment_number: 0,
        data_offset: 0,
        reserved: 0,
        flags: 0x18,
        window: 1024,
        checksum: 0,
        urgent_pointer: 0,
        options: None,
        payload: None,
    };

    let packet = pack_tcp(&header).unwrap();
    assert_eq!(packet.len(), 20);
}

#[test]
fn test_tcp_pack_with_payload() {
    let payload = b"hello";
    let header = TcpHeader {
        src_port: 1234,
        dst_port: 80,
        sequence_number: 0,
        ack_nowledgment_number: 0,
        data_offset: 0,
        reserved: 0,
        flags: 0x18,
        window: 1024,
        checksum: 0,
        urgent_pointer: 0,
        options: None,
        payload: Some(payload.to_vec()),
    };

    let packet = pack_tcp(&header).unwrap();
    assert_eq!(packet.len(), 25);
    assert_eq!(&packet[20..], payload);
}

#[test]
fn test_tcp_pack_with_options() {
    let options = vec![0x01, 0x02, 0x03, 0x04];
    let header = TcpHeader {
        src_port: 1234,
        dst_port: 80,
        sequence_number: 0,
        ack_nowledgment_number: 0,
        data_offset: 0,
        reserved: 0,
        flags: 0x18,
        window: 1024,
        checksum: 0,
        urgent_pointer: 0,
        options: Some(options.clone()),
        payload: None,
    };

    let packet = pack_tcp(&header).unwrap();
    assert_eq!(packet.len(), 24);
    assert_eq!(&packet[20..24], &options[..]);
}

#[test]
fn test_convert_n_to_bytes_value_too_large() {
    let result = convert_n_to_bytes(70000u64, 2);
    match result {
        Err(ParseError::ValueTooLarge { value, size }) => {
            assert_eq!(value, 70000);
            assert_eq!(size, 2);
        }
        _ => panic!("Expected ValueTooLarge error"),
    }
}

#[test]
fn test_tcp_pack_exact_bytes() {
    let header = TcpHeader {
        src_port: 0x1234,
        dst_port: 0x0050,
        sequence_number: 0x0102_0304,
        ack_nowledgment_number: 0xA1A2_A3A4,
        data_offset: 0,
        reserved: 0,
        flags: 0x0012,
        window: 0xFFFF,
        checksum: 0xBEEF,
        urgent_pointer: 0x0007,
        options: None,
        payload: Some(vec![0x68, 0x69]),
    };
    let packet = pack_tcp(&header).unwrap();
    assert_eq!(
        packet,
        vec![
            0x12, 0x34, 0x00, 0x50, 0x01, 0x02, 0x03, 0x04, 0xA1, 0xA2, 0xA3, 0xA4, 0x50, 0x12,
            0xFF, 0xFF, 0xBE, 0xEF, 0x00, 0x07, 0x68, 0x69,
        ]
    );
}

#[test]
fn test_tcp_data_offset_follows_the_options() {
    let header = TcpHeader {
        src_port: 1,
        dst_port: 2,
        sequence_number: 0,
        ack_nowledgment_number: 0,
        data_offset: 15,
        reserved: 0x07,
        flags: 0xFFFF,
        window: 0,
        checksum: 0,
        urgent_pointer: 0,
        options: Some(vec![0; 8]),
        payload: None,
    };
    let packet = pack_tcp(&header).unwrap();
    assert_eq!(packet.len(), 28);
    // Offset 7 words, three reserved bits, nine flag bits.
    assert_eq!(&packet[12..14], &[0x7F, 0xFF]);
}
