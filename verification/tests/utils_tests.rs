use projet_rsns_morissetlarresacha::utils::convert_string::{my_as_deref, str_equals};
use projet_rsns_morissetlarresacha::utils::format_mac::mac_to_string;
use projet_rsns_morissetlarresacha::utils::formating_types::{
    format_bytes, format_ip, format_mac, get_timestamp_ms, push_decimal, push_hex_pair,
    push_joined_hex,
};
use projet_rsns_morissetlarresacha::utils::payload_size::payload_len;
use projet_rsns_morissetlarresacha::utils::push_bytes::push_bytes;

#[test]
fn test_push_bytes_copies_at_the_offset() {
    let mut buf: Vec<u8> = vec![0xEE; 6];
    let off = push_bytes(&mut buf, 1, &[1, 2, 3]);
    assert_eq!(off, 4);
    assert_eq!(buf, vec![0xEE, 1, 2, 3, 0xEE, 0xEE]);
    let off = push_bytes(&mut buf, 4, &[]);
    assert_eq!(off, 4);
    let off = push_bytes(&mut buf, off, &[9, 8]);
    assert_eq!(off, 6);
    assert_eq!(buf, vec![0xEE, 1, 2, 3, 9, 8]);
}

#[test]
fn test_payload_len() {
    assert_eq!(payload_len(&None), 0);
    assert_eq!(payload_len(&Some(Vec::new())), 0);
    assert_eq!(payload_len(&Some(vec![1, 2, 3])), 3);
}

#[test]
fn test_my_as_deref() {
    assert_eq!(my_as_deref(&None), None);
    assert_eq!(my_as_deref(&Some("udp".to_string())), Some("udp"));
    assert_eq!(my_as_deref(&Some(String::new())), Some(""));
}

#[test]
fn test_str_equals() {
    assert!(str_equals("udp", "udp"));
    assert!(str_equals("", ""));
    assert!(!str_equals("udp", "tcp"));
    assert!(!str_equals("udp", "udp "));
    assert!(!str_equals("UDP", "udp"));
    assert!(str_equals("\u{e9}t\u{e9}", "\u{e9}t\u{e9}"));
}

#[test]
fn test_format_mac() {
    assert_eq!(
        format_mac(&[0xAA, 0xBB, 0xCC, 0xDD, 0xEE, 0xFF]),
        "AA:BB:CC:DD:EE:FF"
    );
    assert_eq!(
        format_mac(&[0x00, 0x01, 0x0A, 0x10, 0x9F, 0xF0]),
        "00:01:0A:10:9F:F0"
    );
    assert_eq!(
        mac_to_string(&[0x00, 0x01, 0x0A, 0x10, 0x9F, 0xF0]),
        Ok("00:01:0A:10:9F:F0".to_string())
    );
}

#[test]
fn test_format_ip() {
    assert_eq!(format_ip(&[192, 168, 1, 1]), "192.168.1.1");
    assert_eq!(format_ip(&[0, 0, 0, 0]), "0.0.0.0");
    assert_eq!(format_ip(&[255, 255, 255, 255]), "255.255.255.255");
    assert_eq!(format_ip(&[10, 100, 9, 99]), "10.100.9.99");
}

#[test]
fn test_format_bytes() {
    assert_eq!(format_bytes(&[]), "");
    assert_eq!(format_bytes(&[0x00]), "00");
    assert_eq!(format_bytes(&[0xDE, 0xAD, 0xBE, 0xEF]), "DE AD BE EF");
    assert_eq!(format_bytes(&[0x01, 0x0A, 0xA0]), "01 0A A0");
}

#[test]
fn test_every_byte_formats_as_std_does() {
    for b in 0..=255u8 {
        assert_eq!(format_bytes(&[b]), format!("{:02X}", b));
        assert_eq!(format_ip(&[b, 0, 0, b]), format!("{}.0.0.{}", b, b));
    }
}

#[test]
fn test_push_helpers_append() {
    let mut s = String::from(">");
    push_hex_pair(&mut s, 0x0F);
    push_decimal(&mut s, 0);
    push_decimal(&mut s, 1234567890);
    push_decimal(&mut s, u64::MAX);
    push_joined_hex(&mut s, &[1, 2], '-');
    assert_eq!(s, ">0F0123456789018446744073709551615" .to_string() + "01-02");
}

#[test]
fn test_timestamp_is_zero() {
    assert_eq!(get_timestamp_ms(), 0);
}
