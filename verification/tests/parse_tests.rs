use projet_rsns_morissetlarresacha::errors::errors::ParseError;
use projet_rsns_morissetlarresacha::parsing::my_parser::{parse_hex, parse_ipv4, parse_mac};
use projet_rsns_morissetlarresacha::structs::ipv4::Ipv4Addr;
use projet_rsns_morissetlarresacha::utils::formating_types::{format_bytes, format_ip, format_mac};

#[test]
fn test_parse_mac_valid() {
    let mac_str = "01:23:45:67:89:ab";
    let expected = [0x01, 0x23, 0x45, 0x67, 0x89, 0xab];
    let result = parse_mac(mac_str).unwrap();

    assert_eq!(result, expected);
}

#[test]
fn test_parse_mac_invalid_length() {
    let mac_str = "01:23:45:67:89";
    let result = parse_mac(mac_str);
    assert!(matches!(result, Err(ParseError::InvalidMac)));
}

#[test]
fn test_parse_mac_invalid_hex() {
    let mac_str = "01:23:45:67:89:zz";
    let result = parse_mac(mac_str);
    assert!(matches!(result, Err(ParseError::InvalidHex)));
}

#[test]
fn test_parse_mac_extra_parts() {
    let mac_str = "01:23:45:67:89:ab:cd";
    let result = parse_mac(mac_str);
    assert!(matches!(result, Err(ParseError::InvalidMac)));
}

#[test]
fn test_parse_ipv4_valid() {
    let ip_str = "192.168.1.1";
    let expected = Ipv4Addr {
        octets: [192, 168, 1, 1],
    };
    let result = parse_ipv4(ip_str).unwrap();
    assert_eq!(result, expected);
}

#[test]
fn test_parse_ipv4_invalid_octet() {
    let ip_str = "192.168.1.256";
    let result = parse_ipv4(ip_str);
    assert!(matches!(result, Err(ParseError::InvalidIpv4)));
}

#[test]
fn test_parse_ipv4_not_enough_octets() {
    let ip_str = "192.168.1";
    let result = parse_ipv4(ip_str);
    assert!(matches!(result, Err(ParseError::NotEnoughOctets)));
}

#[test]
fn test_parse_ipv4_too_many_octets() {
    let ip_str = "192.168.1.1.5";
    let result = parse_ipv4(ip_str);
    assert!(matches!(result, Err(ParseError::TooManyOctets)));
}

#[test]
fn test_parse_hex_valid() {
    let hex_str = "0x1A";
    let result = parse_hex(hex_str).unwrap();
    assert_eq!(result, 0x1A);
    let hex_str2 = "ff";
    let result2 = parse_hex(hex_str2).unwrap();
    assert_eq!(result2, 0xFF);
}

#[test]
fn test_parse_hex_invalid() {
    let hex_str = "0xZZ";
    let result = parse_hex(hex_str);
    assert!(matches!(result, Err(ParseError::InvalidHex)));
}

#[test]
fn test_parse_hex_empty() {
    let hex_str = "";
    let result = parse_hex(hex_str);
    assert!(matches!(result, Err(ParseError::InvalidHex)));
}

#[test]
fn test_parse_hex_no_prefix() {
    let hex_str = "1f";
    let result = parse_hex(hex_str).unwrap();
    assert_eq!(result, 0x1F);
}

#[test]
fn test_parse_ipv4_agrees_with_std_on_edge_cases() {
    let cases = [
        "", ".", "1.2.3.", ".1.2.3", "1..2.3", "+1.2.3.4", "1.+2.3.4", "-1.2.3.4", "01.002.0003.4",
        "255.255.255.255", "0.0.0.0", "256.1.1.1", "1.2.3.4 ", " 1.2.3.4", "1.2.3.4.", "a.b.c.d",
        "1.2.3.x.5", "1.2.3.4.x", "+.1.1.1", "1.2.3.0x1", "1.2.3.4\u{e9}", "\u{661}.2.3.4",
        "00000000000000000001.2.3.4", "999999999999999999999.2.3.4",
    ];
    for text in cases {
        let mut octets: [u8; 4] = [0; 4];
        let mut count: usize = 0;
        let mut expected: Result<Ipv4Addr, ParseError> = Err(ParseError::NotEnoughOctets);
        let mut failed = false;
        for part in text.split('.') {
            if count >= 4 {
                expected = Err(ParseError::TooManyOctets);
                failed = true;
                break;
            }
            match part.parse::<u8>() {
                Ok(v) => octets[count] = v,
                Err(_) => {
                    expected = Err(ParseError::InvalidIpv4);
                    failed = true;
                    break;
                }
            }
            count += 1;
        }
        if !failed && count == 4 {
            expected = Ok(Ipv4Addr { octets });
        }
        assert_eq!(parse_ipv4(text), expected, "input {:?}", text);
    }
}

#[test]
fn test_parse_mac_agrees_with_std_on_edge_cases() {
    let cases = [
        "", ":", "01:23:45:67:89:AB", "01:23:45:67:89:ab:", ":01:23:45:67:89:ab", "1:23:45:67:89:ab",
        "001:23:45:67:89:ab", "+1:+2:+3:+4:+5:+a", "-1:23:45:67:89:ab", "01:23:45:67:89:a",
        "01:23:45:67:89:abc", "zz:23:45:67:89", "01:zz:45:67:89:ab:cd", "01:23:45:67:89:ab:zz",
        "01-23-45-67-89-ab", "ff:ff:ff:ff:ff:ff", "0x:23:45:67:89:ab", "\u{e9}:23:45:67:89:ab",
        "+:23:45:67:89:ab", "++:23:45:67:89:ab",
    ];
    for text in cases {
        let mut b: [u8; 6] = [0; 6];
        let mut count: usize = 0;
        let mut expected: Result<[u8; 6], ParseError> = Err(ParseError::InvalidMac);
        let mut failed = false;
        for part in text.split(':') {
            if count >= 6 || part.len() != 2 {
                failed = true;
                break;
            }
            match u8::from_str_radix(part, 16) {
                Ok(v) => b[count] = v,
                Err(_) => {
                    expected = Err(ParseError::InvalidHex);
                    failed = true;
                    break;
                }
            }
            count += 1;
        }
        if !failed && count == 6 {
            expected = Ok(b);
        }
        assert_eq!(parse_mac(text), expected, "input {:?}", text);
    }
}

#[test]
fn test_parse_hex_agrees_with_std_on_edge_cases() {
    let cases = [
        "", "0x", "0x0x1A", "0x0x", "x1", "0", "00", "000000ff", "100", "0x100", "+f", "+", "-1",
        "0X1A", "1a", "1A", "g", " 1", "1 ", "0x+1", "+0x1", "0x0", "ff", "FF", "0xfF", "\u{e9}",
    ];
    for text in cases {
        let expected = u8::from_str_radix(text.trim_start_matches("0x"), 16)
            .map_err(|_| ParseError::InvalidHex);
        assert_eq!(parse_hex(text), expected, "input {:?}", text);
    }
}

#[test]
fn test_formatted_addresses_parse_back() {
    for seed in 0..=255u8 {
        let octets: [u8; 4] = [
            seed,
            seed.wrapping_mul(7),
            seed.wrapping_add(100),
            255 - seed,
        ];
        assert_eq!(
            parse_ipv4(&format_ip(&octets)),
            Ok(Ipv4Addr { octets })
        );
        let mac: [u8; 6] = [
            seed,
            seed.wrapping_mul(3),
            seed.wrapping_add(16),
            seed ^ 0xA5,
            255 - seed,
            seed >> 4,
        ];
        assert_eq!(parse_mac(&format_mac(&mac)), Ok(mac));
        assert_eq!(parse_hex(&format_bytes(&[seed])), Ok(seed));
    }
}
