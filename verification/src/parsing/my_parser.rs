use crate::errors::errors::ParseError;
use crate::structs::ipv4::Ipv4Addr;
use vstd::prelude::*;
use vstd::string::StringSliceAdditionalSpecFns;

verus! {

/// The pieces of `s` between the occurrences of `sep`. There is always at
/// least one piece; two separators in a row enclose an empty piece.
pub open spec fn split(s: Seq<u8>, sep: u8) -> Seq<Seq<u8>>
    decreases s.len(),
{
    if s.len() == 0 {
        seq![Seq::<u8>::empty()]
    } else {
        let before = split(s.drop_last(), sep);
        if s.last() == sep {
            before.push(Seq::<u8>::empty())
        } else {
            before.update(before.len() - 1, before.last().push(s.last()))
        }
    }
}

/// The value of an ASCII digit or letter as a digit: `0`-`9`, then `a`-`z`
/// or `A`-`Z` for ten and up.
pub open spec fn digit_value(b: u8) -> Option<nat> {
    if 0x30 <= b <= 0x39 {
        Some((b - 0x30) as nat)
    } else if 0x61 <= b <= 0x7A {
        Some((b - 0x61 + 10) as nat)
    } else if 0x41 <= b <= 0x5A {
        Some((b - 0x41 + 10) as nat)
    } else {
        None
    }
}

/// `b` is a digit of base `radix`.
pub open spec fn is_digit(b: u8, radix: nat) -> bool {
    match digit_value(b) {
        Some(d) => d < radix,
        None => false,
    }
}

/// Every byte of `s` is a digit of base `radix`.
pub open spec fn all_digits(s: Seq<u8>, radix: nat) -> bool {
    forall|i: int| 0 <= i < s.len() ==> is_digit(#[trigger] s[i], radix)
}

/// The number that the digits `s` write in base `radix`.
pub open spec fn digits_value(s: Seq<u8>, radix: nat) -> nat
    decreases s.len(),
{
    if s.len() == 0 {
        0
    } else {
        digits_value(s.drop_last(), radix) * radix + match digit_value(s.last()) {
            Some(d) => d,
            None => 0,
        }
    }
}

/// The byte that `s` writes in base `radix`: an optional `+`, then one or
/// more digits and nothing else, with a value of at most 255.
pub open spec fn spec_parse_u8(s: Seq<u8>, radix: nat) -> Option<u8> {
    let digits = if s.len() > 0 && s[0] == 0x2B {
        s.drop_first()
    } else {
        s
    };
    if digits.len() > 0 && all_digits(digits, radix) && digits_value(digits, radix) <= 255 {
        Some(digits_value(digits, radix) as u8)
    } else {
        None
    }
}

/// Why the pieces of a MAC address from piece `k` on are refused, if they
/// are: the first piece beyond the sixth or not two bytes long makes the
/// address invalid, the first one that is no hexadecimal byte makes it bad
/// hexadecimal, whichever comes first.
pub open spec fn mac_first_error(parts: Seq<Seq<u8>>, k: int) -> Option<ParseError>
    decreases parts.len() - k,
{
    if k < 0 || k >= parts.len() {
        None
    } else if k >= 6 || parts[k].len() != 2 {
        Some(ParseError::InvalidMac)
    } else if spec_parse_u8(parts[k], 16) is None {
        Some(ParseError::InvalidHex)
    } else {
        mac_first_error(parts, k + 1)
    }
}

/// What parsing the text `s` as a MAC address yields: six pieces between
/// colons, each a hexadecimal byte of two characters.
pub open spec fn spec_parse_mac(s: Seq<u8>) -> Result<[u8; 6], ParseError> {
    let parts = split(s, 0x3A);
    match mac_first_error(parts, 0) {
        Some(e) => Err(e),
        None => if parts.len() != 6 {
            Err(ParseError::InvalidMac)
        } else {
            Ok(
                [
                    spec_parse_u8(parts[0], 16).unwrap(),
                    spec_parse_u8(parts[1], 16).unwrap(),
                    spec_parse_u8(parts[2], 16).unwrap(),
                    spec_parse_u8(parts[3], 16).unwrap(),
                    spec_parse_u8(parts[4], 16).unwrap(),
                    spec_parse_u8(parts[5], 16).unwrap(),
                ],
            )
        },
    }
}

/// Why the pieces of an IPv4 address from piece `k` on are refused, if they
/// are: a fifth piece is one too many, and a piece that is no decimal byte
/// makes the address invalid, whichever comes first.
pub open spec fn ipv4_first_error(parts: Seq<Seq<u8>>, k: int) -> Option<ParseError>
    decreases parts.len() - k,
{
    if k < 0 || k >= parts.len() {
        None
    } else if k >= 4 {
        Some(ParseError::TooManyOctets)
    } else if spec_parse_u8(parts[k], 10) is None {
        Some(ParseError::InvalidIpv4)
    } else {
        ipv4_first_error(parts, k + 1)
    }
}

/// What parsing the text `s` as a dotted IPv4 address yields: four pieces
/// between dots, each a decimal byte.
pub open spec fn spec_parse_ipv4(s: Seq<u8>) -> Result<Ipv4Addr, ParseError> {
    let parts = split(s, 0x2E);
    match ipv4_first_error(parts, 0) {
        Some(e) => Err(e),
        None => if parts.len() != 4 {
            Err(ParseError::NotEnoughOctets)
        } else {
            Ok(
                Ipv4Addr {
                    octets: [
                        spec_parse_u8(parts[0], 10).unwrap(),
                        spec_parse_u8(parts[1], 10).unwrap(),
                        spec_parse_u8(parts[2], 10).unwrap(),
                        spec_parse_u8(parts[3], 10).unwrap(),
                    ],
                },
            )
        },
    }
}

/// `s` without the prefixes `0x` it starts with, however many.
pub open spec fn strip_0x(s: Seq<u8>) -> Seq<u8>
    decreases s.len(),
{
    if s.len() >= 2 && s[0] == 0x30 && s[1] == 0x78 {
        strip_0x(s.skip(2))
    } else {
        s
    }
}

/// What parsing the text `s` as a hexadecimal byte yields.
pub open spec fn spec_parse_hex(s: Seq<u8>) -> Result<u8, ParseError> {
    match spec_parse_u8(strip_0x(s), 16) {
        Some(v) => Ok(v),
        None => Err(ParseError::InvalidHex),
    }
}

/// Cuts `s` at every `sep`.
fn split_bytes(s: &[u8], sep: u8) -> (parts: Vec<Vec<u8>>)
    ensures
        parts@.len() == split(s@, sep).len(),
        forall|k: int| 0 <= k < parts@.len() ==> (#[trigger] parts@[k])@ == split(s@, sep)[k],
{
    let mut parts: Vec<Vec<u8>> = Vec::new();
    let mut current: Vec<u8> = Vec::new();
    let mut i: usize = 0;
    while i < s.len()
        invariant
            i <= s@.len(),
            split(s@.take(i as int), sep).len() == parts@.len() + 1,
            forall|k: int|
                0 <= k < parts@.len() ==> (#[trigger] parts@[k])@ == split(s@.take(i as int), sep)[k],
            current@ == split(s@.take(i as int), sep).last(),
        decreases s@.len() - i,
    {
        proof {
            assert(s@.take(i + 1).drop_last() =~= s@.take(i as int));
            assert(s@.take(i + 1).last() == s@[i as int]);
        }
        let b: u8 = s[i];
        if b == sep {
            parts.push(current);
            current = Vec::new();
        } else {
            current.push(b);
        }
        i += 1;
    }
    assert(s@.take(i as int) =~= s@);
    parts.push(current);
    parts
}

/// The value of `b` as a digit of base `radix`, if it is one.
fn digit_of(b: u8, radix: u32) -> (res: Option<u32>)
    requires
        radix == 10 || radix == 16,
    ensures
        res == match digit_value(b) {
            Some(d) => if d < radix {
                Some(d as u32)
            } else {
                None
            },
            None => None,
        },
{
    let d: u32 = if 0x30 <= b && b <= 0x39 {
        (b - 0x30) as u32
    } else if 0x61 <= b && b <= 0x7A {
        (b - 0x61) as u32 + 10
    } else if 0x41 <= b && b <= 0x5A {
        (b - 0x41) as u32 + 10
    } else {
        return None;
    };
    if d < radix {
        Some(d)
    } else {
        None
    }
}

/// Reads `s` as a byte written in base `radix`.
fn parse_u8(s: &[u8], radix: u32) -> (res: Option<u8>)
    requires
        radix == 10 || radix == 16,
    ensures
        res == spec_parse_u8(s@, radix as nat),
{
    let start: usize = if s.len() > 0 && s[0] == 0x2B {
        1
    } else {
        0
    };
    let ghost digits = s@.skip(start as int);
    proof {
        if start == 1 {
            assert(s@.drop_first() =~= digits);
        } else {
            assert(s@ =~= digits);
        }
    }
    if s.len() == start {
        return None;
    }
    // `value` is the number read so far, or 256 once it has passed 255.
    let mut value: u32 = 0;
    let mut i: usize = start;
    while i < s.len()
        invariant
            radix == 10 || radix == 16,
            start <= i <= s@.len(),
            digits == s@.skip(start as int),
            digits == if s@.len() > 0 && s@[0] == 0x2B {
                s@.drop_first()
            } else {
                s@
            },
            all_digits(digits.take(i - start), radix as nat),
            value <= 256,
            value == if digits_value(digits.take(i - start), radix as nat) <= 255 {
                digits_value(digits.take(i - start), radix as nat)
            } else {
                256
            },
        decreases s@.len() - i,
    {
        let ghost prefix = digits.take(i - start);
        let ghost next = digits.take(i + 1 - start);
        proof {
            assert(next.drop_last() =~= prefix);
            assert(next.last() == s@[i as int]);
        }
        match digit_of(s[i], radix) {
            None => {
                proof {
                    assert(digits[i - start] == s@[i as int]);
                    assert(!all_digits(digits, radix as nat));
                }
                return None;
            },
            Some(d) => {
                proof {
                    assert forall|j: int| 0 <= j < next.len() implies is_digit(
                        #[trigger] next[j],
                        radix as nat,
                    ) by {
                        if j < prefix.len() {
                            assert(next[j] == prefix[j]);
                        }
                    }
                    let p = digits_value(prefix, radix as nat);
                    assert(p >= 256 ==> p * radix + d >= 256) by (nonlinear_arith)
                        requires
                            radix >= 10,
                            d >= 0,
                    ;
                    assert(p <= 255 ==> p * radix + d == value * radix + d);
                }
                let wide: u32 = value * radix + d;
                value = if wide > 255 {
                    256
                } else {
                    wide
                };
            },
        }
        i += 1;
    }
    assert(digits.take(i - start) =~= digits);
    if value > 255 {
        None
    } else {
        Some(value as u8)
    }
}

/// Parses a MAC address written as six hexadecimal bytes between colons,
/// such as `01:23:45:67:89:ab`.
pub fn parse_mac(mac: &str) -> (res: Result<[u8; 6], ParseError>)
    ensures
        res == spec_parse_mac(mac.spec_bytes()),
{
    let parts = split_bytes(mac.as_bytes(), 0x3A);
    let ghost pieces = split(mac.spec_bytes(), 0x3A);
    let mut b: [u8; 6] = [0u8;6];
    let mut i: usize = 0;
    while i < parts.len()
        invariant
            i <= parts@.len(),
            i <= 6,
            pieces == split(mac.spec_bytes(), 0x3A),
            parts@.len() == pieces.len(),
            forall|k: int| 0 <= k < parts@.len() ==> (#[trigger] parts@[k])@ == pieces[k],
            mac_first_error(pieces, 0) == mac_first_error(pieces, i as int),
            forall|k: int| 0 <= k < i ==> spec_parse_u8(pieces[k], 16) == Some(#[trigger] b[k]),
        decreases parts@.len() - i,
    {
        let p: &Vec<u8> = &parts[i];
        assert(parts@[i as int]@ == pieces[i as int]);
        if i >= 6 || p.len() != 2 {
            return Err(ParseError::InvalidMac);
        }
        match parse_u8(p.as_slice(), 16) {
            None => {
                return Err(ParseError::InvalidHex);
            },
            Some(v) => {
                b[i] = v;
            },
        }
        i += 1;
    }
    if i != 6 {
        return Err(ParseError::InvalidMac);
    }
    assert(b =~= spec_parse_mac(mac.spec_bytes())->Ok_0);
    Ok(b)
}

/// Parses an IPv4 address written as four decimal bytes between dots, such
/// as `192.168.1.1`.
pub fn parse_ipv4(ip: &str) -> (res: Result<Ipv4Addr, ParseError>)
    ensures
        res == spec_parse_ipv4(ip.spec_bytes()),
{
    let parts = split_bytes(ip.as_bytes(), 0x2E);
    let ghost pieces = split(ip.spec_bytes(), 0x2E);
    let mut octets: [u8; 4] = [0u8;4];
    let mut i: usize = 0;
    while i < parts.len()
        invariant
            i <= parts@.len(),
            i <= 4,
            pieces == split(ip.spec_bytes(), 0x2E),
            parts@.len() == pieces.len(),
            forall|k: int| 0 <= k < parts@.len() ==> (#[trigger] parts@[k])@ == pieces[k],
            ipv4_first_error(pieces, 0) == ipv4_first_error(pieces, i as int),
            forall|k: int|
                0 <= k < i ==> spec_parse_u8(pieces[k], 10) == Some(#[trigger] octets[k]),
        decreases parts@.len() - i,
    {
        assert(parts@[i as int]@ == pieces[i as int]);
        if i >= 4 {
            return Err(ParseError::TooManyOctets);
        }
        let p: &Vec<u8> = &parts[i];
        match parse_u8(p.as_slice(), 10) {
            None => {
                return Err(ParseError::InvalidIpv4);
            },
            Some(v) => {
                octets[i] = v;
            },
        }
        i += 1;
    }
    if i != 4 {
        return Err(ParseError::NotEnoughOctets);
    }
    assert(octets =~= spec_parse_ipv4(ip.spec_bytes())->Ok_0.octets);
    Ok(Ipv4Addr { octets })
}

/// Parses a byte written in hexadecimal, with or without `0x` in front.
pub fn parse_hex(octets: &str) -> (res: Result<u8, ParseError>)
    ensures
        res == spec_parse_hex(octets.spec_bytes()),
{
    let bytes = octets.as_bytes();
    let mut start: usize = 0;
    assert(bytes@.skip(0) =~= bytes@);
    while bytes.len() - start >= 2 && bytes[start] == 0x30 && bytes[start + 1] == 0x78
        invariant
            start <= bytes@.len(),
            strip_0x(bytes@) == strip_0x(bytes@.skip(start as int)),
        decreases bytes@.len() - start,
    {
        proof {
            assert(bytes@.skip(start as int).skip(2) =~= bytes@.skip(start + 2));
        }
        start += 2;
    }
    let rest = vstd::slice::slice_subrange(bytes, start, bytes.len());
    assert(rest@ =~= bytes@.skip(start as int));
    match parse_u8(rest, 16) {
        Some(v) => Ok(v),
        None => Err(ParseError::InvalidHex),
    }
}

} // verus!
