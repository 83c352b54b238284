use vstd::prelude::*;

verus! {

/// `String::push` of the standard library, which appends one character to
/// the end of a string: afterwards the string holds what it held, followed
/// by `c`.
pub assume_specification[ std::string::String::push ](s: &mut std::string::String, c: char)
    ensures
        final(s)@ == old(s)@.push(c),
;

/// The upper-case hexadecimal digit of a number below sixteen.
pub open spec fn hex_upper(n: nat) -> char {
    if n < 10 {
        (0x30 + n) as char
    } else {
        (0x41 + n - 10) as char
    }
}

/// The two upper-case hexadecimal digits of a byte.
pub open spec fn hex_pair(b: u8) -> Seq<char> {
    seq![hex_upper(b as nat / 16), hex_upper(b as nat % 16)]
}

/// The bytes written as pairs of upper-case hexadecimal digits with `sep`
/// between one pair and the next.
pub open spec fn joined_hex(bytes: Seq<u8>, sep: char) -> Seq<char>
    decreases bytes.len(),
{
    if bytes.len() == 0 {
        Seq::empty()
    } else if bytes.len() == 1 {
        hex_pair(bytes[0])
    } else {
        joined_hex(bytes.drop_last(), sep).push(sep) + hex_pair(bytes.last())
    }
}

/// The decimal digit of a number below ten.
pub open spec fn decimal_digit(n: nat) -> char {
    (0x30 + n) as char
}

/// A number written in decimal, without leading zeros.
pub open spec fn decimal_text(n: nat) -> Seq<char>
    decreases n,
{
    if n < 10 {
        seq![decimal_digit(n)]
    } else {
        decimal_text(n / 10).push(decimal_digit(n % 10))
    }
}

/// An IPv4 address in dotted decimal.
pub open spec fn ip_text(ip: Seq<u8>) -> Seq<char> {
    decimal_text(ip[0] as nat).push('.') + decimal_text(ip[1] as nat).push('.') + decimal_text(
        ip[2] as nat,
    ).push('.') + decimal_text(ip[3] as nat)
}

/// Appends the upper-case hexadecimal digit of `n`.
fn push_hex_digit(s: &mut String, n: u8)
    requires
        n < 16,
    ensures
        final(s)@ == old(s)@.push(hex_upper(n as nat)),
{
    let c: char = if n < 10 {
        (0x30 + n) as char
    } else {
        (0x41 + (n - 10)) as char
    };
    s.push(c);
}

/// Appends the two upper-case hexadecimal digits of `b`.
pub fn push_hex_pair(s: &mut String, b: u8)
    ensures
        final(s)@ == old(s)@ + hex_pair(b),
{
    push_hex_digit(s, b / 16);
    push_hex_digit(s, b % 16);
    assert(s@ =~= old(s)@ + hex_pair(b));
}

/// Appends `bytes` as pairs of hexadecimal digits with `sep` between them.
pub fn push_joined_hex(s: &mut String, bytes: &[u8], sep: char)
    ensures
        final(s)@ == old(s)@ + joined_hex(bytes@, sep),
{
    let mut i: usize = 0;
    assert(bytes@.take(0) =~= Seq::<u8>::empty());
    assert(s@ =~= old(s)@ + joined_hex(bytes@.take(0), sep));
    while i < bytes.len()
        invariant
            i <= bytes@.len(),
            s@ == old(s)@ + joined_hex(bytes@.take(i as int), sep),
        decreases bytes@.len() - i,
    {
        let ghost before = s@;
        if i > 0 {
            s.push(sep);
        }
        push_hex_pair(s, bytes[i]);
        proof {
            let next = bytes@.take(i + 1);
            assert(next.drop_last() =~= bytes@.take(i as int));
            assert(next.last() == bytes@[i as int]);
            if i == 0 {
                assert(bytes@.take(0) =~= Seq::<u8>::empty());
                assert(s@ =~= old(s)@ + joined_hex(next, sep));
            } else {
                assert(s@ =~= old(s)@ + joined_hex(next, sep));
            }
        }
        i += 1;
    }
    assert(bytes@.take(i as int) =~= bytes@);
}

/// Appends `n` in decimal.
pub fn push_decimal(s: &mut String, n: u64)
    ensures
        final(s)@ == old(s)@ + decimal_text(n as nat),
    decreases n,
{
    if n >= 10 {
        push_decimal(s, n / 10);
    }
    let digit: u8 = (n % 10) as u8;
    s.push((0x30 + digit) as char);
    assert(s@ =~= old(s)@ + decimal_text(n as nat));
}

/// Formats a MAC address as six pairs of upper-case hexadecimal digits
/// between colons.
pub fn format_mac(mac: &[u8; 6]) -> (text: String)
    ensures
        text@ == joined_hex(mac@, ':'),
{
    let mut text = String::new();
    push_joined_hex(&mut text, mac, ':');
    text
}

/// Formats an IPv4 address in dotted decimal.
pub fn format_ip(ip: &[u8; 4]) -> (text: String)
    ensures
        text@ == ip_text(ip@),
{
    let mut text = String::new();
    push_decimal(&mut text, ip[0] as u64);
    text.push('.');
    push_decimal(&mut text, ip[1] as u64);
    text.push('.');
    push_decimal(&mut text, ip[2] as u64);
    text.push('.');
    push_decimal(&mut text, ip[3] as u64);
    assert(text@ =~= ip_text(ip@));
    text
}

/// Formats bytes as pairs of upper-case hexadecimal digits between spaces.
pub fn format_bytes(bytes: &[u8]) -> (text: String)
    ensures
        text@ == joined_hex(bytes@, ' '),
{
    let mut text = String::new();
    push_joined_hex(&mut text, bytes, ' ');
    text
}

/// The time in milliseconds that a packet is stamped with. No clock is
/// read: it is always zero.
pub fn get_timestamp_ms() -> (timestamp: u64)
    ensures
        timestamp == 0,
{
    0
}

} // verus!
