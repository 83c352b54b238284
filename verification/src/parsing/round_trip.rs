use crate::errors::errors::ParseError;
use crate::parsing::my_parser::{
    digit_value,
    digits_value,
    ipv4_first_error,
    is_digit,
    mac_first_error,
    spec_parse_hex,
    spec_parse_ipv4,
    spec_parse_mac,
    spec_parse_u8,
    split,
    strip_0x,
};
use crate::structs::ipv4::Ipv4Addr;
use crate::utils::formating_types::{
    decimal_digit,
    decimal_text,
    hex_pair,
    hex_upper,
    ip_text,
    joined_hex,
};
use vstd::prelude::*;
use vstd::utf8::{encode_utf8, is_ascii_chars, is_ascii_chars_encode_utf8};

verus! {

/// The bytes of a text of ASCII characters: one byte for each character.
pub open spec fn ascii_bytes(text: Seq<char>) -> Seq<u8> {
    Seq::new(text.len(), |i: int| text[i] as u8)
}

/// A text of ASCII characters is encoded by its characters as bytes.
proof fn lemma_ascii_encoding(text: Seq<char>)
    requires
        is_ascii_chars(text),
    ensures
        encode_utf8(text) == ascii_bytes(text),
{
    is_ascii_chars_encode_utf8(text);
    assert(encode_utf8(text) =~= ascii_bytes(text));
}

/// A number in decimal is one or more decimal digits, and they write the
/// number.
proof fn lemma_decimal_text_digits(n: nat)
    ensures
        decimal_text(n).len() >= 1,
        forall|i: int|
            0 <= i < decimal_text(n).len() ==> 0x30 <= (#[trigger] decimal_text(n)[i]) as u8
                <= 0x39 && decimal_text(n)[i] as int == decimal_text(n)[i] as u8,
        digits_value(ascii_bytes(decimal_text(n)), 10) == n,
    decreases n,
{
    let text = decimal_text(n);
    let bytes = ascii_bytes(text);
    let last = decimal_digit(n % 10);
    assert(last as int == 0x30 + n % 10);
    assert(last as u8 == 0x30 + n % 10);
    if n >= 10 {
        let init = decimal_text(n / 10);
        lemma_decimal_text_digits(n / 10);
        assert(text == init.push(last));
        assert(bytes.drop_last() =~= ascii_bytes(init));
        assert(bytes.last() == last as u8);
        assert(digit_value(bytes.last()) == Some((n % 10) as nat));
        assert(digits_value(bytes, 10) == digits_value(bytes.drop_last(), 10) * 10 + n % 10);
        assert forall|i: int| 0 <= i < text.len() implies 0x30 <= (#[trigger] text[i]) as u8 <= 0x39
            && text[i] as int == text[i] as u8 by {
            if i < init.len() {
                assert(text[i] == init[i]);
            }
        }
    } else {
        assert(text == seq![last]);
        assert(bytes.drop_last() =~= Seq::<u8>::empty());
        assert(bytes.last() == last as u8);
        assert(digit_value(bytes.last()) == Some((n % 10) as nat));
        assert(digits_value(bytes.drop_last(), 10) == 0);
        assert(digits_value(bytes, 10) == digits_value(bytes.drop_last(), 10) * 10 + n % 10);
    }
}

/// The decimal text of a byte parses to the byte, and holds neither a dot
/// nor any other character than digits.
proof fn lemma_parse_decimal_byte(b: u8)
    ensures
        is_ascii_chars(decimal_text(b as nat)),
        spec_parse_u8(ascii_bytes(decimal_text(b as nat)), 10) == Some(b),
        forall|i: int|
            0 <= i < ascii_bytes(decimal_text(b as nat)).len() ==> (#[trigger] ascii_bytes(
                decimal_text(b as nat),
            )[i]) != 0x2E,
{
    let text = decimal_text(b as nat);
    let bytes = ascii_bytes(text);
    lemma_decimal_text_digits(b as nat);
    assert forall|i: int| 0 <= i < bytes.len() implies is_digit(#[trigger] bytes[i], 10) by {
        assert(0x30 <= text[i] as u8 <= 0x39);
    }
    assert forall|i: int| 0 <= i < bytes.len() implies (#[trigger] bytes[i]) != 0x2E by {
        assert(0x30 <= text[i] as u8 <= 0x39);
    }
    assert(0x30 <= text[0] as u8 <= 0x39);
    assert(bytes[0] != 0x2B);
    assert forall|i: int| 0 <= i < text.len() implies '\0' <= (#[trigger] text[i]) <= '\u{7f}' by {
        assert(0x30 <= text[i] as u8 <= 0x39);
    }
}

/// A text without the separator is one piece.
proof fn lemma_split_one_piece(text: Seq<u8>, sep: u8)
    requires
        forall|i: int| 0 <= i < text.len() ==> (#[trigger] text[i]) != sep,
    ensures
        split(text, sep) == seq![text],
    decreases text.len(),
{
    if text.len() > 0 {
        lemma_split_one_piece(text.drop_last(), sep);
        assert(text.drop_last().push(text.last()) =~= text);
        assert(split(text, sep) =~= seq![text]);
    } else {
        assert(text =~= Seq::<u8>::empty());
    }
}

/// A separator and a text without it add one piece: that text.
proof fn lemma_split_next_piece(before: Seq<u8>, text: Seq<u8>, sep: u8)
    requires
        forall|i: int| 0 <= i < text.len() ==> (#[trigger] text[i]) != sep,
    ensures
        split(before.push(sep) + text, sep) == split(before, sep).push(text),
    decreases text.len(),
{
    let whole = before.push(sep) + text;
    if text.len() > 0 {
        lemma_split_next_piece(before, text.drop_last(), sep);
        assert(whole.drop_last() =~= before.push(sep) + text.drop_last());
        assert(whole.last() == text.last());
        assert(text.drop_last().push(text.last()) =~= text);
        assert(split(whole, sep) =~= split(before, sep).push(text));
    } else {
        assert(whole =~= before.push(sep));
        assert(whole.drop_last() =~= before);
        assert(text =~= Seq::<u8>::empty());
    }
}

/// The bytes of two ASCII texts in a row.
proof fn lemma_ascii_bytes_concat(a: Seq<char>, b: Seq<char>)
    ensures
        ascii_bytes(a + b) == ascii_bytes(a) + ascii_bytes(b),
        ascii_bytes(a.push('.')) == ascii_bytes(a).push(0x2E),
{
    assert(ascii_bytes(a + b) =~= ascii_bytes(a) + ascii_bytes(b));
    assert(ascii_bytes(a.push('.')) =~= ascii_bytes(a).push(0x2E));
}

/// An address that is formatted parses back to itself.
///
/// The dotted-decimal text of four octets, taken as the bytes of a string,
/// is accepted as an IPv4 address, and yields the four octets.
pub proof fn lemma_parse_ipv4_of_formatted(octets: [u8; 4])
    ensures
        spec_parse_ipv4(encode_utf8(ip_text(octets@))) == Ok::<Ipv4Addr, ParseError>(
            Ipv4Addr { octets },
        ),
{
    let a = decimal_text(octets[0] as nat);
    let b = decimal_text(octets[1] as nat);
    let c = decimal_text(octets[2] as nat);
    let d = decimal_text(octets[3] as nat);
    lemma_parse_decimal_byte(octets[0]);
    lemma_parse_decimal_byte(octets[1]);
    lemma_parse_decimal_byte(octets[2]);
    lemma_parse_decimal_byte(octets[3]);
    let text = ip_text(octets@);
    assert(text == a.push('.') + b.push('.') + c.push('.') + d);
    assert forall|i: int| 0 <= i < text.len() implies '\0' <= (#[trigger] text[i]) <= '\u{7f}' by {
        let la = a.len() + 1;
        let lb = la + b.len() + 1;
        let lc = lb + c.len() + 1;
        if i < a.len() {
            assert(text[i] == a[i]);
        } else if i < la {
        } else if i < lb - 1 {
            assert(text[i] == b[i - la]);
        } else if i < lb {
        } else if i < lc - 1 {
            assert(text[i] == c[i - lb]);
        } else if i < lc {
        } else {
            assert(text[i] == d[i - lc]);
        }
    }
    lemma_ascii_encoding(text);
    let ba = ascii_bytes(a);
    let bb = ascii_bytes(b);
    let bc = ascii_bytes(c);
    let bd = ascii_bytes(d);
    lemma_ascii_bytes_concat(a, b);
    lemma_ascii_bytes_concat(b, c);
    lemma_ascii_bytes_concat(c, d);
    assert(ascii_bytes(text) =~= ba.push(0x2E) + bb.push(0x2E) + bc.push(0x2E) + bd);
    lemma_split_one_piece(ba, 0x2E);
    lemma_split_next_piece(ba, bb, 0x2E);
    lemma_split_next_piece(ba.push(0x2E) + bb, bc, 0x2E);
    lemma_split_next_piece(ba.push(0x2E) + bb.push(0x2E) + bc, bd, 0x2E);
    assert((ba.push(0x2E) + bb).push(0x2E) =~= ba.push(0x2E) + bb.push(0x2E));
    assert((ba.push(0x2E) + bb.push(0x2E) + bc).push(0x2E) =~= ba.push(0x2E) + bb.push(0x2E)
        + bc.push(0x2E));
    let parts = split(ascii_bytes(text), 0x2E);
    assert(parts =~= seq![ba, bb, bc, bd]);
    reveal_with_fuel(ipv4_first_error, 5);
    assert(ipv4_first_error(parts, 0) is None);
    assert(spec_parse_ipv4(ascii_bytes(text))->Ok_0.octets =~= octets);
}

/// The two hexadecimal digits of a byte parse to the byte, and are
/// neither a colon nor any other character than digits and upper-case
/// letters.
proof fn lemma_parse_hex_pair(b: u8)
    ensures
        is_ascii_chars(hex_pair(b)),
        ascii_bytes(hex_pair(b)).len() == 2,
        spec_parse_u8(ascii_bytes(hex_pair(b)), 16) == Some(b),
        strip_0x(ascii_bytes(hex_pair(b))) == ascii_bytes(hex_pair(b)),
        forall|i: int|
            0 <= i < 2 ==> (#[trigger] ascii_bytes(hex_pair(b))[i]) != 0x3A,
{
    let text = hex_pair(b);
    let bytes = ascii_bytes(text);
    let hi = b as nat / 16;
    let lo = b as nat % 16;
    assert(text[0] == hex_upper(hi) && text[1] == hex_upper(lo));
    assert(hex_upper(hi) as u8 == if hi < 10 {
        0x30 + hi
    } else {
        0x37 + hi
    });
    assert(hex_upper(lo) as u8 == if lo < 10 {
        0x30 + lo
    } else {
        0x37 + lo
    });
    assert(digit_value(bytes[0]) == Some(hi));
    assert(digit_value(bytes[1]) == Some(lo));
    assert(is_digit(bytes[0], 16) && is_digit(bytes[1], 16));
    assert(bytes.drop_last() =~= seq![bytes[0]]);
    assert(bytes.drop_last().drop_last() =~= Seq::<u8>::empty());
    reveal_with_fuel(digits_value, 3);
    assert(digits_value(bytes, 16) == hi * 16 + lo);
    assert(bytes[0] != 0x2B);
    assert(bytes[1] != 0x78);
}

/// The pieces between the colons of bytes that are formatted in
/// hexadecimal are the digit pairs of the bytes, one after the other.
proof fn lemma_split_joined_hex(bytes: Seq<u8>)
    requires
        bytes.len() >= 1,
    ensures
        is_ascii_chars(joined_hex(bytes, ':')),
        split(ascii_bytes(joined_hex(bytes, ':')), 0x3A) == Seq::new(
            bytes.len(),
            |i: int| ascii_bytes(hex_pair(bytes[i])),
        ),
    decreases bytes.len(),
{
    let text = joined_hex(bytes, ':');
    let pairs = Seq::new(bytes.len(), |i: int| ascii_bytes(hex_pair(bytes[i])));
    lemma_parse_hex_pair(bytes.last());
    let pair = hex_pair(bytes.last());
    if bytes.len() == 1 {
        assert(bytes.last() == bytes[0]);
        lemma_split_one_piece(ascii_bytes(pair), 0x3A);
        assert(split(ascii_bytes(text), 0x3A) =~= pairs);
    } else {
        let init = bytes.drop_last();
        let before = joined_hex(init, ':');
        lemma_split_joined_hex(init);
        assert(text == before.push(':') + pair);
        assert forall|i: int| 0 <= i < text.len() implies '\0' <= (#[trigger] text[i])
            <= '\u{7f}' by {
            if i < before.len() {
                assert(text[i] == before[i]);
            } else if i > before.len() {
                assert(text[i] == pair[i - before.len() - 1]);
            }
        }
        assert(ascii_bytes(text) =~= ascii_bytes(before).push(0x3A) + ascii_bytes(pair));
        lemma_split_next_piece(ascii_bytes(before), ascii_bytes(pair), 0x3A);
        assert(split(ascii_bytes(text), 0x3A) =~= pairs);
    }
}

/// A MAC address that is formatted parses back to itself.
///
/// The six digit pairs between colons, taken as the bytes of a string, are
/// accepted as a MAC address, and yield the six bytes.
pub proof fn lemma_parse_mac_of_formatted(mac: [u8; 6])
    ensures
        spec_parse_mac(encode_utf8(joined_hex(mac@, ':'))) == Ok::<[u8; 6], ParseError>(mac),
{
    let text = joined_hex(mac@, ':');
    lemma_split_joined_hex(mac@);
    lemma_ascii_encoding(text);
    let parts = split(ascii_bytes(text), 0x3A);
    assert(parts.len() == 6);
    assert forall|k: int| 0 <= k < 6 implies (#[trigger] parts[k]).len() == 2 && spec_parse_u8(
        parts[k],
        16,
    ) == Some(mac[k]) by {
        lemma_parse_hex_pair(mac[k]);
    }
    reveal_with_fuel(mac_first_error, 7);
    assert(mac_first_error(parts, 0) is None);
    assert(spec_parse_mac(ascii_bytes(text))->Ok_0 =~= mac);
}

/// A byte that is formatted in hexadecimal parses back to itself.
pub proof fn lemma_parse_hex_of_formatted(b: u8)
    ensures
        spec_parse_hex(encode_utf8(hex_pair(b))) == Ok::<u8, ParseError>(b),
{
    lemma_parse_hex_pair(b);
    lemma_ascii_encoding(hex_pair(b));
}

} // verus!
