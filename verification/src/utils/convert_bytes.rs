use crate::errors::errors::ParseError;
use crate::errors::errors::Result;
use vstd::arithmetic::power2::{lemma2_to64, lemma2_to64_rest, lemma_pow2_adds, pow2};
use vstd::bits::{lemma_u64_shl_is_mul, lemma_u64_shr_is_div};
use vstd::prelude::*;
use vstd::std_specs::convert::IntoSpec;

verus! {

/// The big-endian encoding of `value` in `size` bytes: byte `i` holds the
/// base-256 digit of weight `256^(size - 1 - i)`.
pub open spec fn be_bytes(value: nat, size: nat) -> Seq<u8> {
    Seq::new(size, |i: int| ((value / pow2((8 * (size - 1 - i)) as nat)) % 256) as u8)
}

/// What encoding `value` in `size` bytes yields.
///
/// One byte always succeeds and keeps the low byte. Other widths than
/// 2, 4 and 8 are refused, and so is a value that needs more than `size` bytes.
pub open spec fn spec_convert_n_to_bytes(value: u64, size: usize) -> core::result::Result<
    Seq<u8>,
    ParseError,
> {
    if size == 1 {
        Ok(be_bytes(value as nat, 1))
    } else if size != 2 && size != 4 && size != 8 {
        Err(ParseError::InvalidLengthBytes { size })
    } else if size < 8 && value >= pow2((8 * size) as nat) {
        Err(ParseError::ValueTooLarge { value, size })
    } else {
        Ok(be_bytes(value as nat, size as nat))
    }
}

/// `res` is the executable counterpart of `expected`: the same error, or a
/// vector holding the same bytes.
pub open spec fn encodes(res: Result<Vec<u8>>, expected: core::result::Result<Seq<u8>, ParseError>) -> bool {
    match (res, expected) {
        (Ok(bytes), Ok(s)) => bytes@ == s,
        (Err(e), Err(f)) => e == f,
        _ => false,
    }
}

/// The encodings in one, two and four bytes, written out byte by byte.
pub proof fn lemma_be_bytes_values(value: nat)
    ensures
        be_bytes(value, 1) == seq![(value % 256) as u8],
        be_bytes(value, 2) == seq![(value / 0x100 % 256) as u8, (value % 256) as u8],
        be_bytes(value, 4) == seq![
            (value / 0x100_0000 % 256) as u8,
            (value / 0x1_0000 % 256) as u8,
            (value / 0x100 % 256) as u8,
            (value % 256) as u8,
        ],
{
    lemma2_to64();
    assert(pow2(0) == 1 && pow2(8) == 0x100 && pow2(16) == 0x1_0000 && pow2(24) == 0x100_0000);
    assert(be_bytes(value, 1)[0] == ((value / pow2(0)) % 256) as u8);
    assert(be_bytes(value, 1) =~= seq![(value % 256) as u8]);
    assert(be_bytes(value, 2)[0] == ((value / pow2(8)) % 256) as u8);
    assert(be_bytes(value, 2)[1] == ((value / pow2(0)) % 256) as u8);
    assert(be_bytes(value, 2) =~= seq![(value / 0x100 % 256) as u8, (value % 256) as u8]);
    assert(be_bytes(value, 4) =~= seq![
        (value / 0x100_0000 % 256) as u8,
        (value / 0x1_0000 % 256) as u8,
        (value / 0x100 % 256) as u8,
        (value % 256) as u8,
    ]);
}

/// Encodes `value` in `size` bytes, most significant byte first.
pub fn encode_be(value: u64, size: usize) -> (res: Result<Vec<u8>>)
    ensures
        encodes(res, spec_convert_n_to_bytes(value, size)),
{
    proof {
        lemma2_to64();
        lemma2_to64_rest();
    }
    if size == 1 {
        let low: u64 = value & 0xFF;
        assert(low == value % 256) by (bit_vector)
            requires
                low == value & 0xFF,
        ;
        let byte: u8 = low as u8;
        let bytes = vec![byte];
        proof {
            lemma_be_bytes_values(value as nat);
            assert(bytes@ =~= seq![byte]);
        }
        return Ok(bytes);
    }
    if size != 2 && size != 4 && size != 8 {
        return Err(ParseError::InvalidLengthBytes { size });
    }
    let mut bytes = vec![0u8;size];

    if size < 8 {
        let shift: u64 = (size * 8) as u64;
        proof {
            lemma_u64_shl_is_mul(1u64, shift);
        }
        if value >= (1u64 << shift) {
            return Err(ParseError::ValueTooLarge { value, size });
        }
    }
    let mut i: usize = 0;
    while i < size
        invariant
            size == 2 || size == 4 || size == 8,
            i <= size,
            bytes@.len() == size,
            forall|j: int| size - i <= j < size ==> bytes@[j] == be_bytes(value as nat, size as nat)[j],
        decreases size - i,
    {
        let shift: u64 = (i * 8) as u64;
        let shifted: u64 = value >> shift;
        let low: u64 = shifted & 0xFF;
        proof {
            lemma_u64_shr_is_div(value, shift);
            assert(low == shifted % 256) by (bit_vector)
                requires
                    low == shifted & 0xFF,
            ;
        }
        bytes[size - 1 - i] = low as u8;
        i += 1;
    }
    assert(bytes@ =~= be_bytes(value as nat, size as nat));
    Ok(bytes)
}

/// Converts a number into `size` bytes in big-endian order.
///
/// `size` is 1, 2, 4 or 8. With `size == 1` the low byte is kept and nothing
/// is checked. Every integer that is written to the wire goes through here.
pub fn convert_n_to_bytes<T: Into<u64>>(value: T, size: usize) -> (res: Result<Vec<u8>>)
    ensures
        T::obeys_into_spec() ==> encodes(res, spec_convert_n_to_bytes(value.into_spec(), size)),
        size != 1 && size != 2 && size != 4 && size != 8 ==> res == Err::<Vec<u8>, ParseError>(
            ParseError::InvalidLengthBytes { size },
        ),
        res matches Ok(bytes) ==> bytes@.len() == size,
{
    if size != 1 && size != 2 && size != 4 && size != 8 {
        return Err(ParseError::InvalidLengthBytes { size });
    }
    encode_be(value.into(), size)
}

} // verus!
