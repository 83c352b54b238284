use vstd::prelude::*;

verus! {

/// The big-endian 16-bit word that starts at byte `2 * k` of `data`.
pub open spec fn word_at(data: Seq<u8>, k: int) -> nat {
    (data[2 * k] as nat) * 256 + (data[2 * k + 1] as nat)
}

/// Sum of the first `n` whole 16-bit words of `data`.
pub open spec fn words_sum(data: Seq<u8>, n: nat) -> nat
    decreases n,
{
    if n == 0 {
        0
    } else {
        words_sum(data, (n - 1) as nat) + word_at(data, n - 1)
    }
}

/// Sum of all 16-bit words of `data`, where a trailing odd byte counts as
/// the high byte of a last word whose low byte is zero.
pub open spec fn padded_sum(data: Seq<u8>) -> nat {
    words_sum(data, data.len() / 2) + if data.len() % 2 == 1 {
        (data[data.len() - 1] as nat) * 256
    } else {
        0
    }
}

/// Adds the carries above bit 15 back into the low 16 bits until none is left.
pub open spec fn fold_carries(sum: nat) -> nat
    decreases sum,
{
    if sum < 0x1_0000 {
        sum
    } else {
        fold_carries(sum % 0x1_0000 + sum / 0x1_0000)
    }
}

/// The Internet checksum of `data`: the one's complement of the folded
/// one's-complement sum of its 16-bit words.
pub open spec fn spec_internet_checksum(data: Seq<u8>) -> u16 {
    (0xFFFF - fold_carries(padded_sum(data))) as u16
}

/// `data` with the word `word` written, high byte first, over the two bytes
/// at `at`.
pub open spec fn with_word(data: Seq<u8>, at: int, word: u16) -> Seq<u8> {
    data.update(at, (word / 256) as u8).update(at + 1, (word % 256) as u8)
}

/// A folded sum always fits in 16 bits, so the complement above never wraps.
pub proof fn lemma_fold_carries_bound(sum: nat)
    ensures
        fold_carries(sum) < 0x1_0000,
    decreases sum,
{
    if sum >= 0x1_0000 {
        lemma_fold_carries_bound(sum % 0x1_0000 + sum / 0x1_0000);
    }
}

/// Folding is the one's-complement reduction: zero stays zero, and any other
/// sum lands on the representative of its class modulo 65535 in `1..=65535`.
pub proof fn lemma_fold_carries_closed_form(sum: nat)
    ensures
        fold_carries(sum) == if sum == 0 {
            0
        } else {
            ((sum - 1) % 0xFFFF + 1) as nat
        },
    decreases sum,
{
    if sum >= 0x1_0000 {
        let q = sum / 0x1_0000;
        let r = sum % 0x1_0000;
        lemma_fold_carries_closed_form(r + q);
        assert(sum == 0x1_0000 * q + r);
        assert((sum - 1) == (r + q - 1) + 0xFFFF * q);
        assert((sum - 1) % 0xFFFF == (r + q - 1) % 0xFFFF) by (nonlinear_arith)
            requires
                (sum - 1) == (r + q - 1) + 0xFFFF * q,
                q >= 0,
                r + q - 1 >= 0,
        ;
    }
}

/// Each word is below 65536, so `n` of them sum to at most `65535 * n`.
proof fn lemma_words_sum_bound(data: Seq<u8>, n: nat)
    ensures
        words_sum(data, n) <= 0xFFFF * n,
    decreases n,
{
    if n > 0 {
        lemma_words_sum_bound(data, (n - 1) as nat);
    }
}

/// A sum and the complement of its folded form fold to all ones.
proof fn lemma_sum_with_complement_folds_to_ones(sum: nat)
    ensures
        fold_carries((sum + (0xFFFF - fold_carries(sum))) as nat) == 0xFFFF,
{
    lemma_fold_carries_closed_form(sum);
    lemma_fold_carries_bound(sum);
    let folded = fold_carries(sum);
    let total = (sum + (0xFFFF - folded)) as nat;
    lemma_fold_carries_closed_form(total);
    if sum > 0 {
        let q = (sum - 1) / 0xFFFF;
        assert(sum - 1 == 0xFFFF * q + (folded - 1));
        assert(total - 1 == 0xFFFF * q + 0xFFFE);
        assert((total - 1) % 0xFFFF == 0xFFFE) by (nonlinear_arith)
            requires
                total - 1 == 0xFFFF * q + 0xFFFE,
                q >= 0,
        ;
    }
}

/// Writing a word over two zero bytes at an even offset adds the word to
/// the sum of the words that reach past it.
proof fn lemma_words_sum_with_word(data: Seq<u8>, at: int, word: u16, n: nat)
    requires
        0 <= at,
        at % 2 == 0,
        at + 2 <= data.len(),
        data[at] == 0,
        data[at + 1] == 0,
        2 * n <= data.len(),
    ensures
        words_sum(with_word(data, at, word), n) == words_sum(data, n) + if 2 * n > at {
            word as nat
        } else {
            0
        },
    decreases n,
{
    if n > 0 {
        lemma_words_sum_with_word(data, at, word, (n - 1) as nat);
        let k = n - 1;
        if 2 * k == at {
            assert(word_at(with_word(data, at, word), k) == (word / 256) * 256 + word % 256);
            assert(word_at(data, k) == 0);
        } else {
            assert(word_at(with_word(data, at, word), k) == word_at(data, k));
        }
    }
}

/// Data that carries its own checksum sums to zero.
///
/// Where the checksum of `data` is taken with two zero bytes at the even
/// offset `at`, and then written over them, the checksum of the result is
/// zero. This is how a receiver verifies a header.
pub proof fn lemma_checksum_verifies(data: Seq<u8>, at: int)
    requires
        0 <= at,
        at % 2 == 0,
        at + 2 <= data.len(),
        data[at] == 0,
        data[at + 1] == 0,
    ensures
        spec_internet_checksum(with_word(data, at, spec_internet_checksum(data))) == 0,
{
    let checksum = spec_internet_checksum(data);
    let sealed = with_word(data, at, checksum);
    lemma_fold_carries_bound(padded_sum(data));
    lemma_words_sum_with_word(data, at, checksum, data.len() / 2);
    assert(sealed.len() == data.len());
    if data.len() % 2 == 1 {
        assert(sealed[sealed.len() - 1] == data[data.len() - 1]);
    }
    assert(padded_sum(sealed) == padded_sum(data) + checksum);
    lemma_sum_with_complement_folds_to_ones(padded_sum(data));
}

/// Computes the Internet checksum (RFC 1071) of `data`.
///
/// Accepts any length; the empty input yields `0xFFFF`.
pub fn internet_checksum(data: &[u8]) -> (checksum: u16)
    ensures
        checksum == spec_internet_checksum(data@),
{
    let mut sum: u128 = 0;
    let mut len: usize = data.len();
    let mut i: usize = 0;

    while len > 1
        invariant
            i + len == data@.len(),
            i % 2 == 0,
            sum == words_sum(data@, (i / 2) as nat),
            sum <= 0xFFFF * (i / 2),
        decreases len,
    {
        let hi: u8 = data[i];
        let lo: u8 = data[i + 1];
        let word: u16 = ((hi as u16) << 8) | (lo as u16);
        assert(word == (hi as nat) * 256 + (lo as nat)) by (bit_vector)
            requires
                word == ((hi as u16) << 8) | (lo as u16),
        ;
        assert(words_sum(data@, (i / 2 + 1) as nat) == words_sum(data@, (i / 2) as nat) + word_at(
            data@,
            (i / 2) as int,
        ));
        sum = sum + (word as u128);
        i += 2;
        len -= 2;
    }

    assert(i / 2 == data@.len() / 2);
    if len > 0 {
        let hi: u8 = data[i];
        let word: u16 = (hi as u16) << 8;
        assert(word == (hi as nat) * 256) by (bit_vector)
            requires
                word == (hi as u16) << 8,
        ;
        sum = sum + (word as u128);
    }
    assert(sum == padded_sum(data@));

    while (sum >> 16) != 0
        invariant
            fold_carries(sum as nat) == fold_carries(padded_sum(data@)),
        decreases sum,
    {
        let low: u128 = sum & 0xFFFF;
        let high: u128 = sum >> 16;
        assert(low == sum % 0x1_0000 && high == sum / 0x1_0000) by (bit_vector)
            requires
                low == sum & 0xFFFF,
                high == sum >> 16,
        ;
        sum = low + high;
    }

    assert(sum < 0x1_0000) by (bit_vector)
        requires
            (sum >> 16) == 0,
    ;
    let folded: u128 = sum;
    let checksum: u16 = (!sum & 0xFFFF) as u16;
    assert(checksum == 0xFFFF - folded) by (bit_vector)
        requires
            folded < 0x1_0000,
            checksum == (!folded & 0xFFFF) as u16,
    ;
    checksum
}

} // verus!
