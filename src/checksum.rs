//! The 16-bit one's-complement Internet checksum (RFC 1071).
use vstd::prelude::*;

verus! {

/// Offset of the two-byte checksum field inside an ICMP header.
pub const CHECKSUM_OFFSET: usize = 2;

/// The big-endian 16-bit word that starts at byte `i`; a missing low byte
/// (odd-length input) counts as zero.
pub open spec fn word_at(data: Seq<u8>, i: int) -> nat {
    (data[i] as nat) * 256 + if i + 1 < data.len() {
        data[i + 1] as nat
    } else {
        0nat
    }
}

/// Number of 16-bit words that `data` is split into.
pub open spec fn word_count(data: Seq<u8>) -> nat {
    ((data.len() + 1) / 2) as nat
}

/// Sum, without any wraparound, of the first `n` words of `data`.
pub open spec fn sum_of_words(data: Seq<u8>, n: nat) -> nat
    decreases n,
{
    if n == 0 {
        0
    } else {
        sum_of_words(data, (n - 1) as nat) + word_at(data, 2 * (n - 1))
    }
}

/// The 32-bit accumulator after all words were added with wraparound.
pub open spec fn accumulator(data: Seq<u8>) -> nat {
    sum_of_words(data, word_count(data)) % 0x1_0000_0000
}

/// Adds the high 16 bits into the low 16 bits until no high bits remain.
pub open spec fn fold_carries(x: nat) -> nat
    decreases x,
{
    if x < 0x10000 {
        x
    } else {
        fold_carries(x % 0x10000 + x / 0x10000)
    }
}

/// The one's-complement sum of `data`: its accumulator with carries folded in.
pub open spec fn folded_sum(data: Seq<u8>) -> nat {
    fold_carries(accumulator(data))
}

/// The Internet checksum of `data`: the complement of its folded sum.
pub open spec fn internet_checksum(data: Seq<u8>) -> u16 {
    (0xFFFF - folded_sum(data)) as u16
}

/// Folding always ends below `0x10000`.
pub proof fn lemma_fold_bound(x: nat)
    ensures
        fold_carries(x) < 0x10000,
    decreases x,
{
    if x >= 0x10000 {
        lemma_fold_bound(x % 0x10000 + x / 0x10000);
    }
}

/// Buffer `data` with the checksum field zeroed.
pub open spec fn with_zero_checksum(data: Seq<u8>) -> Seq<u8> {
    data.update(2, 0u8).update(3, 0u8)
}

/// Buffer `data` with `c` stored big-endian in the checksum field.
pub open spec fn with_checksum(data: Seq<u8>, c: u16) -> Seq<u8> {
    data.update(2, (c / 256) as u8).update(3, (c % 256) as u8)
}

/// Folding keeps the value modulo `0xFFFF`, mapping every positive value
/// into `1..=0xFFFF`.
pub proof fn lemma_fold_closed_form(x: nat)
    ensures
        fold_carries(x) == if x == 0 {
            0
        } else {
            ((x - 1) as int % 0xFFFF + 1) as nat
        },
    decreases x,
{
    if x >= 0x10000 {
        let q: int = x as int / 0x10000;
        let r: int = x as int % 0x10000;
        let y: int = q + r;
        lemma_fold_closed_form(y as nat);
        assert(x - 1 == 0xFFFF * q + (y - 1));
        vstd::arithmetic::div_mod::lemma_mod_multiples_vanish(q, y - 1, 0xFFFF);
    }
}

/// Sums of words of two buffers that differ only in the checksum field
/// differ by the words stored there.
proof fn lemma_sum_checksum_field(a: Seq<u8>, b: Seq<u8>, n: nat)
    requires
        a.len() == b.len(),
        a.len() >= 4,
        n <= word_count(a),
        forall|k: int| 0 <= k < a.len() && k != 2 && k != 3 ==> a[k] == b[k],
    ensures
        n >= 2 ==> sum_of_words(a, n) + word_at(b, 2) == sum_of_words(b, n) + word_at(a, 2),
        n < 2 ==> sum_of_words(a, n) == sum_of_words(b, n),
    decreases n,
{
    if n > 0 {
        lemma_sum_checksum_field(a, b, (n - 1) as nat);
        let i: int = 2 * (n - 1);
        if i != 2 {
            assert(word_at(a, i) == word_at(b, i));
        }
    }
}

/// Storing a buffer's checksum into its zeroed checksum field makes the whole
/// buffer fold to `0xFFFF`, so that its checksum is zero. This holds as long as
/// adding the checksum word does not carry the 32-bit accumulator over.
pub proof fn lemma_checksum_self_verifies(data: Seq<u8>)
    requires
        data.len() >= 4,
        accumulator(with_zero_checksum(data)) + internet_checksum(with_zero_checksum(data))
            < 0x1_0000_0000,
    ensures
        folded_sum(with_checksum(data, internet_checksum(with_zero_checksum(data)))) == 0xFFFF,
        internet_checksum(with_checksum(data, internet_checksum(with_zero_checksum(data)))) == 0,
{
    let z = with_zero_checksum(data);
    let c = internet_checksum(z);
    let f = with_checksum(data, c);
    let n = word_count(data);
    assert(word_count(z) == n && word_count(f) == n);
    lemma_sum_checksum_field(z, f, n);
    assert(word_at(z, 2) == 0);
    assert(word_at(f, 2) == c);
    let s0: int = sum_of_words(z, n) as int;
    let acc0: int = accumulator(z) as int;
    lemma_fold_bound(acc0 as nat);
    assert(c == 0xFFFF - fold_carries(acc0 as nat));
    assert(s0 == 0x1_0000_0000 * (s0 / 0x1_0000_0000) + acc0);
    vstd::arithmetic::div_mod::lemma_mod_multiples_vanish(s0 / 0x1_0000_0000, acc0 + c, 0x1_0000_0000);
    assert(accumulator(f) == acc0 + c);
    lemma_fold_closed_form(acc0 as nat);
    lemma_fold_closed_form((acc0 + c) as nat);
    if acc0 != 0 {
        let m: int = (acc0 - 1) / 0xFFFF;
        assert(acc0 - 1 == 0xFFFF * m + (acc0 - 1) % 0xFFFF);
        assert(acc0 + c - 1 == 0xFFFF * m + 0xFFFE);
        vstd::arithmetic::div_mod::lemma_mod_multiples_vanish(m, 0xFFFE, 0xFFFF);
    }
}

/// Sums of words of `data` and of `data` with a zero byte appended agree on
/// every word of `data`, when `data` has odd length.
proof fn lemma_sum_zero_padding(data: Seq<u8>, n: nat)
    requires
        data.len() % 2 == 1,
        n <= word_count(data),
    ensures
        sum_of_words(data, n) == sum_of_words(data.push(0u8), n),
    decreases n,
{
    if n > 0 {
        lemma_sum_zero_padding(data, (n - 1) as nat);
        let i: int = 2 * (n - 1);
        assert(word_at(data, i) == word_at(data.push(0u8), i));
    }
}

/// An odd-length buffer has the same checksum as the buffer padded with one
/// zero byte: the last byte is the high byte of a word whose low byte is zero.
pub proof fn lemma_checksum_odd_padding(data: Seq<u8>)
    requires
        data.len() % 2 == 1,
    ensures
        internet_checksum(data) == internet_checksum(data.push(0u8)),
{
    assert(word_count(data.push(0u8)) == word_count(data));
    lemma_sum_zero_padding(data, word_count(data));
}

/// Computes the Internet checksum of `data`: the complement of the
/// one's-complement sum of its big-endian 16-bit words.
pub fn calculate_checksum(data: &[u8]) -> (r: u16)
    ensures
        r == internet_checksum(data@),
{
    let len: usize = data.len();
    let mut sum: u32 = 0;
    let mut i: usize = 0;
    while len - i >= 2
        invariant
            len == data@.len(),
            i <= len,
            i % 2 == 0,
            sum as nat == sum_of_words(data@, (i / 2) as nat) % 0x1_0000_0000,
        decreases len - i,
    {
        let word: u32 = (data[i] as u32) * 256 + data[i + 1] as u32;
        assert(word as nat == word_at(data@, i as int));
        sum = sum.wrapping_add(word);
        i = i + 2;
    }
    let ghost words: nat = (i / 2) as nat;
    if i < len {
        let word: u32 = (data[i] as u32) * 256;
        assert(word as nat == word_at(data@, i as int));
        sum = sum.wrapping_add(word);
        proof {
            words = words + 1;
        }
    }
    assert(words == word_count(data@));
    assert(sum as nat == sum_of_words(data@, words) % 0x1_0000_0000);
    let ghost start: nat = sum as nat;
    while (sum >> 16) != 0
        invariant
            fold_carries(sum as nat) == fold_carries(start),
        decreases sum,
    {
        assert(sum >> 16 == sum / 0x10000 && sum & 0xffff == sum % 0x10000) by (bit_vector);
        sum = (sum & 0xffff) + (sum >> 16);
    }
    assert((sum >> 16) == 0 ==> sum < 0x10000) by (bit_vector);
    let folded: u16 = sum as u16;
    assert(!folded == 0xFFFF - folded) by (bit_vector);
    !folded
}

} // verus!
