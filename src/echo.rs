//! Construction of ICMP Echo Request messages.
use vstd::prelude::*;

use crate::checksum::{
    calculate_checksum, folded_sum, internet_checksum, lemma_checksum_self_verifies, sum_of_words,
    with_checksum, with_zero_checksum, word_at, word_count, CHECKSUM_OFFSET,
};

verus! {

/// ICMP message type of an Echo Request.
pub const ICMP_ECHO_REQUEST: u8 = 8;

/// ICMP message type of an Echo Reply.
pub const ICMP_ECHO_REPLY: u8 = 0;

/// Length of the ICMP echo header: type, code, checksum, identifier, sequence.
pub const ICMP_HEADER_LEN: usize = 8;

/// Total length of the echo request this library sends by default.
pub const PACKET_SIZE: usize = 64;

/// High byte of `v` in network byte order.
pub open spec fn be_high(v: u16) -> u8 {
    (v / 256) as u8
}

/// Low byte of `v` in network byte order.
pub open spec fn be_low(v: u16) -> u8 {
    (v % 256) as u8
}

/// An echo request whose checksum field is still zero: header followed by
/// `payload_size` zero bytes.
pub open spec fn unsummed_echo_request(identifier: u16, sequence: u16, payload_size: nat) -> Seq<u8> {
    seq![
        ICMP_ECHO_REQUEST,
        0u8,
        0u8,
        0u8,
        be_high(identifier),
        be_low(identifier),
        be_high(sequence),
        be_low(sequence),
    ] + Seq::new(payload_size, |_k: int| 0u8)
}

/// The complete echo request: the unsummed message with its checksum stored.
pub open spec fn echo_request(identifier: u16, sequence: u16, payload_size: nat) -> Seq<u8> {
    let z = unsummed_echo_request(identifier, sequence, payload_size);
    with_checksum(z, internet_checksum(z))
}

/// The zero payload adds nothing to the word sum of an unsummed request.
proof fn lemma_unsummed_sum(identifier: u16, sequence: u16, payload_size: nat, n: nat)
    requires
        4 <= n <= word_count(unsummed_echo_request(identifier, sequence, payload_size)),
    ensures
        sum_of_words(unsummed_echo_request(identifier, sequence, payload_size), n)
            == 0x0800 + identifier + sequence,
    decreases n,
{
    let z = unsummed_echo_request(identifier, sequence, payload_size);
    if n > 4 {
        lemma_unsummed_sum(identifier, sequence, payload_size, (n - 1) as nat);
        let i: int = 2 * (n - 1);
        assert(z[i] == 0);
        assert(i + 1 < z.len() ==> z[i + 1] == 0);
        assert(word_at(z, i) == 0);
    } else {
        assert(word_at(z, 0) == 0x0800);
        assert(word_at(z, 2) == 0);
        assert(word_at(z, 4) == identifier);
        assert(word_at(z, 6) == sequence);
        reveal_with_fuel(sum_of_words, 5);
    }
}

/// Builds an ICMP Echo Request of `ICMP_HEADER_LEN + payload_size` bytes:
/// type 8, code 0, the given identifier and sequence in network byte order,
/// a zero payload, and the Internet checksum of the whole message stored in
/// its checksum field. The result checks out: its one's-complement sum is
/// `0xFFFF`.
pub fn build_echo_request(identifier: u16, sequence: u16, payload_size: usize) -> (r: Vec<u8>)
    requires
        payload_size <= usize::MAX - ICMP_HEADER_LEN,
    ensures
        r@ == echo_request(identifier, sequence, payload_size as nat),
        r@.len() == ICMP_HEADER_LEN + payload_size,
        folded_sum(r@) == 0xFFFF,
        internet_checksum(r@) == 0,
{
    let mut packet: Vec<u8> = Vec::with_capacity(ICMP_HEADER_LEN + payload_size);
    packet.push(ICMP_ECHO_REQUEST);
    packet.push(0);
    packet.push(0);
    packet.push(0);
    packet.push((identifier / 256) as u8);
    packet.push((identifier % 256) as u8);
    packet.push((sequence / 256) as u8);
    packet.push((sequence % 256) as u8);
    let ghost header = packet@;
    let mut k: usize = 0;
    while k < payload_size
        invariant
            k <= payload_size,
            header.len() == ICMP_HEADER_LEN,
            packet@ == header + Seq::new(k as nat, |_k: int| 0u8),
        decreases payload_size - k,
    {
        packet.push(0);
        k = k + 1;
        assert(packet@ =~= header + Seq::new(k as nat, |_k: int| 0u8));
    }
    let ghost z = unsummed_echo_request(identifier, sequence, payload_size as nat);
    assert(packet@ =~= z);
    let c: u16 = calculate_checksum(packet.as_slice());
    packet.set(CHECKSUM_OFFSET, (c / 256) as u8);
    packet.set(CHECKSUM_OFFSET + 1, (c % 256) as u8);
    proof {
        assert(packet@ =~= with_checksum(z, c));
        assert(with_zero_checksum(z) =~= z);
        lemma_unsummed_sum(identifier, sequence, payload_size as nat, word_count(z));
        lemma_checksum_self_verifies(z);
    }
    packet
}

} // verus!
