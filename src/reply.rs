//! Validation of a received IPv4 datagram as the Echo Reply to a request.
use vstd::prelude::*;

use crate::echo::{ICMP_ECHO_REPLY, ICMP_HEADER_LEN};

verus! {

/// A datagram accepted as the expected Echo Reply.
#[derive(Debug, Clone, Copy, PartialEq, Eq, Structural)]
pub struct ValidatedReply {
    /// Length of the whole received datagram, IPv4 header included.
    pub byte_count: usize,
    /// Round-trip time in milliseconds, as measured by the caller.
    pub round_trip_ms: u128,
}

/// Why a received datagram is not the expected Echo Reply.
#[derive(Debug, Clone, Copy, PartialEq, Eq, Structural)]
pub enum ValidationError {
    /// The datagram ends before the ICMP echo header does.
    TooShort,
    /// The ICMP message is not an Echo Reply carrying the expected identifier
    /// and sequence; the values found in the message are kept for reporting.
    InvalidReply { identifier: u16, sequence: u16 },
}

/// The 16-bit value stored big-endian as `hi`, `lo`.
pub open spec fn be16(hi: u8, lo: u8) -> u16 {
    (hi as nat * 256 + lo as nat) as u16
}

/// Length in bytes of the IPv4 header at the start of `raw`: the low four
/// bits of its first byte count 32-bit words. An empty datagram has none.
pub open spec fn ipv4_header_len(raw: Seq<u8>) -> nat {
    if raw.len() == 0 {
        0
    } else {
        ((raw[0] % 16) * 4) as nat
    }
}

/// The verdict on datagram `raw` for a request with the given identifier and
/// sequence, answered after `round_trip_ms` milliseconds.
pub open spec fn reply_verdict(
    raw: Seq<u8>,
    expected_identifier: u16,
    expected_sequence: u16,
    round_trip_ms: u128,
) -> Result<ValidatedReply, ValidationError> {
    let h = ipv4_header_len(raw) as int;
    if raw.len() < h + ICMP_HEADER_LEN {
        Err(ValidationError::TooShort)
    } else {
        let identifier = be16(raw[h + 4], raw[h + 5]);
        let sequence = be16(raw[h + 6], raw[h + 7]);
        if raw[h] == ICMP_ECHO_REPLY && identifier == expected_identifier && sequence
            == expected_sequence {
            Ok(ValidatedReply { byte_count: raw.len() as usize, round_trip_ms })
        } else {
            Err(ValidationError::InvalidReply { identifier, sequence })
        }
    }
}

/// Length in bytes of the IPv4 header that starts `raw`.
pub fn ihl_bytes(raw: &[u8]) -> (r: usize)
    requires
        raw@.len() > 0,
    ensures
        r == ipv4_header_len(raw@),
        r <= 60,
{
    let first: u8 = raw[0];
    assert(first & 0x0F == first % 16) by (bit_vector);
    ((first & 0x0F) as usize) * 4
}

/// Reads the big-endian 16-bit value at `bytes[at]`, `bytes[at + 1]`.
pub fn read_be_u16(bytes: &[u8], at: usize) -> (r: u16)
    requires
        at + 1 < bytes@.len(),
    ensures
        r == be16(bytes@[at as int], bytes@[at as int + 1]),
{
    (bytes[at] as u16) * 256 + bytes[at + 1] as u16
}

/// Checks that `raw`, an IPv4 datagram, carries the Echo Reply with the
/// expected identifier and sequence. Fails with `TooShort` when the datagram
/// ends before the 8-byte ICMP header that follows the IPv4 header, and with
/// `InvalidReply` when the message type is not Echo Reply or either value
/// differs; succeeds otherwise, reporting the datagram's length and the
/// caller's round-trip time.
pub fn validate_echo_reply(
    raw: &[u8],
    expected_identifier: u16,
    expected_sequence: u16,
    round_trip_ms: u128,
) -> (r: Result<ValidatedReply, ValidationError>)
    ensures
        r == reply_verdict(raw@, expected_identifier, expected_sequence, round_trip_ms),
{
    if raw.len() == 0 {
        return Err(ValidationError::TooShort);
    }
    let header_len: usize = ihl_bytes(raw);
    if raw.len() < header_len + ICMP_HEADER_LEN {
        return Err(ValidationError::TooShort);
    }
    let message_type: u8 = raw[header_len];
    let identifier: u16 = read_be_u16(raw, header_len + 4);
    let sequence: u16 = read_be_u16(raw, header_len + 6);
    if message_type == ICMP_ECHO_REPLY && identifier == expected_identifier && sequence
        == expected_sequence {
        Ok(ValidatedReply { byte_count: raw.len(), round_trip_ms })
    } else {
        Err(ValidationError::InvalidReply { identifier, sequence })
    }
}

} // verus!
