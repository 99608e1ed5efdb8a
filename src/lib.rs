//! ICMP Echo Request construction, Internet checksum and Echo Reply validation.
//!
//! Everything here is pure computation over byte buffers: opening the raw
//! socket, sending, receiving and timing are left to the caller.
pub mod checksum;
pub mod echo;
pub mod reply;

pub use checksum::calculate_checksum;
pub use echo::build_echo_request;
pub use reply::{validate_echo_reply, ValidatedReply, ValidationError};
