//! Constants shared by everything that writes RTP packets.

use vstd::prelude::*;

pub use crate::bitrate::Bitrate;

verus! {

/// Largest payload of a packet that carries nothing but padding.
///
/// RFC 3550 stops at 255 bytes; this is the largest size below that which is a whole number of
/// 16 byte SRTP blocks.
pub const MAX_BLANK_PADDING_PAYLOAD_SIZE: usize = 240;

/// The largest padding payload is a whole number of SRTP blocks, fits the length byte that
/// RFC 3550 gives to padding, and one block more would not.
pub proof fn law_blank_padding_fills_whole_blocks()
    ensures
        MAX_BLANK_PADDING_PAYLOAD_SIZE % 16 == 0,
        MAX_BLANK_PADDING_PAYLOAD_SIZE <= 255,
        MAX_BLANK_PADDING_PAYLOAD_SIZE + 16 > 255,
{
}

} // verus!
