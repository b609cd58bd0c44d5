//! The messages that travel through a transfer's bounded data queue, from
//! the sender's pump to the recipient's pump.

use vstd::prelude::*;

verus! {

/// Capacity of a transfer's bounded data queue: large enough to overlap
/// reading and writing, small enough that a slow recipient stalls the
/// sender's pump. At most this many payloads are ever in flight.
pub const DATA_QUEUE_CAPACITY: usize = 16;

/// One item of the data queue.
#[derive(PartialEq, Eq, Debug)]
pub enum RelayMessage {
    /// Opaque payload bytes, forwarded without inspection.
    Data(Vec<u8>),
    /// The sender signalled end-of-stream.
    Finished,
    /// The transfer failed; the string is the detail for the recipient.
    Error(String),
}

} // verus!
