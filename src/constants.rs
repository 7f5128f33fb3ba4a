//! Sizes and periods of the wire protocol.
use vstd::prelude::*;

verus! {

/// Length of the authentication tag that ends each voice datagram.
pub const CMAC_BYTES: usize = 16;

/// Length of the header that starts each voice datagram.
pub const RTP_BYTES: usize = 12;

/// Length of a keepalive datagram.
pub const KEEPALIVE_SIZE: usize = 8;

pub const ETH_HEADER_LEN: usize = 14;

/// Length of an IPv4 header without options.
pub const IPV4_HEADER_LEN: usize = 20;

pub const UDP_HEADER_LEN: usize = 8;

/// All headers of a frame built for the raw link.
pub const FRAME_HEADERS_LEN: usize = 42;

/// Offset of the session identifier within a voice datagram.
pub const SSRC_START: usize = 8;

/// End of the session identifier within a voice datagram.
pub const SSRC_END: usize = 12;

/// Time between two keepalives of one call.
pub const KEEPALIVE_FREQ_MS: u64 = 5000;

/// Delay that follows every link of a trace.
pub const BASE_PACING_MS: u64 = 20;

/// Longest single sleep inside a wait.
pub const WAIT_SLICE_MS: u64 = 20;

/// Bytes a voice datagram adds to its audio on the wire: UDP and IPv4 headers,
/// authentication tag and voice header.
pub const VOICE_OVERHEAD: u64 = 56;

/// Bytes of one keepalive on the wire: UDP and IPv4 headers and the counter.
pub const KEEPALIVE_WIRE: u64 = 36;

} // verus!
