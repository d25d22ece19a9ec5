//! Protocol constants and configuration values.

use vstd::prelude::*;

verus! {

/// Socket buffer size for reading from the TCP stream (64KB).
pub const SOCKET_BUF_SIZE: usize = 65536;

/// Buffer allocation size (64KB), for the initial allocation and each growth step.
pub const BUF_CHUNK: usize = 65536;

/// Maximum single message size (8MB), checked against `Content-Length`.
pub const MAX_MESSAGE_SIZE: usize = 8388608;

/// Maximum total buffer size (16MB): two maximal messages and overhead.
pub const MAX_BUFFER_SIZE: usize = 16777216;

/// Connection timeout in milliseconds.
pub const DEFAULT_TIMEOUT_MS: u64 = 2000;

/// Default command timeout in milliseconds.
pub const DEFAULT_COMMAND_TIMEOUT_MS: u64 = 5000;

/// Maximum number of queued events before dropping.
pub const MAX_EVENT_QUEUE_SIZE: usize = 1000;

/// How long the reader waits on the socket before checking liveness (ms).
pub const READER_TICK_MS: u64 = 1000;

/// Maximum time (ms) to drain an in-progress message body during re-exec teardown.
pub const REEXEC_DRAIN_TIMEOUT_MS: u64 = 5000;

/// Double newline separating header blocks in ESL wire format.
pub open spec fn header_terminator() -> Seq<char> {
    "\n\n"@
}

/// Success prefix of a reply.
pub open spec fn reply_prefix_ok() -> Seq<char> {
    "+OK"@
}

/// Failure prefix of a reply.
pub open spec fn reply_prefix_err() -> Seq<char> {
    "-ERR"@
}

/// Usage-failure prefix of an api body.
pub open spec fn reply_prefix_usage() -> Seq<char> {
    "-USAGE"@
}

} // verus!
