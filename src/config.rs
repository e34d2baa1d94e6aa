use vstd::prelude::*;

verus! {

/// How long a public connection may wait for an armed gateway, in seconds.
pub const QUEUE_TIMEOUT_SECS: u64 = 60;

/// How long each read of the handshake magic may take, in seconds.
pub const HANDSHAKE_TIMEOUT_SECS: u64 = 5;

/// How long the client waits for any heartbeat byte, in seconds.
pub const HEARTBEAT_TIMEOUT_SECS: u64 = 10;

/// How often the server writes a keepalive byte, in seconds.
pub const HEARTBEAT_INTERVAL_SECS: u64 = 2;

/// Pause between two polls of the public listener while draining it, in milliseconds.
pub const DRAIN_POLL_MILLIS: u64 = 1;

/// Accept retry delays of the server, in seconds.
pub const SERVER_ACCEPT_BACKOFF_LO: u8 = 1;
pub const SERVER_ACCEPT_BACKOFF_HI: u8 = 64;

/// Reconnect delays of the client, in seconds.
pub const CLIENT_BACKOFF_LO: u8 = 1;
pub const CLIENT_BACKOFF_HI: u8 = 64;

/// Size of each of the two buffers of a splice.
pub const COPY_BUFFER_SIZE: usize = 65536;

/// The largest WebSocket message the relay sends or accepts.
pub const WS_MAX_MESSAGE_SIZE: usize = COPY_BUFFER_SIZE;

/// A heartbeat is written more often than the reader's timeout, so a live
/// server never trips it.
pub proof fn lemma_heartbeat_cadence()
    ensures
        0 < HEARTBEAT_INTERVAL_SECS < HEARTBEAT_TIMEOUT_SECS,
        SERVER_ACCEPT_BACKOFF_LO <= SERVER_ACCEPT_BACKOFF_HI,
        CLIENT_BACKOFF_LO <= CLIENT_BACKOFF_HI,
        0 < WS_MAX_MESSAGE_SIZE,
{
}

} // verus!
