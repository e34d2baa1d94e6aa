use vstd::prelude::*;

verus! {

/// Written by the server while a gateway connection waits to be used.
pub const KEEPALIVE: u8 = 0x00;

/// Written once by the server when it hands the gateway connection to a
/// public visitor.
pub const FINALIZE: u8 = 0x01;

/// What a heartbeat reader makes of one byte.
#[derive(Clone, Copy, Debug, PartialEq, Eq, Structural)]
pub enum HeartbeatByte {
    Keepalive,
    Finalize,
    /// Neither: the peer does not speak the heartbeat.
    Invalid,
}

pub open spec fn byte_kind(b: u8) -> HeartbeatByte {
    if b == KEEPALIVE {
        HeartbeatByte::Keepalive
    } else if b == FINALIZE {
        HeartbeatByte::Finalize
    } else {
        HeartbeatByte::Invalid
    }
}

/// Classifies one byte read from the heartbeat.
pub fn classify(b: u8) -> (r: HeartbeatByte)
    ensures
        r == byte_kind(b),
{
    if b == KEEPALIVE {
        HeartbeatByte::Keepalive
    } else if b == FINALIZE {
        HeartbeatByte::Finalize
    } else {
        HeartbeatByte::Invalid
    }
}

} // verus!
