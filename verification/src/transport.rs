//! Channels and errors of the transport that carries the messages.
use vstd::prelude::*;

verus! {

/// Errors that a transport reports.
#[derive(Debug, Clone, Copy, PartialEq, Eq, Structural)]
pub enum TransportError {
    /// No error.
    NoError,
    /// The host name could not be resolved.
    DnsResolve,
    /// The other end refused the connection (server full, ...).
    Refused,
    /// A ping timed out, or the link is dead.
    Timeout,
    /// More messages than the transport or the network can carry.
    Congestion,
    /// An invalid packet was received.
    InvalidReceive,
    /// Invalid data was to be sent.
    InvalidSend,
    /// The connection was closed, willingly or not.
    ConnectionClosed,
    /// An unexpected error that needs fixing.
    Unexpected,
}

/// The channel on which a message travels.
#[derive(Debug, Clone, Copy, PartialEq, Eq, Structural, Hash)]
pub enum TransportChannel {
    Reliable,
    Unreliable,
}

impl TransportChannel {
    /// The channel's number on the wire.
    pub open spec fn spec_to_u8(self) -> u8 {
        match self {
            TransportChannel::Reliable => 1,
            TransportChannel::Unreliable => 2,
        }
    }

    pub fn to_u8(&self) -> (r: u8)
        ensures
            r == self.spec_to_u8(),
    {
        match self {
            TransportChannel::Reliable => 1,
            TransportChannel::Unreliable => 2,
        }
    }

    /// The channel that a number names: 2 is unreliable, every other
    /// number reliable.
    pub open spec fn spec_from_i32(value: i32) -> TransportChannel {
        if value == 2 {
            TransportChannel::Unreliable
        } else {
            TransportChannel::Reliable
        }
    }
}

impl From<i32> for TransportChannel {
    fn from(value: i32) -> (r: TransportChannel) {
        if value == 2 {
            TransportChannel::Unreliable
        } else {
            TransportChannel::Reliable
        }
    }
}

impl vstd::std_specs::convert::FromSpecImpl<i32> for TransportChannel {
    open spec fn obeys_from_spec() -> bool {
        true
    }

    open spec fn from_spec(value: i32) -> TransportChannel {
        TransportChannel::spec_from_i32(value)
    }
}

} // verus!
