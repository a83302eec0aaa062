use vstd::prelude::*;

verus! {

/// The classes of failure a stream session can meet.
#[derive(Clone, Copy, Debug, PartialEq, Eq, Structural)]
pub enum StreamError {
    /// The ticker or the token is empty; reported to the caller before any
    /// connection is attempted.
    InvalidArgument,
    /// The connection could not be opened (address, DNS, TLS, handshake).
    ConnectionError,
    /// A frame could not be encoded or decoded as the protocol demands.
    ProtocolError,
    /// The peer or the network closed the connection.
    TransportClosed,
    /// The consumer refused a delivered frame.
    SinkError,
}

impl StreamError {
    /// Whether the session recovers from this error by reconnecting.
    pub open spec fn spec_is_recoverable(&self) -> bool {
        *self == StreamError::ConnectionError || *self == StreamError::TransportClosed
    }

    /// Whether the session recovers from this error by reconnecting.
    #[verifier::when_used_as_spec(spec_is_recoverable)]
    pub fn is_recoverable(&self) -> (r: bool)
        ensures
            r == self.spec_is_recoverable(),
    {
        match self {
            StreamError::ConnectionError | StreamError::TransportClosed => true,
            _ => false,
        }
    }
}

} // verus!
