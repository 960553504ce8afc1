//! Failures of the datagram transport, as far as the core tells them apart.

use vstd::prelude::*;

verus! {

/// The greatest length of a datagram, in bytes. A client sends none that is
/// longer and a listener refuses one that is.
pub const MAX_DATAGRAM_SIZE: usize = 1024;

/// Why a receive or a transmission failed.
#[derive(Debug, Clone, Copy, PartialEq, Eq, Structural)]
pub enum TransportError {
    /// The call was interrupted before anything was transferred.
    Interrupted,
    /// Nothing could be transferred without blocking.
    WouldBlock,
    /// The call ran out of time.
    TimedOut,
    /// A peer reported that an earlier datagram could not be delivered.
    ConnectionReset,
    /// A peer refused an earlier datagram.
    ConnectionRefused,
    /// Anything else: the endpoint is taken to be unusable.
    Other,
}

impl TransportError {
    /// Whether the failure passes: the endpoint can be used again.
    pub open spec fn spec_is_transient(self) -> bool {
        self != TransportError::Other
    }

    /// Whether the failure passes: the endpoint can be used again.
    #[verifier::when_used_as_spec(spec_is_transient)]
    pub fn is_transient(self) -> (b: bool)
        ensures
            b == self.spec_is_transient(),
    {
        match self {
            TransportError::Other => false,
            _ => true,
        }
    }
}

} // verus!
