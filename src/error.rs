use vstd::prelude::*;

verus! {

/// Why a discovery or a transfer ended without success.
#[derive(Debug, Clone, Copy, PartialEq, Eq, Structural)]
pub enum ProtocolError {
    /// No discovery reply came within the client's attempts.
    ServerNotFound,
    /// No connection delivered a file within the server's attempts.
    ClientNotFound,
    /// The header declared more bytes than the size ceiling allows.
    TooLarge { declared: u64 },
    /// The connection closed after `received` bytes of the frame, before it was
    /// complete.
    Truncated { received: u64 },
}

} // verus!
