use vstd::prelude::*;

verus! {

/// UDP port on which a server listens for discovery requests.
pub const DISCOVERY_PORT: u16 = 3402;

/// TCP port on which a server accepts the file transfer.
pub const TRANSFER_PORT: u16 = 3403;

/// Largest payload, in bytes, that a server accepts (4 MiB).
pub const SIZE_CEILING: u64 = 4 * 1024 * 1024;

/// Read and write timeout of the discovery client's socket, in seconds.
pub const DISCOVERY_TIMEOUT_SECS: u64 = 3;

/// Receive attempts a discovery client makes before it gives up.
pub const DISCOVERY_ATTEMPTS: u32 = 10;

/// Accept attempts a transfer server makes before it gives up.
pub const ACCEPT_ATTEMPTS: u32 = 3;

} // verus!
