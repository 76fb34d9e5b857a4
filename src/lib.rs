//! Finding a peer on the local network and handing it one file.
//!
//! The library holds the two wire protocols and every decision taken while
//! running them: what a datagram means, when a discovery client stops
//! listening, how a length-prefixed stream is framed and checked, and when a
//! receiving server stops accepting connections. Sockets and files stay with
//! the caller, which performs the action that each step names.

pub mod config;
pub mod discovery;
pub mod error;
pub mod framing;
pub mod receiver;
pub mod server;
