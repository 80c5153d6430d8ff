//! Protocol engine for a UDP rendezvous and relay service.
//!
//! Clients register an address with a server under a stable global id, look
//! up other clients' addresses, and exchange opaque payloads relayed through
//! the server. This crate holds the protocol core: the binary frame and
//! payload codecs, the server-side device registry and packet router, and the
//! client-side correlation of unordered replies to outstanding calls.
//! Sockets, configuration loading and logging live outside the core and talk
//! to it through plain values.

use vstd::prelude::*;

pub mod codec;
pub mod correlation;
pub mod event;
pub mod facade;
pub mod frame;
pub mod pkg;
pub mod registry;
pub mod router;
pub mod util;

verus! {

/// Errors of the protocol core.
///
/// Decode failures are non-fatal everywhere: callers drop the packet and
/// continue. Encode failures are reported to the caller before any I/O.
#[derive(Clone, Copy, Debug, PartialEq, Eq, Structural)]
pub enum ProtocolError {
    /// The bytes are not a well-formed frame or payload: truncated input, a
    /// length that disagrees with the data, an unknown discriminant, or a
    /// string field that is not UTF-8.
    Decode,
    /// A single length-prefixed field exceeds the 16-bit length prefix.
    FieldTooLong,
    /// A serialized payload exceeds the 255-byte frame content ceiling.
    PayloadTooLarge,
    /// A package carries an identity token other than the expected one.
    IdentityMismatch,
    /// No matching reply arrived before the caller's deadline.
    Timeout,
}

} // verus!
