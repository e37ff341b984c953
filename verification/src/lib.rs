//! Stream-cipher framing for an encrypted byte tunnel.
//!
//! A `DecryptedReader` turns ciphertext pulled from a transport into
//! plaintext served in caller-sized chunks; an `EncryptedWriter` turns
//! plaintext into ciphertext, prefixing a one-time IV, and tracks the
//! flush of that ciphertext to the transport.  The asynchronous transport
//! itself is driven by the caller; this crate holds the buffer and cipher
//! state machines.

pub mod byte_buffer;
pub mod cipher;
pub mod reader;
pub mod writer;
pub mod laws;

use vstd::prelude::*;

verus! {

/// Size of the scratch buffer a driver should use for transport reads.
pub const BUFFER_SIZE: usize = 8192;

/// Errors surfaced by the reader and writer.  Both are terminal for the
/// connection direction they occur on.
#[derive(Clone, Copy, Debug, PartialEq, Eq, Structural)]
pub enum StreamError {
    /// The cipher failed (malformed state, authentication failure).
    Cipher,
    /// The transport accepted zero bytes while ciphertext was still pending.
    UnexpectedEof,
}

} // verus!
