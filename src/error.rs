use vstd::prelude::*;

verus! {

/// The errors that can occur when encoding, decoding or framing SSH data.
#[derive(Debug, Clone, PartialEq, Eq)]
pub enum Error {
    /// Fewer bytes were available than a declared length requires.
    TruncatedInput,
    /// A packet or padding length violates the framing invariants,
    /// including the `PACKET_MAX_SIZE` cap.
    BadLength,
    /// The Message Authentication Code of a packet did not match.
    MacMismatch,
    /// The `string` that starts at this offset of the input must hold UTF-8
    /// text, and did not.
    Utf8Validation(usize),
    /// The `string` that starts at this offset of the input must hold ASCII
    /// text, and did not.
    AsciiValidation(usize),
    /// An error reported by a cipher, passed through unchanged.
    Cipher(String),
    /// The parsed identifier was not conformant.
    BadIdentifer(String),
    /// The input ended while waiting for the SSH identifier.
    UnexpectedEof,
}

} // verus!
