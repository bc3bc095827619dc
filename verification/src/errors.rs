//! The closed error taxonomy of the authentication core.
//!
//! Every fallible operation reports one of these variants; callers branch on
//! the kind, never on message text.

use vstd::prelude::*;

verus! {

/// One variant per failure category of the core.
#[derive(Clone, Copy, Debug, PartialEq, Eq, Structural)]
pub enum AuthError {
    /// Malformed hex or base64 input.
    Encoding,
    /// A key or signature decodes to the wrong byte count.
    Length,
    /// A token does not match the header literal or the two-segment shape.
    Structure,
    /// Signature verification failed.
    Crypto,
    /// A payload failed to encode or decode.
    Serialization,
    /// A stored password hash is malformed or uses unsupported parameters.
    Config,
}

} // verus!
