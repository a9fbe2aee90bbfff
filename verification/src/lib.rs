//! Noise_XX_25519_ChaChaPoly_BLAKE2s: the three-message XX handshake, the
//! symmetric-state key schedule behind it, and the transport ciphers that it
//! yields. All buffers are supplied by the caller.

use vstd::prelude::*;

pub mod bytes;
pub mod cipher_state;
pub mod handshake;
pub mod laws;
pub mod primitives;
pub mod symmetric_state;
pub mod transport;
pub mod x25519;

pub use cipher_state::CipherState;
pub use handshake::Handshake;
pub use handshake::HandshakeState;
pub use symmetric_state::SymmetricState;
pub use transport::NoiseRead;
pub use transport::NoiseWrite;
pub use transport::Transport;

verus! {

/// Why an operation was refused.
#[derive(Debug, Clone, Copy, PartialEq, Eq)]
pub enum Error {
    /// A buffer supplied by the caller is too short.
    Input,
    /// The authentication tag does not match.
    Decrypt,
    /// The Diffie-Hellman output was all zeros.
    Dh,
    /// The handshake expects the other direction.
    NotMyTurn,
    /// The handshake is complete and must be upgraded.
    NeedUpgrade,
}

} // verus!
