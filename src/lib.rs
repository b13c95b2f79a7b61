//! A Noise-style handshake engine: derivation of the step sequence each role
//! runs for a handshake pattern, the cipher and symmetric states that chain
//! the key material, and a fallback automaton from a 0-RTT to a 1-RTT attempt.
pub mod cipher_state;
pub mod crypto;
pub mod fallback;
pub mod flow;
pub mod grammar;
pub mod handshake_state;
pub mod header;
pub mod keyring;
pub mod primitives;
pub mod session;
pub mod steps;
pub mod symmetric_state;
