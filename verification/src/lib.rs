//! XEdDSA: EdDSA-style signatures made and checked with a Montgomery
//! (X25519) key pair, so that one key pair serves key agreement and signing.
//!
//! [`xeddsa::XEdDSA`] signs and verifies. What a signature is and when one
//! is accepted is stated over byte strings read as integers ([`bytes`]),
//! integers modulo the group order ([`scalar`]), encoded curve points
//! ([`curve`]) and SHA-512 ([`hash`]). The curve and scalar arithmetic and
//! the hash are those of `curve25519-dalek` and `sha2`.

pub mod bytes;
pub mod config;
pub mod curve;
pub mod hash;
pub mod log;
pub mod scalar;
pub mod uint;
pub mod xeddsa;
