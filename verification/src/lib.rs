//! A library for issuing encrypted, signed identity attestations.
//!
//! A host process holds a single `ProcessState`: a 256-bit symmetric key fixed
//! at creation, an asymmetric public key minted at most once through an
//! external signing oracle, the principal authorized for privileged
//! operations, and a deployment-mode flag.  On request, the certification
//! service builds a canonical certificate for the caller, hashes it, has the
//! oracle sign the digest, and returns the whole record encrypted under the
//! symmetric key with a nonce derived from the timestamp and the caller.
//!
//! The host runtime (message dispatch, the oracle calls themselves, stable
//! storage) stays outside; this crate holds the decisions and the byte-level
//! encodings, each with a proved contract.

pub mod certify;
pub mod cipher;
pub mod codec;
pub mod hexcodec;
pub mod lifecycle;
pub mod state;
pub mod store;
pub mod types;
