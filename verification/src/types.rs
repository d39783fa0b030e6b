//! Shared value types: the deployment mode, the error taxonomy, and the
//! caller identity as the host hands it over.

use vstd::prelude::*;

verus! {

/// Which named oracle key the process works against: a production deployment
/// uses the production key identity, a test deployment a test-only one.
#[derive(Clone, Copy, Debug, PartialEq, Eq, Structural)]
pub enum Mode {
    Production,
    Test,
}

/// Every failure an operation of this library can report.  Each variant is
/// tied by the contracts to exactly the inputs that produce it.
#[derive(Clone, Copy, Debug, PartialEq, Eq, Structural)]
pub enum CertError {
    /// The symmetric key supplied at process creation is not 64 hex digits.
    ConfigurationError,
    /// A privileged operation was invoked by a caller other than the
    /// authorized principal.
    Unauthorized,
    /// A second key initialization was attempted after one succeeded.
    KeyAlreadyInitialized,
    /// The anonymous caller asked for a certified identity.
    AnonymousCallerRejected,
    /// The external oracle failed to sign.
    SigningUnavailable,
    /// The asymmetric public key is not available: the oracle failed to
    /// return one, or signing was requested before initialization.
    PublicKeyUnavailable,
    /// Symmetric encryption could not run: the stored key material is not
    /// exactly 32 bytes, or the payload exceeds the cipher's limit.
    EncryptionFailed,
}

impl CertError {
    /// A short stable message for each variant, for the host to surface.
    pub fn message(&self) -> (r: &'static str)
        ensures
            r@ == self.spec_message(),
    {
        match self {
            CertError::ConfigurationError => "Invalid hex format for encryption key",
            CertError::Unauthorized => "Unauthorized",
            CertError::KeyAlreadyInitialized => "ECDSA key already set",
            CertError::AnonymousCallerRejected => "Anonymous principal not allowed to make calls",
            CertError::SigningUnavailable => "Failed to sign with ECDSA",
            CertError::PublicKeyUnavailable => "Failed to get ECDSA public key",
            CertError::EncryptionFailed => "Encryption failed",
        }
    }

    pub open spec fn spec_message(&self) -> Seq<char> {
        match self {
            CertError::ConfigurationError => "Invalid hex format for encryption key"@,
            CertError::Unauthorized => "Unauthorized"@,
            CertError::KeyAlreadyInitialized => "ECDSA key already set"@,
            CertError::AnonymousCallerRejected => "Anonymous principal not allowed to make calls"@,
            CertError::SigningUnavailable => "Failed to sign with ECDSA"@,
            CertError::PublicKeyUnavailable => "Failed to get ECDSA public key"@,
            CertError::EncryptionFailed => "Encryption failed"@,
        }
    }
}

/// The authenticated identity of a caller, as the host delivers it: the
/// textual form (UTF-8 bytes) and the raw principal bytes.  One reserved raw
/// value, the single byte 4, denotes the anonymous caller.
pub struct CallerId {
    /// UTF-8 bytes of the textual principal representation.
    pub text: Vec<u8>,
    /// Raw principal bytes.
    pub raw: Vec<u8>,
}

/// The raw byte form of the anonymous principal.
pub open spec fn anonymous_raw() -> Seq<u8> {
    seq![4u8]
}

impl CallerId {
    pub open spec fn spec_is_anonymous(&self) -> bool {
        self.raw@ == anonymous_raw()
    }

    /// True exactly when this caller is the anonymous principal.
    pub fn is_anonymous(&self) -> (r: bool)
        ensures
            r == self.spec_is_anonymous(),
    {
        let r = self.raw.len() == 1 && self.raw[0] == 4u8;
        proof {
            if r {
                assert(self.raw@ =~= anonymous_raw());
            }
        }
        r
    }
}

} // verus!
