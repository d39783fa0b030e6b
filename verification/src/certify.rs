//! The certification service.
//!
//! One request runs in two steps around the suspending signing call: the
//! preparation rejects the anonymous caller, requires the key lifecycle to
//! have reached readiness, builds the canonical certificate for the caller
//! and the current time, and hands back its digest for the oracle to sign;
//! the completion assembles the certified-identity record around the
//! signature, encrypts it under the process key, and returns the payload
//! hex-encoded.

use vstd::prelude::*;

use crate::cipher::enc_payload;
use crate::cipher::encrypt_data;
use crate::codec::certificate_bytes;
use crate::codec::certificate_json;
use crate::codec::identity_bytes;
use crate::codec::identity_json;
use crate::codec::lemma_dec_repr_len;
use crate::codec::lemma_json_escape_len;
use crate::codec::sha256;
use crate::codec::sha256_of;
use crate::hexcodec::hex_chars;
use crate::hexcodec::hex_string;
use crate::hexcodec::lemma_hex_seq_ascii;
use crate::state::ProcessState;
use crate::state::key_name_spec;
use crate::state::get_key_name;
use crate::types::CallerId;
use crate::types::CertError;

verus! {

/// A request for the oracle to sign a 32-byte digest under the key name the
/// deployment mode selects, with the (always empty) derivation path.
pub struct SigningRequest {
    pub message_hash: Vec<u8>,
    pub key_name: String,
    pub derivation_path: Vec<Vec<u8>>,
}

/// The digest a certification request asks the oracle to sign: the 256-bit
/// hash of the canonical certificate for this subject and time.
pub open spec fn certify_digest(text: Seq<u8>, timestamp: u64) -> Seq<u8> {
    sha256_of(certificate_json(text, timestamp))
}

/// Starts a certification: builds the certificate binding the caller to the
/// current time and returns its digest for signing.  The anonymous caller
/// is always rejected, before anything reaches the oracle; an uninitialized
/// key lifecycle fails the request too.
pub fn prepare_certification(state: &ProcessState, caller: &CallerId, now: u64) -> (r: Result<
    SigningRequest,
    CertError,
>)
    ensures
        r is Ok <==> (!caller.spec_is_anonymous() && state@.public_key is Some),
        caller.spec_is_anonymous() ==> (r matches Err(e) && e
            == CertError::AnonymousCallerRejected),
        (!caller.spec_is_anonymous() && state@.public_key is None) ==> (r matches Err(e) && e
            == CertError::PublicKeyUnavailable),
        r matches Ok(req) ==> req.message_hash@ == certify_digest(caller.text@, now)
            && req.message_hash@.len() == 32 && req.key_name@ == key_name_spec(state@.mode)
            && req.derivation_path@.len() == 0,
{
    if caller.is_anonymous() {
        return Err(CertError::AnonymousCallerRejected);
    }
    if state.public_key.is_none() {
        return Err(CertError::PublicKeyUnavailable);
    }
    let cert = certificate_bytes(caller.text.as_slice(), now);
    let digest = sha256(cert.as_slice());
    Ok(SigningRequest {
        message_hash: digest,
        key_name: get_key_name(state.mode),
        derivation_path: Vec::new(),
    })
}

/// The certified-identity record stays well under the cipher's plaintext
/// cap whenever its variable parts do.
pub proof fn lemma_identity_json_len(
    text: Seq<u8>,
    timestamp: u64,
    signature: Seq<u8>,
    issuer_key: Option<Seq<u8>>,
)
    ensures
        identity_json(text, timestamp, signature, issuer_key).len() <= 142 + 12 * text.len() + 2
            * signature.len() + 2 * (match issuer_key {
            Option::Some(k) => k.len(),
            Option::None => 0,
        }),
{
    lemma_json_escape_len(text);
    lemma_dec_repr_len(timestamp);
    lemma_hex_seq_ascii(signature);
    match issuer_key {
        Option::Some(k) => {
            lemma_hex_seq_ascii(k);
        },
        Option::None => {},
    }
}

/// Finishes a certification with the oracle's signature: assembles the
/// certified-identity record (the subject, the embedded certificate, the
/// hex signature, and — when asked for — the issuer's public key), encrypts
/// it under the process key with the nonce derived from the same timestamp
/// and caller, and returns the payload hex-encoded.
pub fn complete_certification(
    state: &ProcessState,
    caller: &CallerId,
    now: u64,
    signature: &[u8],
    include_public_key: bool,
) -> (r: Result<String, CertError>)
    requires
        !caller.spec_is_anonymous(),
        caller.raw@.len() >= 4,
        state.wf(),
        state@.public_key is Some,
        (state@.public_key matches Some(k) ==> k.len() < 0x40000000),
        caller.text@.len() < 0x40000000,
        signature@.len() < 0x40000000,
    ensures
        r is Ok,
        r matches Ok(h) ==> h@ == hex_chars(
            enc_payload(
                state@.sym_key,
                now,
                caller.raw@,
                identity_json(
                    caller.text@,
                    now,
                    signature@,
                    if include_public_key {
                        state@.public_key
                    } else {
                        Option::None
                    },
                ),
            ),
        ),
{
    let issuer_key: Option<&Vec<u8>> = if include_public_key {
        self_key_ref(state)
    } else {
        None
    };
    let plaintext = identity_bytes(caller.text.as_slice(), now, signature, issuer_key);
    proof {
        lemma_identity_json_len(
            caller.text@,
            now,
            signature@,
            match issuer_key {
                Option::Some(k) => Option::Some(k@),
                Option::None => Option::None,
            },
        );
    }
    match encrypt_data(
        state.sym_key.as_slice(),
        now,
        caller.raw.as_slice(),
        plaintext.as_slice(),
    ) {
        Ok(payload) => Ok(hex_string(payload.as_slice())),
        Err(e) => Err(e),
    }
}

/// The stored public key by reference, for inlining into the record.
fn self_key_ref(state: &ProcessState) -> (r: Option<&Vec<u8>>)
    ensures
        (match (r, state@.public_key) {
            (Option::Some(k), Option::Some(m)) => k@ == m,
            (Option::None, Option::None) => true,
            _ => false,
        }),
{
    match &state.public_key {
        Option::Some(k) => Option::Some(k),
        Option::None => Option::None,
    }
}

} // verus!
