//! The one-shot lifecycle of the asymmetric public key.
//!
//! Minting the key takes one suspending oracle call, so it is split in two
//! steps around it: `begin_key_init` authorizes the caller and hands back
//! the oracle request, the host performs the fetch, and `complete_key_init`
//! re-checks and stores the result.  The re-check closes the race between
//! two interleaved initializations: whichever completion runs second finds
//! the key set and fails, whatever both observed at their beginnings.

use vstd::prelude::*;

use crate::hexcodec::hex_chars;
use crate::hexcodec::hex_string;
use crate::state::ProcessState;
use crate::state::StateModel;
use crate::state::bytes_eq;
use crate::state::get_key_name;
use crate::state::key_name_spec;
use crate::types::CallerId;
use crate::types::CertError;

verus! {

/// A request for the oracle's public key: the key name selected by the
/// deployment mode, and the (always empty) derivation path.
pub struct PublicKeyRequest {
    pub key_name: String,
    pub derivation_path: Vec<Vec<u8>>,
}

/// What beginning an initialization yields on a given state: the key name
/// to request, or the failure.
pub open spec fn begin_key_init_spec(m: StateModel, caller_raw: Seq<u8>) -> Result<
    Seq<char>,
    CertError,
> {
    if caller_raw != m.controller {
        Err(CertError::Unauthorized)
    } else if m.public_key is Some {
        Err(CertError::KeyAlreadyInitialized)
    } else {
        Ok(key_name_spec(m.mode))
    }
}

/// The state after a completion runs: the oracle key is stored only if the
/// caller is authorized and no key is stored yet.
pub open spec fn complete_key_init_state(
    m: StateModel,
    caller_raw: Seq<u8>,
    oracle_key: Seq<u8>,
) -> StateModel {
    if caller_raw == m.controller && m.public_key is None {
        StateModel { public_key: Option::Some(oracle_key), ..m }
    } else {
        m
    }
}

/// What a completion reports: the stored key hex-encoded, or the failure.
pub open spec fn complete_key_init_spec(
    m: StateModel,
    caller_raw: Seq<u8>,
    oracle_key: Seq<u8>,
) -> Result<Seq<char>, CertError> {
    if caller_raw != m.controller {
        Err(CertError::Unauthorized)
    } else if m.public_key is Some {
        Err(CertError::KeyAlreadyInitialized)
    } else {
        Ok(hex_chars(oracle_key))
    }
}

/// Starts key initialization: only the authorized principal may, and only
/// while no key is stored.  On success the host is to fetch the oracle's
/// public key under the returned name with an empty derivation path, then
/// call `complete_key_init` with what came back.
pub fn begin_key_init(state: &ProcessState, caller: &CallerId) -> (r: Result<
    PublicKeyRequest,
    CertError,
>)
    ensures
        (match (r, begin_key_init_spec(state@, caller.raw@)) {
            (Ok(req), Ok(name)) => req.key_name@ == name && req.derivation_path@.len() == 0,
            (Err(e1), Err(e2)) => e1 == e2,
            _ => false,
        }),
{
    if !bytes_eq(caller.raw.as_slice(), state.controller.as_slice()) {
        return Err(CertError::Unauthorized);
    }
    if state.public_key.is_some() {
        return Err(CertError::KeyAlreadyInitialized);
    }
    Ok(PublicKeyRequest { key_name: get_key_name(state.mode), derivation_path: Vec::new() })
}

/// Finishes key initialization with the oracle's answer.  The authorization
/// and the one-shot condition are checked again against the state as it is
/// now: if a concurrent initialization stored a key while the oracle call
/// was in flight, this completion fails and changes nothing.
pub fn complete_key_init(state: &mut ProcessState, caller: &CallerId, oracle_key: Vec<u8>) -> (r:
    Result<String, CertError>)
    ensures
        final(state)@ == complete_key_init_state(old(state)@, caller.raw@, oracle_key@),
        (match (r, complete_key_init_spec(old(state)@, caller.raw@, oracle_key@)) {
            (Ok(h), Ok(c)) => h@ == c,
            (Err(e1), Err(e2)) => e1 == e2,
            _ => false,
        }),
        final(state)@.sym_key == old(state)@.sym_key,
        final(state)@.controller == old(state)@.controller,
        final(state)@.mode == old(state)@.mode,
        r is Ok ==> final(state)@.public_key == Option::Some(oracle_key@),
        r is Err ==> final(state)@ == old(state)@,
{
    if !bytes_eq(caller.raw.as_slice(), state.controller.as_slice()) {
        return Err(CertError::Unauthorized);
    }
    if state.public_key.is_some() {
        return Err(CertError::KeyAlreadyInitialized);
    }
    let hex = hex_string(oracle_key.as_slice());
    state.public_key = Some(oracle_key);
    Ok(hex)
}

/// Initialization succeeds at most once per process lifetime: once a
/// completion has stored a key, every later attempt fails — with
/// `KeyAlreadyInitialized` for the authorized principal, `Unauthorized` for
/// anyone else — and the stored key never changes.
pub proof fn lemma_key_init_one_shot(
    m: StateModel,
    caller1: Seq<u8>,
    key1: Seq<u8>,
    caller2: Seq<u8>,
    key2: Seq<u8>,
)
    requires
        complete_key_init_spec(m, caller1, key1) is Ok,
    ensures
        complete_key_init_state(m, caller1, key1).public_key == Option::Some(key1),
        (complete_key_init_spec(m, caller1, key1) matches Ok(h) && h.len() == 2 * key1.len()),
        begin_key_init_spec(complete_key_init_state(m, caller1, key1), caller2) is Err,
        caller2 == m.controller ==> begin_key_init_spec(
            complete_key_init_state(m, caller1, key1),
            caller2,
        ) == Result::<Seq<char>, CertError>::Err(CertError::KeyAlreadyInitialized),
        complete_key_init_spec(complete_key_init_state(m, caller1, key1), caller2, key2) is Err,
        complete_key_init_state(complete_key_init_state(m, caller1, key1), caller2, key2)
            == complete_key_init_state(m, caller1, key1),
{
    crate::hexcodec::lemma_hex_seq_ascii(key1);
}

/// Two interleaved initializations by the authorized principal both pass
/// their entry check on the uninitialized state, yet exactly one key is
/// stored: the first completion succeeds, the second fails with
/// `KeyAlreadyInitialized` and leaves the first key in place.
pub proof fn lemma_key_init_race(m: StateModel, caller: Seq<u8>, key1: Seq<u8>, key2: Seq<u8>)
    requires
        m.public_key is None,
        caller == m.controller,
    ensures
        begin_key_init_spec(m, caller) is Ok,
        complete_key_init_spec(m, caller, key1) is Ok,
        complete_key_init_state(m, caller, key1).public_key == Option::Some(key1),
        complete_key_init_spec(complete_key_init_state(m, caller, key1), caller, key2)
            == Result::<Seq<char>, CertError>::Err(CertError::KeyAlreadyInitialized),
        complete_key_init_state(complete_key_init_state(m, caller, key1), caller, key2)
            == complete_key_init_state(m, caller, key1),
{
}

} // verus!
