//! Authenticated symmetric encryption of the certified record.
//!
//! AES-256 in Galois/Counter mode, with a deterministic 12-byte nonce: the
//! big-endian host timestamp followed by the first four bytes of the caller's
//! raw principal.  The nonce is prepended verbatim to the ciphertext, whose
//! last 16 bytes are the authentication tag.

use vstd::prelude::*;

use crate::codec::append_be64;
use crate::codec::append_bytes;
use crate::codec::be64;
use crate::codec::lemma_be64_injective;
use crate::types::CertError;

verus! {

/// The longest plaintext the cipher accepts, in bytes.
pub const AEAD_MAX_PLAINTEXT: u64 = 68719476704;

/// What sealing a plaintext under a key and a nonce yields.  The cipher
/// itself lives outside; all contracts speak of this name.
pub uninterp spec fn aes256gcm_seal(key: Seq<u8>, nonce: Seq<u8>, plaintext: Seq<u8>) -> Seq<u8>;

/// Relies on `aes_gcm::Aes256Gcm` through the allocating `Aead::encrypt`:
/// for a 32-byte key and a 12-byte nonce the ciphertext depends on key,
/// nonce and plaintext alone, is the plaintext length plus the 16-byte tag,
/// and the call fails exactly on plaintexts over the mode's length cap.
#[verifier::external_body]
fn aead_seal(key: &[u8], nonce: &[u8], plaintext: &[u8]) -> (r: Option<Vec<u8>>)
    requires
        key@.len() == 32,
        nonce@.len() == 12,
    ensures
        r is Some <==> plaintext@.len() <= AEAD_MAX_PLAINTEXT,
        r matches Some(c) ==> c@ == aes256gcm_seal(key@, nonce@, plaintext@) && c@.len()
            == plaintext@.len() + 16,
{
    let key = match aes_gcm::Key::<aes_gcm::Aes256Gcm>::try_from(key) {
        Ok(k) => k,
        Err(_) => { return None; },
    };
    let nonce = match aes_gcm::Nonce::<aes_gcm::aead::consts::U12>::try_from(nonce) {
        Ok(n) => n,
        Err(_) => { return None; },
    };
    let cipher = <aes_gcm::Aes256Gcm as aes_gcm::KeyInit>::new(&key);
    match aes_gcm::aead::Aead::encrypt(&cipher, &nonce, plaintext) {
        Ok(c) => Some(c),
        Err(_) => None,
    }
}

/// Relies on `aes_gcm::Aes256Gcm` through the allocating `Aead::decrypt`:
/// opening inverts sealing under the same key and nonce, and a successful
/// open returns the unique plaintext whose sealing is the input.
#[verifier::external_body]
fn aead_open(key: &[u8], nonce: &[u8], ciphertext: &[u8]) -> (r: Option<Vec<u8>>)
    requires
        key@.len() == 32,
        nonce@.len() == 12,
    ensures
        (match r {
            Option::Some(q) => ciphertext@ == aes256gcm_seal(key@, nonce@, q@) && q@.len() + 16
                == ciphertext@.len() && forall|p: Seq<u8>|
                ciphertext@ == #[trigger] aes256gcm_seal(key@, nonce@, p) ==> p == q@,
            Option::None => forall|p: Seq<u8>|
                ciphertext@ != #[trigger] aes256gcm_seal(key@, nonce@, p) || p.len()
                    > AEAD_MAX_PLAINTEXT,
        }),
{
    let key = match aes_gcm::Key::<aes_gcm::Aes256Gcm>::try_from(key) {
        Ok(k) => k,
        Err(_) => { return None; },
    };
    let nonce = match aes_gcm::Nonce::<aes_gcm::aead::consts::U12>::try_from(nonce) {
        Ok(n) => n,
        Err(_) => { return None; },
    };
    let cipher = <aes_gcm::Aes256Gcm as aes_gcm::KeyInit>::new(&key);
    match aes_gcm::aead::Aead::decrypt(&cipher, &nonce, ciphertext) {
        Ok(p) => Some(p),
        Err(_) => None,
    }
}

/// The deterministic nonce for one encryption: the big-endian timestamp,
/// then the first four bytes of the caller's raw principal.
pub open spec fn nonce_for(timestamp: u64, caller_raw: Seq<u8>) -> Seq<u8>
    recommends
        caller_raw.len() >= 4,
{
    be64(timestamp) + caller_raw.subrange(0, 4)
}

/// The full encrypted payload: the nonce, then the sealed record.
pub open spec fn enc_payload(
    key: Seq<u8>,
    timestamp: u64,
    caller_raw: Seq<u8>,
    plaintext: Seq<u8>,
) -> Seq<u8> {
    nonce_for(timestamp, caller_raw) + aes256gcm_seal(
        key,
        nonce_for(timestamp, caller_raw),
        plaintext,
    )
}

/// Requests at different times, or from callers whose raw principals differ
/// within the first four bytes, never reuse a nonce.
pub proof fn lemma_nonce_distinct(t1: u64, c1: Seq<u8>, t2: u64, c2: Seq<u8>)
    requires
        c1.len() >= 4,
        c2.len() >= 4,
        t1 != t2 || c1.subrange(0, 4) != c2.subrange(0, 4),
    ensures
        nonce_for(t1, c1) != nonce_for(t2, c2),
{
    if nonce_for(t1, c1) == nonce_for(t2, c2) {
        assert(be64(t1) =~= nonce_for(t1, c1).subrange(0, 8));
        assert(be64(t2) =~= nonce_for(t2, c2).subrange(0, 8));
        lemma_be64_injective(t1, t2);
        assert(c1.subrange(0, 4) =~= nonce_for(t1, c1).subrange(8, 12));
        assert(c2.subrange(0, 4) =~= nonce_for(t2, c2).subrange(8, 12));
    }
}

/// Encrypts a record under the process key: the result is the nonce derived
/// from the timestamp and the caller, followed by the authenticated
/// ciphertext.  Fails exactly when the key material is not 32 bytes or the
/// plaintext exceeds the cipher's cap; for a fixed key, timestamp and caller
/// the output is determined by the plaintext.
pub fn encrypt_data(key: &[u8], timestamp: u64, caller_raw: &[u8], data: &[u8]) -> (r: Result<
    Vec<u8>,
    CertError,
>)
    requires
        caller_raw@.len() >= 4,
    ensures
        r is Ok <==> (key@.len() == 32 && data@.len() <= AEAD_MAX_PLAINTEXT),
        r matches Ok(c) ==> c@ == enc_payload(key@, timestamp, caller_raw@, data@) && c@.len()
            == data@.len() + 28,
        r matches Err(e) ==> e == CertError::EncryptionFailed,
{
    if key.len() != 32 {
        return Err(CertError::EncryptionFailed);
    }
    let mut nonce: Vec<u8> = Vec::new();
    append_be64(&mut nonce, timestamp);
    nonce.push(caller_raw[0]);
    nonce.push(caller_raw[1]);
    nonce.push(caller_raw[2]);
    nonce.push(caller_raw[3]);
    proof {
        assert(nonce@ =~= nonce_for(timestamp, caller_raw@));
    }
    match aead_seal(key, nonce.as_slice(), data) {
        Some(ct) => {
            let mut out = nonce;
            append_bytes(&mut out, ct.as_slice());
            proof {
                assert(out@ =~= enc_payload(key@, timestamp, caller_raw@, data@));
            }
            Ok(out)
        },
        None => Err(CertError::EncryptionFailed),
    }
}

/// Opens an encrypted payload: the first 12 bytes are taken as the nonce,
/// the rest as ciphertext and tag.  Whenever the payload is exactly an
/// encryption of some plaintext under this key — in particular, whatever
/// `encrypt_data` produced — that plaintext and no other comes back.
pub fn decrypt_data(key: &[u8], payload: &[u8]) -> (r: Option<Vec<u8>>)
    requires
        key@.len() == 32,
    ensures
        r matches Some(p) ==> payload@.len() >= 12 && payload@.skip(12) == aes256gcm_seal(
            key@,
            payload@.take(12),
            p@,
        ),
        forall|p: Seq<u8>|
            payload@.len() >= 12 && payload@.skip(12) == #[trigger] aes256gcm_seal(
                key@,
                payload@.take(12),
                p,
            ) && p.len() <= AEAD_MAX_PLAINTEXT ==> (r matches Some(q) && q@ == p),
        forall|t: u64, cr: Seq<u8>, p: Seq<u8>|
            cr.len() >= 4 && payload@ == #[trigger] enc_payload(key@, t, cr, p) && p.len()
                <= AEAD_MAX_PLAINTEXT ==> (r matches Some(q) && q@ == p),
{
    if payload.len() < 12 {
        return None;
    }
    let mut nonce: Vec<u8> = Vec::new();
    let mut i: usize = 0;
    while i < 12
        invariant
            0 <= i <= 12,
            payload@.len() >= 12,
            nonce@ == payload@.take(i as int),
        decreases 12 - i,
    {
        nonce.push(payload[i]);
        proof {
            assert(nonce@ =~= payload@.take(i + 1));
        }
        i = i + 1;
    }
    let mut ct: Vec<u8> = Vec::new();
    let mut j: usize = 12;
    while j < payload.len()
        invariant
            12 <= j <= payload@.len(),
            ct@ == payload@.subrange(12, j as int),
        decreases payload@.len() - j,
    {
        ct.push(payload[j]);
        proof {
            assert(ct@ =~= payload@.subrange(12, j + 1));
        }
        j = j + 1;
    }
    proof {
        assert(ct@ =~= payload@.skip(12));
    }
    let r = aead_open(key, nonce.as_slice(), ct.as_slice());
    proof {
        assert forall|t: u64, cr: Seq<u8>, p: Seq<u8>|
            cr.len() >= 4 && payload@ == #[trigger] enc_payload(key@, t, cr, p) && p.len()
                <= AEAD_MAX_PLAINTEXT implies (r matches Some(q) && q@ == p) by {
            assert(nonce_for(t, cr).len() == 12);
            assert(payload@.take(12) =~= nonce_for(t, cr));
            assert(payload@.skip(12) =~= aes256gcm_seal(key@, nonce_for(t, cr), p));
        }
    }
    r
}

} // verus!
