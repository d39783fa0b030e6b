//! Snapshot and restore of the whole process state across a restart.
//!
//! The snapshot is one self-delimiting byte layout: the mode byte, a
//! key-present byte, the symmetric key as 64 hex digits, then the public key
//! and the controller principal each behind a big-endian length.  Restoring
//! validates everything and rebuilds exactly the state that was saved;
//! anything malformed is a configuration error, never a half-restored state.

use vstd::prelude::*;

use crate::codec::append_be64;
use crate::codec::append_bytes;
use crate::codec::be64;
use crate::codec::from_be64;
use crate::codec::lemma_be64_round_trip;
use crate::hexcodec::from_hex;
use crate::hexcodec::hex_decode;
use crate::hexcodec::hex_encode;
use crate::hexcodec::hex_seq;
use crate::hexcodec::is_hex;
use crate::hexcodec::lemma_hex_round_trip;
use crate::hexcodec::lemma_hex_seq_ascii;
use crate::state::ProcessState;
use crate::state::StateModel;
use crate::types::CertError;
use crate::types::Mode;

verus! {

/// The byte that records the deployment mode.
pub open spec fn mode_byte(m: Mode) -> u8 {
    match m {
        Mode::Test => 1u8,
        Mode::Production => 0u8,
    }
}

/// The byte that records whether a public key is present.
pub open spec fn present_byte(k: Option<Seq<u8>>) -> u8 {
    match k {
        Option::Some(_) => 1u8,
        Option::None => 0u8,
    }
}

/// The bytes of the stored public key, empty while none is stored.
pub open spec fn stored_key(k: Option<Seq<u8>>) -> Seq<u8> {
    match k {
        Option::Some(s) => s,
        Option::None => Seq::empty(),
    }
}

/// The full snapshot layout of a state.
pub open spec fn snapshot_spec(m: StateModel) -> Seq<u8> {
    seq![mode_byte(m.mode)] + seq![present_byte(m.public_key)] + hex_seq(m.sym_key) + be64(
        stored_key(m.public_key).len() as u64,
    ) + stored_key(m.public_key) + be64(m.controller.len() as u64) + m.controller
}

/// What a byte sequence restores to, if anything: the layout above, parsed
/// and validated field by field.
pub open spec fn restore_spec(b: Seq<u8>) -> Option<StateModel> {
    if b.len() < 74 {
        Option::None
    } else {
        let key_hex = b.subrange(2, 66);
        let pk_len = from_be64(b.subrange(66, 74)) as int;
        if b[0] > 1 || b[1] > 1 || !is_hex(key_hex) {
            Option::None
        } else if b.len() < 82 + pk_len {
            Option::None
        } else {
            let ctrl_len = from_be64(b.subrange(74 + pk_len, 82 + pk_len)) as int;
            if b.len() != 82 + pk_len + ctrl_len {
                Option::None
            } else if b[1] == 0 && pk_len != 0 {
                Option::None
            } else {
                Option::Some(
                    StateModel {
                        sym_key: from_hex(key_hex),
                        public_key: if b[1] == 1 {
                            Option::Some(b.subrange(74, 74 + pk_len))
                        } else {
                            Option::None
                        },
                        controller: b.subrange(82 + pk_len, 82 + pk_len + ctrl_len),
                        mode: if b[0] == 1 {
                            Mode::Test
                        } else {
                            Mode::Production
                        },
                    },
                )
            }
        }
    }
}

/// Captures every field of the process state as one byte sequence.
pub fn snapshot(state: &ProcessState) -> (r: Vec<u8>)
    requires
        state.wf(),
    ensures
        r@ == snapshot_spec(state@),
{
    let mut out: Vec<u8> = Vec::new();
    out.push(match state.mode {
        Mode::Test => 1u8,
        Mode::Production => 0u8,
    });
    out.push(
        match &state.public_key {
            Option::Some(_) => 1u8,
            Option::None => 0u8,
        },
    );
    let key_hex = hex_encode(state.sym_key.as_slice());
    append_bytes(&mut out, key_hex.as_slice());
    match &state.public_key {
        Option::Some(k) => {
            append_be64(&mut out, k.len() as u64);
            append_bytes(&mut out, k.as_slice());
        },
        Option::None => {
            append_be64(&mut out, 0);
        },
    }
    append_be64(&mut out, state.controller.len() as u64);
    append_bytes(&mut out, state.controller.as_slice());
    proof {
        assert(out@ =~= snapshot_spec(state@));
    }
    out
}

/// Copies `b[start..end]` into a fresh vector.
fn copy_range(b: &[u8], start: usize, end: usize) -> (r: Vec<u8>)
    requires
        start <= end <= b@.len(),
    ensures
        r@ == b@.subrange(start as int, end as int),
{
    let mut out: Vec<u8> = Vec::new();
    let mut i: usize = start;
    while i < end
        invariant
            start <= i <= end <= b@.len(),
            out@ == b@.subrange(start as int, i as int),
        decreases end - i,
    {
        out.push(b[i]);
        proof {
            assert(out@ =~= b@.subrange(start as int, i + 1));
        }
        i = i + 1;
    }
    out
}

/// Reads the big-endian 64-bit value at `at`.
fn read_be64(b: &[u8], at: usize) -> (r: u64)
    requires
        at + 8 <= b@.len(),
    ensures
        r == from_be64(b@.subrange(at as int, at + 8)),
{
    let r = (((b[at] as u64) << 56) | ((b[at + 1] as u64) << 48) | ((b[at + 2] as u64) << 40) | ((
    b[at + 3] as u64) << 32) | ((b[at + 4] as u64) << 24) | ((b[at + 5] as u64) << 16) | ((b[at
        + 6] as u64) << 8) | (b[at + 7] as u64));
    proof {
        let s = b@.subrange(at as int, at + 8);
        assert(s[0] == b@[at as int] && s[1] == b@[at + 1] && s[2] == b@[at + 2] && s[3] == b@[at
            + 3] && s[4] == b@[at + 4] && s[5] == b@[at + 5] && s[6] == b@[at + 6] && s[7] == b@[at
            + 7]);
    }
    r
}

/// Rebuilds the process state a snapshot captured.  Succeeds exactly on
/// byte sequences that are a valid snapshot layout; anything else — short
/// input, an unknown flag byte, bad key hex, a length that does not add up,
/// trailing bytes — is a configuration error.
pub fn restore(b: &[u8]) -> (r: Result<ProcessState, CertError>)
    ensures
        (match (r, restore_spec(b@)) {
            (Ok(s), Option::Some(m)) => s@ == m && s.wf(),
            (Err(e), Option::None) => e == CertError::ConfigurationError,
            _ => false,
        }),
{
    if b.len() < 74 {
        return Err(CertError::ConfigurationError);
    }
    let mode_b = b[0];
    let present = b[1];
    let key_hex = copy_range(b, 2, 66);
    let pk_len64 = read_be64(b, 66);
    if mode_b > 1 || present > 1 {
        return Err(CertError::ConfigurationError);
    }
    let key = match hex_decode(key_hex.as_slice()) {
        Option::Some(k) => k,
        Option::None => { return Err(CertError::ConfigurationError); },
    };
    let rem: u64 = (b.len() as u64) - 74;
    if pk_len64 > rem || rem - pk_len64 < 8 {
        return Err(CertError::ConfigurationError);
    }
    let pk_len: usize = pk_len64 as usize;
    let pk_end: usize = 74 + pk_len;
    let pk = copy_range(b, 74, pk_end);
    let ctrl_len64 = read_be64(b, pk_end);
    if (b.len() as u64) - (pk_end as u64) - 8 != ctrl_len64 {
        return Err(CertError::ConfigurationError);
    }
    if present == 0 && pk_len != 0 {
        return Err(CertError::ConfigurationError);
    }
    let ctrl = copy_range(b, pk_end + 8, b.len());
    let state = ProcessState {
        sym_key: key,
        public_key: if present == 1 {
            Some(pk)
        } else {
            None
        },
        controller: ctrl,
        mode: if mode_b == 1 {
            Mode::Test
        } else {
            Mode::Production
        },
    };
    Ok(state)
}

/// Restoring a snapshot rebuilds exactly the state that was captured, for
/// every state the process can hold.
pub proof fn lemma_snapshot_restore(m: StateModel)
    requires
        m.wf(),
        stored_key(m.public_key).len() < 0x10000000000000000,
        m.controller.len() < 0x10000000000000000,
    ensures
        restore_spec(snapshot_spec(m)) == Option::Some(m),
{
    let b = snapshot_spec(m);
    let h = hex_seq(m.sym_key);
    let pk = stored_key(m.public_key);
    let c = m.controller;
    lemma_hex_seq_ascii(m.sym_key);
    lemma_hex_round_trip(m.sym_key);
    lemma_be64_round_trip(pk.len() as u64);
    lemma_be64_round_trip(c.len() as u64);
    assert(b.len() == 82 + pk.len() + c.len());
    assert(b[0] == mode_byte(m.mode) && b[1] == present_byte(m.public_key));
    assert(b.subrange(2, 66) =~= h);
    assert(b.subrange(66, 74) =~= be64(pk.len() as u64));
    let pl = pk.len() as int;
    assert(b.subrange(74, 74 + pl) =~= pk);
    assert(b.subrange(74 + pl, 82 + pl) =~= be64(c.len() as u64));
    assert(b.subrange(82 + pl, 82 + pl + c.len()) =~= c);
    let m2 = restore_spec(b).unwrap();
    assert(m2.sym_key == m.sym_key);
    assert(m2.public_key == m.public_key) by {
        match m.public_key {
            Option::Some(k) => {
                assert(b[1] == 1);
                assert(m2.public_key == Option::Some(pk));
            },
            Option::None => {
                assert(b[1] == 0);
            },
        }
    }
    assert(m2.controller == m.controller);
    assert(m2.mode == m.mode);
}

} // verus!
