//! Canonical byte encodings: big-endian integers, decimal digits, JSON
//! string escaping, and the certificate / certified-identity records.
//!
//! The certificate encoding must be deterministic so that an independent
//! verifier can rebuild the exact bytes whose digest was signed.  The record
//! is a JSON object with fields in a fixed order; strings escape the quote,
//! the backslash and control bytes, and leave every other byte as it is.

use vstd::prelude::*;

use crate::hexcodec::hex_digit;
use crate::hexcodec::hex_seq;

verus! {

/// The eight bytes of a 64-bit value, most significant first.
pub open spec fn be64(x: u64) -> Seq<u8> {
    seq![
        (x >> 56) as u8,
        (x >> 48) as u8,
        (x >> 40) as u8,
        (x >> 32) as u8,
        (x >> 24) as u8,
        (x >> 16) as u8,
        (x >> 8) as u8,
        x as u8,
    ]
}

/// The 64-bit value eight big-endian bytes denote.
pub open spec fn from_be64(s: Seq<u8>) -> u64
    recommends
        s.len() == 8,
{
    (((s[0] as u64) << 56) | ((s[1] as u64) << 48) | ((s[2] as u64) << 40) | ((s[3] as u64) << 32)
        | ((s[4] as u64) << 24) | ((s[5] as u64) << 16) | ((s[6] as u64) << 8) | (s[7] as u64))
}

/// Reading back the big-endian bytes of a value yields the value.
pub proof fn lemma_be64_round_trip(x: u64)
    ensures
        from_be64(be64(x)) == x,
{
    assert((((((x >> 56) as u8) as u64) << 56) | ((((x >> 48) as u8) as u64) << 48) | ((((x
        >> 40) as u8) as u64) << 40) | ((((x >> 32) as u8) as u64) << 32) | ((((x
        >> 24) as u8) as u64) << 24) | ((((x >> 16) as u8) as u64) << 16) | ((((x
        >> 8) as u8) as u64) << 8) | ((x as u8) as u64)) == x) by (bit_vector);
}

/// Distinct values have distinct big-endian byte forms.
pub proof fn lemma_be64_injective(x: u64, y: u64)
    requires
        be64(x) == be64(y),
    ensures
        x == y,
{
    lemma_be64_round_trip(x);
    lemma_be64_round_trip(y);
}

/// Appends the big-endian bytes of `x`.
pub fn append_be64(out: &mut Vec<u8>, x: u64)
    ensures
        final(out)@ == old(out)@ + be64(x),
{
    out.push((x >> 56) as u8);
    out.push((x >> 48) as u8);
    out.push((x >> 40) as u8);
    out.push((x >> 32) as u8);
    out.push((x >> 24) as u8);
    out.push((x >> 16) as u8);
    out.push((x >> 8) as u8);
    out.push(x as u8);
    proof {
        assert(out@ =~= old(out)@ + be64(x));
    }
}

/// The ASCII digit for a value below ten.
pub open spec fn dec_digit(n: u64) -> u8
    recommends
        n < 10,
{
    (0x30 + n) as u8
}

/// The decimal digits of a value, no sign, no leading zero (a lone zero for
/// zero), exactly as the canonical record prints a timestamp.
pub open spec fn dec_repr(n: u64) -> Seq<u8>
    decreases n,
{
    if n < 10 {
        seq![dec_digit(n)]
    } else {
        dec_repr(n / 10).push(dec_digit(n % 10))
    }
}

/// The decimal digits of a 64-bit value fit in twenty bytes.
pub proof fn lemma_dec_repr_len(n: u64)
    ensures
        1 <= dec_repr(n).len() <= 20,
{
    if dec_repr(n).len() >= 21 {
        lemma_dec_repr_magnitude(n, 21);
        assert(ten_to(20) == 100000000000000000000) by {
            reveal_with_fuel(ten_to, 21);
        }
    }
}

/// Ten to the given power.
pub open spec fn ten_to(d: nat) -> int
    decreases d,
{
    if d == 0 {
        1
    } else {
        10 * ten_to((d - 1) as nat)
    }
}

/// A value with at least `d` decimal digits is at least ten to `d - 1`.
pub proof fn lemma_dec_repr_magnitude(n: u64, d: nat)
    requires
        dec_repr(n).len() >= d,
        d >= 2,
    ensures
        n >= ten_to((d - 1) as nat),
    decreases n,
{
    assert(n >= 10);
    if d == 2 {
        assert(ten_to(0) == 1);
        assert(ten_to(1) == 10);
    } else {
        lemma_dec_repr_magnitude(n / 10, (d - 1) as nat);
        let p = ten_to((d - 2) as nat);
        assert(n >= 10 * p) by (nonlinear_arith)
            requires
                n / 10 >= p,
                n >= 10,
        ;
        assert(ten_to((d - 1) as nat) == 10 * p);
    }
}

/// Appends the decimal digits of `n`.
pub fn append_decimal(out: &mut Vec<u8>, n: u64)
    ensures
        final(out)@ == old(out)@ + dec_repr(n),
    decreases n,
{
    if n < 10 {
        out.push(0x30 + (n as u8));
        proof {
            assert(out@ =~= old(out)@ + dec_repr(n));
        }
    } else {
        append_decimal(out, n / 10);
        out.push(0x30 + ((n % 10) as u8));
        proof {
            assert(out@ =~= old(out)@ + dec_repr(n));
        }
    }
}

/// The escaped form of one byte inside a JSON string: quote and backslash
/// get a backslash, control bytes become a `\u00XX` sequence, everything
/// else stands as it is.
pub open spec fn escape_byte(b: u8) -> Seq<u8> {
    if b == 0x22 {
        seq![0x5cu8, 0x22u8]
    } else if b == 0x5c {
        seq![0x5cu8, 0x5cu8]
    } else if b < 0x20 {
        seq![0x5cu8, 0x75u8, 0x30u8, 0x30u8, hex_digit(b / 16), hex_digit(b % 16)]
    } else {
        seq![b]
    }
}

/// A whole byte sequence escaped for a JSON string.
pub open spec fn json_escape(s: Seq<u8>) -> Seq<u8>
    decreases s.len(),
{
    if s.len() == 0 {
        Seq::empty()
    } else {
        json_escape(s.drop_last()) + escape_byte(s.last())
    }
}

/// An escaped sequence is at most six times as long as the original.
pub proof fn lemma_json_escape_len(s: Seq<u8>)
    ensures
        json_escape(s).len() <= 6 * s.len(),
    decreases s.len(),
{
    if s.len() > 0 {
        lemma_json_escape_len(s.drop_last());
    }
}

/// Appends the escaped form of `s`.
pub fn append_json_escaped(out: &mut Vec<u8>, s: &[u8])
    ensures
        final(out)@ == old(out)@ + json_escape(s@),
{
    let mut i: usize = 0;
    while i < s.len()
        invariant
            0 <= i <= s@.len(),
            out@ == old(out)@ + json_escape(s@.take(i as int)),
        decreases s@.len() - i,
    {
        let b = s[i];
        if b == 0x22 {
            out.push(0x5c);
            out.push(0x22);
        } else if b == 0x5c {
            out.push(0x5c);
            out.push(0x5c);
        } else if b < 0x20 {
            out.push(0x5c);
            out.push(0x75);
            out.push(0x30);
            out.push(0x30);
            let hi = b / 16;
            let lo = b % 16;
            out.push(if hi < 10 { 0x30 + hi } else { 0x57 + hi });
            out.push(if lo < 10 { 0x30 + lo } else { 0x57 + lo });
        } else {
            out.push(b);
        }
        proof {
            let t = s@.take(i + 1);
            assert(t.drop_last() =~= s@.take(i as int));
            assert(t.last() == s@[i as int]);
            assert(out@ =~= old(out)@ + json_escape(s@.take(i + 1)));
        }
        i = i + 1;
    }
    proof {
        assert(s@.take(s@.len() as int) =~= s@);
    }
}

/// Appends every byte of `bytes`.
pub fn append_bytes(out: &mut Vec<u8>, bytes: &[u8])
    ensures
        final(out)@ == old(out)@ + bytes@,
{
    let mut i: usize = 0;
    while i < bytes.len()
        invariant
            0 <= i <= bytes@.len(),
            out@ == old(out)@ + bytes@.take(i as int),
        decreases bytes@.len() - i,
    {
        out.push(bytes[i]);
        proof {
            assert(out@ =~= old(out)@ + bytes@.take(i + 1));
        }
        i = i + 1;
    }
    proof {
        assert(bytes@.take(bytes@.len() as int) =~= bytes@);
    }
}

/// `{"principal":"` — the opening of a certificate record.
pub open spec fn lit_cert_open() -> Seq<u8> {
    seq![0x7bu8, 0x22u8, 0x70u8, 0x72u8, 0x69u8, 0x6eu8, 0x63u8, 0x69u8, 0x70u8, 0x61u8, 0x6cu8,
        0x22u8, 0x3au8, 0x22u8]
}

/// `","timestamp":` — between the subject and the timestamp.
pub open spec fn lit_cert_mid() -> Seq<u8> {
    seq![0x22u8, 0x2cu8, 0x22u8, 0x74u8, 0x69u8, 0x6du8, 0x65u8, 0x73u8, 0x74u8, 0x61u8, 0x6du8,
        0x70u8, 0x22u8, 0x3au8]
}

/// The canonical certificate record: subject identifier and issue time.
pub open spec fn certificate_json(principal: Seq<u8>, timestamp: u64) -> Seq<u8> {
    lit_cert_open() + json_escape(principal) + lit_cert_mid() + dec_repr(timestamp) + seq![0x7du8]
}

/// Builds the canonical certificate record for a subject and a timestamp.
pub fn certificate_bytes(principal: &[u8], timestamp: u64) -> (r: Vec<u8>)
    ensures
        r@ == certificate_json(principal@, timestamp),
{
    let mut out: Vec<u8> = Vec::new();
    let open: Vec<u8> = vec![0x7b, 0x22, 0x70, 0x72, 0x69, 0x6e, 0x63, 0x69, 0x70, 0x61, 0x6c,
        0x22, 0x3a, 0x22];
    proof {
        assert(open@ =~= lit_cert_open());
    }
    append_bytes(&mut out, open.as_slice());
    append_json_escaped(&mut out, principal);
    let mid: Vec<u8> = vec![0x22, 0x2c, 0x22, 0x74, 0x69, 0x6d, 0x65, 0x73, 0x74, 0x61, 0x6d,
        0x70, 0x22, 0x3a];
    proof {
        assert(mid@ =~= lit_cert_mid());
    }
    append_bytes(&mut out, mid.as_slice());
    append_decimal(&mut out, timestamp);
    out.push(0x7d);
    proof {
        assert(out@ =~= certificate_json(principal@, timestamp));
    }
    out
}

/// `{"principal_id":"` — the opening of a certified-identity record.
pub open spec fn lit_ident_open() -> Seq<u8> {
    seq![0x7bu8, 0x22u8, 0x70u8, 0x72u8, 0x69u8, 0x6eu8, 0x63u8, 0x69u8, 0x70u8, 0x61u8, 0x6cu8,
        0x5fu8, 0x69u8, 0x64u8, 0x22u8, 0x3au8, 0x22u8]
}

/// `","certificate":` — before the embedded certificate.
pub open spec fn lit_ident_cert() -> Seq<u8> {
    seq![0x22u8, 0x2cu8, 0x22u8, 0x63u8, 0x65u8, 0x72u8, 0x74u8, 0x69u8, 0x66u8, 0x69u8, 0x63u8,
        0x61u8, 0x74u8, 0x65u8, 0x22u8, 0x3au8]
}

/// `,"issuer_signature":"` — before the hex signature.
pub open spec fn lit_ident_sig() -> Seq<u8> {
    seq![0x2cu8, 0x22u8, 0x69u8, 0x73u8, 0x73u8, 0x75u8, 0x65u8, 0x72u8, 0x5fu8, 0x73u8, 0x69u8,
        0x67u8, 0x6eu8, 0x61u8, 0x74u8, 0x75u8, 0x72u8, 0x65u8, 0x22u8, 0x3au8, 0x22u8]
}

/// `","issuer_public_key":"` — before the optional inlined issuer key.
pub open spec fn lit_ident_pk() -> Seq<u8> {
    seq![0x22u8, 0x2cu8, 0x22u8, 0x69u8, 0x73u8, 0x73u8, 0x75u8, 0x65u8, 0x72u8, 0x5fu8, 0x70u8,
        0x75u8, 0x62u8, 0x6cu8, 0x69u8, 0x63u8, 0x5fu8, 0x6bu8, 0x65u8, 0x79u8, 0x22u8, 0x3au8,
        0x22u8]
}

/// The canonical certified-identity record: the subject, the embedded
/// certificate, the issuer's signature hex-encoded, and optionally the
/// issuer's public key hex-encoded for self-contained verification.
pub open spec fn identity_json(
    principal: Seq<u8>,
    timestamp: u64,
    signature: Seq<u8>,
    issuer_key: Option<Seq<u8>>,
) -> Seq<u8> {
    lit_ident_open() + json_escape(principal) + lit_ident_cert() + certificate_json(
        principal,
        timestamp,
    ) + lit_ident_sig() + hex_seq(signature) + (match issuer_key {
        Option::None => seq![0x22u8, 0x7du8],
        Option::Some(k) => lit_ident_pk() + hex_seq(k) + seq![0x22u8, 0x7du8],
    })
}

/// Builds the canonical certified-identity record.
pub fn identity_bytes(
    principal: &[u8],
    timestamp: u64,
    signature: &[u8],
    issuer_key: Option<&Vec<u8>>,
) -> (r: Vec<u8>)
    ensures
        r@ == identity_json(
            principal@,
            timestamp,
            signature@,
            match issuer_key {
                Option::None => Option::None,
                Option::Some(k) => Option::Some(k@),
            },
        ),
{
    let mut out: Vec<u8> = Vec::new();
    let open: Vec<u8> = vec![0x7b, 0x22, 0x70, 0x72, 0x69, 0x6e, 0x63, 0x69, 0x70, 0x61, 0x6c,
        0x5f, 0x69, 0x64, 0x22, 0x3a, 0x22];
    proof {
        assert(open@ =~= lit_ident_open());
    }
    append_bytes(&mut out, open.as_slice());
    append_json_escaped(&mut out, principal);
    let cert_lit: Vec<u8> = vec![0x22, 0x2c, 0x22, 0x63, 0x65, 0x72, 0x74, 0x69, 0x66, 0x69,
        0x63, 0x61, 0x74, 0x65, 0x22, 0x3a];
    proof {
        assert(cert_lit@ =~= lit_ident_cert());
    }
    append_bytes(&mut out, cert_lit.as_slice());
    let cert = certificate_bytes(principal, timestamp);
    append_bytes(&mut out, cert.as_slice());
    let sig_lit: Vec<u8> = vec![0x2c, 0x22, 0x69, 0x73, 0x73, 0x75, 0x65, 0x72, 0x5f, 0x73, 0x69,
        0x67, 0x6e, 0x61, 0x74, 0x75, 0x72, 0x65, 0x22, 0x3a, 0x22];
    proof {
        assert(sig_lit@ =~= lit_ident_sig());
    }
    append_bytes(&mut out, sig_lit.as_slice());
    let sig_hex = crate::hexcodec::hex_encode(signature);
    append_bytes(&mut out, sig_hex.as_slice());
    match issuer_key {
        Option::None => {},
        Option::Some(k) => {
            let pk_lit: Vec<u8> = vec![0x22, 0x2c, 0x22, 0x69, 0x73, 0x73, 0x75, 0x65, 0x72,
                0x5f, 0x70, 0x75, 0x62, 0x6c, 0x69, 0x63, 0x5f, 0x6b, 0x65, 0x79, 0x22, 0x3a,
                0x22];
            proof {
                assert(pk_lit@ =~= lit_ident_pk());
            }
            append_bytes(&mut out, pk_lit.as_slice());
            let pk_hex = crate::hexcodec::hex_encode(k.as_slice());
            append_bytes(&mut out, pk_hex.as_slice());
        },
    }
    out.push(0x22);
    out.push(0x7d);
    proof {
        assert(out@ =~= identity_json(
            principal@,
            timestamp,
            signature@,
            match issuer_key {
                Option::None => Option::None,
                Option::Some(k) => Option::Some(k@),
            },
        ));
    }
    out
}

/// What the fixed 256-bit digest of a byte sequence is.  The digest function
/// itself lives outside; the encoding and everything signed over it speak of
/// this name.
pub uninterp spec fn sha256_of(data: Seq<u8>) -> Seq<u8>;

/// Relies on `sha2::Sha256`: the digest depends on the input bytes alone and
/// is 32 bytes long.
#[verifier::external_body]
pub(crate) fn sha256(data: &[u8]) -> (r: Vec<u8>)
    ensures
        r@ == sha256_of(data@),
        r@.len() == 32,
{
    let mut hasher = <sha2::Sha256 as sha2::Digest>::new();
    sha2::Digest::update(&mut hasher, data);
    sha2::Digest::finalize(hasher).to_vec()
}

} // verus!
