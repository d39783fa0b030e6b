//! Hexadecimal byte encoding.
//!
//! The process's symmetric key arrives as a hex string, and every byte value
//! the service hands back out (public key, encrypted blob, signature inside
//! the certified record) leaves hex-encoded.  Encoding produces lowercase
//! digits; decoding accepts both cases and fails on anything else or on an
//! odd length.

use vstd::prelude::*;

verus! {

/// The lowercase hex digit (as an ASCII byte) for a value below 16.
pub open spec fn hex_digit(n: u8) -> u8
    recommends
        n < 16,
{
    if n < 10 {
        (0x30 + n) as u8
    } else {
        (0x57 + n) as u8
    }
}

/// The lowercase hex encoding of a byte sequence, two digits per byte.
pub open spec fn hex_seq(b: Seq<u8>) -> Seq<u8>
    decreases b.len(),
{
    if b.len() == 0 {
        Seq::empty()
    } else {
        hex_seq(b.drop_last()) + seq![hex_digit(b.last() / 16), hex_digit(b.last() % 16)]
    }
}

/// The hex encoding as characters, for the string form of an output.
pub open spec fn hex_chars(b: Seq<u8>) -> Seq<char> {
    hex_seq(b).map_values(|x: u8| x as char)
}

/// Whether an ASCII byte is a hex digit, either case.
pub open spec fn is_hex_digit(c: u8) -> bool {
    (0x30 <= c && c <= 0x39) || (0x61 <= c && c <= 0x66) || (0x41 <= c && c <= 0x46)
}

/// The value of a hex digit byte, either case.
pub open spec fn hex_val(c: u8) -> int
    recommends
        is_hex_digit(c),
{
    if 0x30 <= c && c <= 0x39 {
        c - 0x30
    } else if 0x61 <= c && c <= 0x66 {
        c - 0x57
    } else {
        c - 0x37
    }
}

/// Whether a byte sequence is a well-formed hex string: even length, every
/// byte a hex digit.
pub open spec fn is_hex(s: Seq<u8>) -> bool {
    s.len() % 2 == 0 && forall|i: int| 0 <= i < s.len() ==> is_hex_digit(#[trigger] s[i])
}

/// The bytes a well-formed hex string denotes, one per digit pair.
pub open spec fn from_hex(s: Seq<u8>) -> Seq<u8>
    decreases s.len(),
{
    if s.len() < 2 {
        Seq::empty()
    } else {
        from_hex(s.drop_last().drop_last()).push(
            (hex_val(s[s.len() - 2]) * 16 + hex_val(s.last())) as u8,
        )
    }
}

/// Lowercase hex encoding of a byte slice.
pub fn hex_encode(b: &[u8]) -> (r: Vec<u8>)
    ensures
        r@ == hex_seq(b@),
        r@.len() == 2 * b@.len(),
{
    let mut out: Vec<u8> = Vec::new();
    let mut i: usize = 0;
    while i < b.len()
        invariant
            0 <= i <= b@.len(),
            out@ == hex_seq(b@.take(i as int)),
            out@.len() == 2 * i,
        decreases b@.len() - i,
    {
        let hi: u8 = b[i] / 16;
        let lo: u8 = b[i] % 16;
        out.push(if hi < 10 { 0x30 + hi } else { 0x57 + hi });
        out.push(if lo < 10 { 0x30 + lo } else { 0x57 + lo });
        proof {
            let t = b@.take(i + 1);
            assert(t.drop_last() =~= b@.take(i as int));
            assert(t.last() == b@[i as int]);
            assert(out@ =~= hex_seq(b@.take(i as int)) + seq![
                hex_digit(b@[i as int] / 16),
                hex_digit(b@[i as int] % 16),
            ]);
        }
        i = i + 1;
    }
    proof {
        assert(b@.take(b@.len() as int) =~= b@);
    }
    out
}

/// Decodes a hex string; `None` exactly on ill-formed input.
pub fn hex_decode(s: &[u8]) -> (r: Option<Vec<u8>>)
    ensures
        r is Some <==> is_hex(s@),
        r matches Some(v) ==> v@ == from_hex(s@) && 2 * v@.len() == s@.len(),
{
    if s.len() % 2 != 0 {
        return None;
    }
    let mut out: Vec<u8> = Vec::new();
    let mut i: usize = 0;
    while i + 1 < s.len()
        invariant
            s@.len() % 2 == 0,
            i % 2 == 0,
            0 <= i <= s@.len(),
            forall|j: int| 0 <= j < i ==> is_hex_digit(#[trigger] s@[j]),
            out@ == from_hex(s@.take(i as int)),
            2 * out@.len() == i,
        decreases s@.len() - i,
    {
        let hi: u8 = match digit_value(s[i]) {
            Some(v) => v,
            None => { return None; },
        };
        let lo: u8 = match digit_value(s[i + 1]) {
            Some(v) => v,
            None => { return None; },
        };
        out.push(hi * 16 + lo);
        proof {
            let t = s@.take(i + 2);
            assert(t.drop_last().drop_last() =~= s@.take(i as int));
            assert(t[t.len() - 2] == s@[i as int]);
            assert(t.last() == s@[i + 1]);
        }
        i = i + 2;
    }
    proof {
        assert(i == s@.len());
        assert(s@.take(s@.len() as int) =~= s@);
    }
    Some(out)
}

/// The value of one hex digit byte; `None` exactly on a non-digit.
fn digit_value(c: u8) -> (r: Option<u8>)
    ensures
        r is Some <==> is_hex_digit(c),
        r matches Some(v) ==> v == hex_val(c) && v < 16,
{
    if 0x30 <= c && c <= 0x39 {
        Some(c - 0x30)
    } else if 0x61 <= c && c <= 0x66 {
        Some(c - 0x57)
    } else if 0x41 <= c && c <= 0x46 {
        Some(c - 0x37)
    } else {
        None
    }
}

/// Every byte of a hex encoding is an ASCII hex digit (in particular below
/// 128, so the encoding reads back as a string one character per byte).
pub proof fn lemma_hex_seq_ascii(b: Seq<u8>)
    ensures
        forall|i: int| 0 <= i < hex_seq(b).len() ==> is_hex_digit(#[trigger] hex_seq(b)[i]),
        hex_seq(b).len() == 2 * b.len(),
    decreases b.len(),
{
    if b.len() > 0 {
        lemma_hex_seq_ascii(b.drop_last());
    }
}

/// Decoding inverts encoding: the hex form of any byte sequence is
/// well-formed and denotes exactly that sequence.
pub proof fn lemma_hex_round_trip(b: Seq<u8>)
    ensures
        is_hex(hex_seq(b)),
        from_hex(hex_seq(b)) == b,
    decreases b.len(),
{
    lemma_hex_seq_ascii(b);
    if b.len() == 0 {
        assert(from_hex(hex_seq(b)) =~= b);
    } else {
        lemma_hex_round_trip(b.drop_last());
        let s = hex_seq(b);
        let hi = hex_digit(b.last() / 16);
        let lo = hex_digit(b.last() % 16);
        assert(s.drop_last().drop_last() =~= hex_seq(b.drop_last()));
        assert(s[s.len() - 2] == hi && s.last() == lo);
        assert(hex_val(hi) == b.last() / 16 && hex_val(lo) == b.last() % 16);
        assert(from_hex(s) =~= b);
    }
}

/// Relies on `String::from_utf8`: bytes below 128 decode to the string with
/// exactly those characters.
#[verifier::external_body]
fn ascii_bytes_to_string(b: Vec<u8>) -> (r: String)
    requires
        forall|i: int| 0 <= i < b@.len() ==> b@[i] < 128,
    ensures
        r@ == b@.map_values(|x: u8| x as char),
{
    match String::from_utf8(b) {
        Ok(s) => s,
        Err(_) => String::new(),
    }
}

/// Lowercase hex encoding of a byte slice, as a string.
pub fn hex_string(b: &[u8]) -> (r: String)
    ensures
        r@ == hex_chars(b@),
        r@.len() == 2 * b@.len(),
{
    let digits = hex_encode(b);
    proof {
        lemma_hex_seq_ascii(b@);
        assert(forall|i: int| 0 <= i < digits@.len() ==> #[trigger] digits@[i] < 128) by {
            assert(forall|i: int| 0 <= i < digits@.len() ==> is_hex_digit(#[trigger] digits@[i]));
        }
    }
    ascii_bytes_to_string(digits)
}

} // verus!
