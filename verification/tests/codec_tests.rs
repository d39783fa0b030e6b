//! Byte-level codecs: hex, canonical JSON records, snapshot layout.

use identity_certifier::codec::{certificate_bytes, identity_bytes};
use identity_certifier::hexcodec::{hex_decode, hex_encode, hex_string};
use identity_certifier::state::ProcessState;
use identity_certifier::store::{restore, snapshot};
use identity_certifier::types::{CertError, Mode};

#[test]
fn hex_encode_matches_reference_crate() {
    let data: Vec<u8> = vec![0x00, 0x01, 0x7f, 0x80, 0xab, 0xff];
    let mine = hex_encode(&data);
    let reference = hex::encode(&data);
    assert_eq!(mine, reference.as_bytes().to_vec());
    assert_eq!(hex_string(&data), reference);
}

#[test]
fn hex_decode_matches_reference_crate() {
    let s = b"00017f80AbFf".to_vec();
    let mine = hex_decode(&s).expect("valid hex");
    let reference = hex::decode(&s).expect("valid hex");
    assert_eq!(mine, reference);
}

#[test]
fn hex_decode_rejects_what_the_reference_rejects() {
    for bad in [&b"abc"[..], &b"0g"[..], &b"a b0"[..], &b"0x00"[..]] {
        assert!(hex_decode(bad).is_none());
        assert!(hex::decode(bad).is_err());
    }
    assert_eq!(hex_decode(b""), Some(vec![]));
    assert_eq!(hex_string(&[]), "");
}

#[test]
fn certificate_encoding_is_exact() {
    let cert = certificate_bytes(b"abc", 123);
    assert_eq!(cert, b"{\"principal\":\"abc\",\"timestamp\":123}".to_vec());
    let zero = certificate_bytes(b"", 0);
    assert_eq!(zero, b"{\"principal\":\"\",\"timestamp\":0}".to_vec());
    let max = certificate_bytes(b"x", u64::MAX);
    assert_eq!(max, b"{\"principal\":\"x\",\"timestamp\":18446744073709551615}".to_vec());
}

#[test]
fn certificate_encoding_parses_as_json_with_escapes() {
    let tricky = "a\"b\\c\nd\u{1}e";
    let cert = certificate_bytes(tricky.as_bytes(), 42);
    let v: serde_json::Value = serde_json::from_slice(&cert).expect("valid JSON");
    assert_eq!(v["principal"].as_str().unwrap(), tricky);
    assert_eq!(v["timestamp"].as_u64().unwrap(), 42);
}

#[test]
fn identity_encoding_parses_as_json() {
    let sig: Vec<u8> = vec![0xde, 0xad, 0xbe, 0xef];
    let ident = identity_bytes(b"subject-1", 77, &sig, None);
    let v: serde_json::Value = serde_json::from_slice(&ident).expect("valid JSON");
    assert_eq!(v["principal_id"].as_str().unwrap(), "subject-1");
    assert_eq!(v["certificate"]["principal"].as_str().unwrap(), "subject-1");
    assert_eq!(v["certificate"]["timestamp"].as_u64().unwrap(), 77);
    assert_eq!(v["issuer_signature"].as_str().unwrap(), "deadbeef");
    assert!(v.get("issuer_public_key").is_none());
}

#[test]
fn identity_encoding_can_inline_the_issuer_key() {
    let sig: Vec<u8> = vec![0x01];
    let pk: Vec<u8> = vec![0x02, 0x03];
    let ident = identity_bytes(b"s", 5, &sig, Some(&pk));
    let v: serde_json::Value = serde_json::from_slice(&ident).expect("valid JSON");
    assert_eq!(v["issuer_signature"].as_str().unwrap(), "01");
    assert_eq!(v["issuer_public_key"].as_str().unwrap(), "0203");
}

fn sample_state(with_key: bool) -> ProcessState {
    let hex_key: Vec<u8> = b"000102030405060708090a0b0c0d0e0f101112131415161718191a1b1c1d1e1f"
        .to_vec();
    let mut s = ProcessState::create(&hex_key, Mode::Test, vec![1, 2, 3, 4, 5]).expect("valid");
    if with_key {
        s.public_key = Some(vec![9; 33]);
    }
    s
}

#[test]
fn snapshot_restore_round_trip_without_key() {
    let s = sample_state(false);
    let blob = snapshot(&s);
    let back = restore(&blob).expect("restores");
    assert_eq!(back.sym_key, s.sym_key);
    assert_eq!(back.public_key, None);
    assert_eq!(back.controller, s.controller);
    assert!(matches!(back.mode, Mode::Test));
}

#[test]
fn snapshot_restore_round_trip_with_key() {
    let mut s = sample_state(true);
    s.mode = Mode::Production;
    let blob = snapshot(&s);
    let back = restore(&blob).expect("restores");
    assert_eq!(back.sym_key, s.sym_key);
    assert_eq!(back.public_key, Some(vec![9; 33]));
    assert_eq!(back.controller, vec![1, 2, 3, 4, 5]);
    assert!(matches!(back.mode, Mode::Production));
}

#[test]
fn restore_rejects_malformed_blobs() {
    assert!(matches!(restore(&[]), Err(CertError::ConfigurationError)));
    assert!(matches!(restore(&[0; 73]), Err(CertError::ConfigurationError)));
    let s = sample_state(true);
    let good = snapshot(&s);
    // unknown mode byte
    let mut bad = good.clone();
    bad[0] = 7;
    assert!(matches!(restore(&bad), Err(CertError::ConfigurationError)));
    // key hex corrupted into a non-digit
    let mut bad = good.clone();
    bad[2] = b'z';
    assert!(matches!(restore(&bad), Err(CertError::ConfigurationError)));
    // trailing byte
    let mut bad = good.clone();
    bad.push(0);
    assert!(matches!(restore(&bad), Err(CertError::ConfigurationError)));
    // truncated
    let bad = good[..good.len() - 1].to_vec();
    assert!(matches!(restore(&bad), Err(CertError::ConfigurationError)));
}
