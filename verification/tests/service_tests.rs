//! The key lifecycle, the cipher, and the whole certification flow.

use identity_certifier::certify::{complete_certification, prepare_certification};
use identity_certifier::cipher::{decrypt_data, encrypt_data};
use identity_certifier::codec::certificate_bytes;
use identity_certifier::lifecycle::{begin_key_init, complete_key_init};
use identity_certifier::state::{get_key_name, ProcessState};
use identity_certifier::types::{CallerId, CertError, Mode};
use aes_gcm::aead::Aead;
use aes_gcm::KeyInit;
use sha2::Digest;

fn controller() -> CallerId {
    CallerId { text: b"controller-a".to_vec(), raw: vec![1, 2, 3, 4, 5] }
}

fn stranger() -> CallerId {
    CallerId { text: b"stranger-x".to_vec(), raw: vec![9, 9, 9, 9, 9] }
}

fn anonymous() -> CallerId {
    CallerId { text: b"2vxsx-fae".to_vec(), raw: vec![4] }
}

fn zero_key_hex() -> Vec<u8> {
    vec![b'0'; 64]
}

fn fresh_state() -> ProcessState {
    ProcessState::create(&zero_key_hex(), Mode::Test, controller().raw).expect("valid key hex")
}

#[test]
fn creation_accepts_exactly_32_byte_hex() {
    assert!(ProcessState::create(&zero_key_hex(), Mode::Test, vec![1]).is_ok());
    let upper: Vec<u8> = vec![b'A'; 64];
    assert!(ProcessState::create(&upper, Mode::Production, vec![1]).is_ok());
    for bad in [&b""[..], &[b'0'; 63][..], &[b'0'; 62][..], &[b'0'; 66][..], &[b'g'; 64][..]] {
        match ProcessState::create(bad, Mode::Test, vec![1]) {
            Err(e) => assert_eq!(e, CertError::ConfigurationError),
            Ok(_) => panic!("creation must fail"),
        }
    }
}

#[test]
fn key_names_follow_the_mode() {
    assert_eq!(get_key_name(Mode::Test), "dfx_test_key");
    assert_eq!(get_key_name(Mode::Production), "key_1");
}

#[test]
fn key_init_succeeds_exactly_once() {
    let mut s = fresh_state();
    let req = begin_key_init(&s, &controller()).expect("first begin");
    assert_eq!(req.key_name, "dfx_test_key");
    assert!(req.derivation_path.is_empty());
    let oracle_key = vec![2u8; 33];
    let hex = complete_key_init(&mut s, &controller(), oracle_key.clone()).expect("stores");
    assert_eq!(hex, hex::encode(&oracle_key));
    assert!(!hex.is_empty());
    // a second attempt fails, whoever asks
    match begin_key_init(&s, &controller()) {
        Err(e) => assert_eq!(e, CertError::KeyAlreadyInitialized),
        Ok(_) => panic!("second begin must fail"),
    }
    match complete_key_init(&mut s, &controller(), vec![7u8; 33]) {
        Err(e) => assert_eq!(e, CertError::KeyAlreadyInitialized),
        Ok(_) => panic!("second complete must fail"),
    }
    assert_eq!(s.public_key, Some(oracle_key));
}

#[test]
fn key_init_requires_the_controller() {
    let mut s = fresh_state();
    match begin_key_init(&s, &stranger()) {
        Err(e) => assert_eq!(e, CertError::Unauthorized),
        Ok(_) => panic!("stranger must not begin"),
    }
    match complete_key_init(&mut s, &stranger(), vec![2u8; 33]) {
        Err(e) => assert_eq!(e, CertError::Unauthorized),
        Ok(_) => panic!("stranger must not complete"),
    }
    assert_eq!(s.public_key, None);
}

#[test]
fn interleaved_key_inits_store_exactly_one_key() {
    let mut s = fresh_state();
    // both requests pass their entry check before either completion runs
    let _r1 = begin_key_init(&s, &controller()).expect("first begin");
    let _r2 = begin_key_init(&s, &controller()).expect("second begin");
    let k1 = vec![11u8; 33];
    let k2 = vec![22u8; 33];
    complete_key_init(&mut s, &controller(), k1.clone()).expect("first completion wins");
    match complete_key_init(&mut s, &controller(), k2) {
        Err(e) => assert_eq!(e, CertError::KeyAlreadyInitialized),
        Ok(_) => panic!("second completion must fail"),
    }
    assert_eq!(s.public_key, Some(k1));
}

#[test]
fn public_key_hex_is_gated_and_reflects_the_store() {
    let mut s = fresh_state();
    assert_eq!(s.get_ecdsa_public_key_hex(&controller()), Ok(String::new()));
    match s.get_ecdsa_public_key_hex(&stranger()) {
        Err(e) => assert_eq!(e, CertError::Unauthorized),
        Ok(_) => panic!("stranger must not read the key"),
    }
    complete_key_init(&mut s, &controller(), vec![0xabu8; 33]).expect("stores");
    assert_eq!(s.get_ecdsa_public_key_hex(&controller()), Ok(hex::encode(vec![0xabu8; 33])));
}

#[test]
fn encryption_is_deterministic_and_nonces_differ() {
    let key = [7u8; 32];
    let pt = b"certified payload";
    let a = encrypt_data(&key, 1000, &[1, 2, 3, 4, 9], pt).expect("encrypts");
    let b = encrypt_data(&key, 1000, &[1, 2, 3, 4, 9], pt).expect("encrypts");
    assert_eq!(a, b);
    let later = encrypt_data(&key, 1001, &[1, 2, 3, 4, 9], pt).expect("encrypts");
    assert_ne!(later[..12], a[..12]);
    let other_caller = encrypt_data(&key, 1000, &[5, 6, 7, 8], pt).expect("encrypts");
    assert_ne!(other_caller[..12], a[..12]);
    // callers that share their first four raw bytes share the nonce
    let same_prefix = encrypt_data(&key, 1000, &[1, 2, 3, 4, 200], pt).expect("encrypts");
    assert_eq!(same_prefix[..12], a[..12]);
}

#[test]
fn encryption_fails_only_on_bad_key_material() {
    let pt = b"x";
    match encrypt_data(&[7u8; 31], 1, &[1, 2, 3, 4], pt) {
        Err(e) => assert_eq!(e, CertError::EncryptionFailed),
        Ok(_) => panic!("31-byte key must fail"),
    }
    assert!(encrypt_data(&[7u8; 32], 1, &[1, 2, 3, 4], pt).is_ok());
}

#[test]
fn encryption_matches_the_cipher_crate() {
    let key = [3u8; 32];
    let pt = b"compare against the crate";
    let out = encrypt_data(&key, 0x0102030405060708, &[0xaa, 0xbb, 0xcc, 0xdd], pt)
        .expect("encrypts");
    let expected_nonce = [1u8, 2, 3, 4, 5, 6, 7, 8, 0xaa, 0xbb, 0xcc, 0xdd];
    assert_eq!(out[..12], expected_nonce);
    let cipher = aes_gcm::Aes256Gcm::new(&key.into());
    let expected_ct = cipher
        .encrypt(&expected_nonce.into(), pt.as_ref())
        .expect("crate encrypts");
    assert_eq!(out[12..], expected_ct);
    assert_eq!(out.len(), 12 + pt.len() + 16);
}

#[test]
fn decryption_round_trips_and_rejects_tampering() {
    let key = [9u8; 32];
    let pt = b"round trip me".to_vec();
    let sealed = encrypt_data(&key, 555, &[1, 2, 3, 4], &pt).expect("encrypts");
    assert_eq!(decrypt_data(&key, &sealed), Some(pt.clone()));
    for i in 0..sealed.len() {
        let mut bad = sealed.clone();
        bad[i] ^= 1;
        assert_eq!(decrypt_data(&key, &bad), None, "flipping byte {i} must break it");
    }
    assert_eq!(decrypt_data(&key, &sealed[..sealed.len() - 1]), None);
    assert_eq!(decrypt_data(&key, &[]), None);
}

#[test]
fn anonymous_caller_is_rejected_before_any_oracle_work() {
    let mut s = fresh_state();
    complete_key_init(&mut s, &controller(), vec![2u8; 33]).expect("key ready");
    match prepare_certification(&s, &anonymous(), 1) {
        Err(e) => assert_eq!(e, CertError::AnonymousCallerRejected),
        Ok(_) => panic!("anonymous caller must be rejected"),
    }
}

#[test]
fn certification_requires_an_initialized_key() {
    let s = fresh_state();
    match prepare_certification(&s, &stranger(), 1) {
        Err(e) => assert_eq!(e, CertError::PublicKeyUnavailable),
        Ok(_) => panic!("uninitialized key must fail the request"),
    }
}

#[test]
fn certification_digest_matches_the_hash_crate() {
    let mut s = fresh_state();
    complete_key_init(&mut s, &controller(), vec![2u8; 33]).expect("key ready");
    let caller = stranger();
    let now = 1_700_000_000_000_000_000u64;
    let req = prepare_certification(&s, &caller, now).expect("prepares");
    assert_eq!(req.key_name, "dfx_test_key");
    assert!(req.derivation_path.is_empty());
    let cert = certificate_bytes(&caller.text, now);
    let expected = sha2::Sha256::digest(&cert);
    assert_eq!(req.message_hash, expected.to_vec());
}

#[test]
fn end_to_end_certified_identity() {
    // process created with the all-zero key, test mode, controller A
    let mut s = fresh_state();
    let minted = complete_key_init(&mut s, &controller(), vec![2u8; 33]).expect("key ready");
    assert_eq!(minted.len(), 66);
    // caller B asks for a certified identity
    let caller = stranger();
    let now = 1_700_000_000_000_000_123u64;
    let req = prepare_certification(&s, &caller, now).expect("prepares");
    assert_eq!(req.message_hash.len(), 32);
    let signature = vec![0x5au8; 64];
    let blob_hex = complete_certification(&s, &caller, now, &signature, false)
        .expect("completes");
    let blob = hex::decode(&blob_hex).expect("hex payload");
    assert!(blob.len() >= 12 + 16);
    let plain = decrypt_data(&s.sym_key, &blob).expect("decrypts under the process key");
    let v: serde_json::Value = serde_json::from_slice(&plain).expect("valid JSON");
    assert_eq!(v["principal_id"].as_str().unwrap(), "stranger-x");
    assert_eq!(v["certificate"]["principal"].as_str().unwrap(), "stranger-x");
    assert_eq!(v["certificate"]["timestamp"].as_u64().unwrap(), now);
    assert_eq!(v["issuer_signature"].as_str().unwrap(), hex::encode(&signature));
    // the nonce is the timestamp and the caller prefix, as documented
    assert_eq!(blob[..8], now.to_be_bytes());
    assert_eq!(blob[8..12], caller.raw[..4]);
}

#[test]
fn end_to_end_with_inlined_issuer_key() {
    let mut s = fresh_state();
    let oracle_key = vec![2u8; 33];
    complete_key_init(&mut s, &controller(), oracle_key.clone()).expect("key ready");
    let caller = stranger();
    let now = 42u64;
    let signature = vec![0x11u8; 64];
    let blob_hex = complete_certification(&s, &caller, now, &signature, true)
        .expect("completes");
    let blob = hex::decode(&blob_hex).expect("hex payload");
    let plain = decrypt_data(&s.sym_key, &blob).expect("decrypts");
    let v: serde_json::Value = serde_json::from_slice(&plain).expect("valid JSON");
    assert_eq!(v["issuer_public_key"].as_str().unwrap(), hex::encode(&oracle_key));
    // the blob also opens with the cipher crate directly: 12-byte nonce, rest ciphertext
    let key: [u8; 32] = s.sym_key.clone().try_into().unwrap();
    let cipher = aes_gcm::Aes256Gcm::new(&key.into());
    let nonce: [u8; 12] = blob[..12].try_into().unwrap();
    let direct = cipher.decrypt(&nonce.into(), &blob[12..]).expect("crate decrypts");
    assert_eq!(direct, plain);
}

#[test]
fn error_messages_are_stable() {
    assert_eq!(CertError::Unauthorized.message(), "Unauthorized");
    assert_eq!(
        CertError::AnonymousCallerRejected.message(),
        "Anonymous principal not allowed to make calls"
    );
}
