use quantum_vpn::crypto::{nonce_bytes, signature_verdict, CryptoError, CryptoSession, KeyExchange};
use quantum_vpn::primitives::{
    DILITHIUM2_PUBLIC_KEY_BYTES, DILITHIUM2_SIGNATURE_BYTES, KYBER768_CIPHERTEXT_BYTES,
    KYBER768_PUBLIC_KEY_BYTES, KYBER768_SHARED_SECRET_BYTES,
};

fn key(seed: u8) -> Vec<u8> {
    (0..32u8).map(|i| i.wrapping_mul(7).wrapping_add(seed)).collect()
}

#[test]
fn nonce_layout_is_four_zero_bytes_then_big_endian_counter() {
    assert_eq!(nonce_bytes(0), vec![0u8; 12]);
    assert_eq!(
        nonce_bytes(0x0102_0304_0506_0708),
        vec![0, 0, 0, 0, 1, 2, 3, 4, 5, 6, 7, 8]
    );
    assert_eq!(
        nonce_bytes(u64::MAX),
        vec![0, 0, 0, 0, 255, 255, 255, 255, 255, 255, 255, 255]
    );
    assert_ne!(nonce_bytes(1), nonce_bytes(256));
}

#[test]
fn encrypt_then_decrypt_in_step_gives_plaintext_back() {
    let mut sender = CryptoSession::new(key(1)).unwrap();
    let mut receiver = CryptoSession::new(key(1)).unwrap();
    for msg in [b"hello".to_vec(), Vec::new(), vec![42u8; 1000]] {
        let ct = sender.encrypt(&msg).unwrap();
        assert_eq!(ct.len(), msg.len() + 16);
        if !msg.is_empty() {
            assert_ne!(&ct[..msg.len()], &msg[..]);
        }
        assert_eq!(receiver.decrypt(&ct).unwrap(), msg);
    }
}

#[test]
fn decrypt_with_other_counter_or_key_fails() {
    let mut sender = CryptoSession::new(key(1)).unwrap();
    let ct = sender.encrypt(b"payload").unwrap();

    let mut ahead = CryptoSession::new(key(1)).unwrap();
    let _ = ahead.encrypt(b"x").unwrap();
    assert_eq!(
        ahead.decrypt(&ct),
        Err(CryptoError::DecryptionError("aead::Error".to_string()))
    );

    let mut other_key = CryptoSession::new(key(2)).unwrap();
    assert!(other_key.decrypt(&ct).is_err());
}

#[test]
fn failed_decrypt_still_advances_the_counter() {
    let mut sender = CryptoSession::new(key(3)).unwrap();
    let first = sender.encrypt(b"one").unwrap();
    let second = sender.encrypt(b"two").unwrap();
    let mut receiver = CryptoSession::new(key(3)).unwrap();
    assert!(receiver.decrypt(&first[..3]).is_err());
    assert_eq!(receiver.decrypt(&second).unwrap(), b"two".to_vec());
}

#[test]
fn short_ciphertext_is_rejected() {
    let mut s = CryptoSession::new(key(4)).unwrap();
    assert_eq!(
        s.decrypt(&[1, 2, 3]),
        Err(CryptoError::DecryptionError("aead::Error".to_string()))
    );
}

#[test]
fn public_keys_have_scheme_lengths() {
    let kx = KeyExchange::new();
    let (kyber, dilithium) = kx.get_public_keys();
    assert_eq!(kyber.len(), KYBER768_PUBLIC_KEY_BYTES);
    assert_eq!(dilithium.len(), DILITHIUM2_PUBLIC_KEY_BYTES);
}

#[test]
fn own_signature_verifies_and_tampering_fails() {
    let kx = KeyExchange::new();
    let (_, dilithium) = kx.get_public_keys();
    let data = b"server hello".to_vec();
    let sig = kx.sign_data(&data);
    assert_eq!(sig.len(), DILITHIUM2_SIGNATURE_BYTES);
    assert_ne!(sig, data);
    assert_eq!(kx.sign_data(&data), sig);
    assert_eq!(kx.verify_client_signature(&data, &sig, &dilithium), Ok(()));
    assert_eq!(
        kx.verify_client_signature(b"server hellp", &sig, &dilithium),
        Err(CryptoError::SignatureError)
    );
    let other = KeyExchange::new();
    let (_, other_pk) = other.get_public_keys();
    assert_eq!(
        kx.verify_client_signature(&data, &sig, &other_pk),
        Err(CryptoError::SignatureError)
    );
}

#[test]
fn badly_sized_signature_or_key_is_a_signature_error() {
    let kx = KeyExchange::new();
    let (_, dilithium) = kx.get_public_keys();
    let sig = kx.sign_data(b"m");
    assert_eq!(
        kx.verify_client_signature(b"m", &sig[..100], &dilithium),
        Err(CryptoError::SignatureError)
    );
    let mut long = sig.clone();
    long.push(0);
    assert_eq!(
        kx.verify_client_signature(b"m", &long, &dilithium),
        Err(CryptoError::SignatureError)
    );
    assert_eq!(
        kx.verify_client_signature(b"m", &sig, &dilithium[..1000]),
        Err(CryptoError::SignatureError)
    );
}

#[test]
fn signature_verdict_maps_the_verifier_answer() {
    assert_eq!(signature_verdict(true), Ok(()));
    assert_eq!(signature_verdict(false), Err(CryptoError::SignatureError));
}

#[test]
fn process_client_key_returns_the_encapsulation_ciphertext() {
    let server = KeyExchange::new();
    let client = KeyExchange::new();
    let (client_kyber, _) = client.get_public_keys();
    let ct = server.process_client_key(&client_kyber).unwrap();
    assert_eq!(ct.len(), KYBER768_CIPHERTEXT_BYTES);
    let ss = client.process_server_response(&ct).unwrap();
    assert_eq!(ss.len(), KYBER768_SHARED_SECRET_BYTES);
    assert_eq!(client.process_server_response(&ct).unwrap(), ss);
    assert_eq!(
        server.process_client_key(&client_kyber[..10]),
        Err(CryptoError::KeyExchangeError)
    );
}

#[test]
fn process_server_response_rejects_wrong_length() {
    let kx = KeyExchange::new();
    assert_eq!(
        kx.process_server_response(&[0u8; 10]),
        Err(CryptoError::KeyExchangeError)
    );
    let ss = kx.process_server_response(&[7u8; KYBER768_CIPHERTEXT_BYTES]).unwrap();
    assert_eq!(ss.len(), KYBER768_SHARED_SECRET_BYTES);
}
