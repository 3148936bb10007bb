use base64::engine::general_purpose::URL_SAFE_NO_PAD;
use base64::Engine;
use chacha20poly1305::aead::Aead;
use chacha20poly1305::{KeyInit, XChaCha20Poly1305, XNonce};
use hmac::{Hmac, Mac};
use token_verifier::{TokenError, TokenIdCipher};
use uuid::Uuid;

fn key(byte: u8) -> [u8; 32] {
    [byte; 32]
}

fn decrypt_message(result: Result<[u8; 16], TokenError>) -> String {
    match result {
        Err(TokenError::Verify(m)) => m,
        Err(TokenError::Issue(m)) => panic!("unexpected issue error: {m}"),
        Ok(_) => panic!("subject should not decrypt"),
    }
}

#[test]
fn round_trips() {
    let cipher = TokenIdCipher::new(key(1));
    let id = Uuid::now_v7();

    let encrypted = cipher.encrypt(id.into_bytes()).unwrap();
    let decrypted = cipher.decrypt(&encrypted).unwrap();

    assert_eq!(id, Uuid::from_bytes(decrypted));
}

#[test]
fn same_id_produces_identical_ciphertext() {
    let cipher = TokenIdCipher::new(key(1));
    let id = Uuid::now_v7();

    let first = cipher.encrypt(id.into_bytes()).unwrap();
    let second = cipher.encrypt(id.into_bytes()).unwrap();

    assert_eq!(first, second, "encryption must be deterministic per id");
}

#[test]
fn different_ids_produce_different_ciphertext() {
    let cipher = TokenIdCipher::new(key(1));

    let a = cipher.encrypt(Uuid::now_v7().into_bytes()).unwrap();
    let b = cipher.encrypt(Uuid::now_v7().into_bytes()).unwrap();

    assert_ne!(a, b);
}

#[test]
fn different_keys_produce_different_ciphertext_for_same_id() {
    let id = Uuid::now_v7();

    let under_key_one = TokenIdCipher::new(key(1)).encrypt(id.into_bytes()).unwrap();
    let under_key_two = TokenIdCipher::new(key(2)).encrypt(id.into_bytes()).unwrap();

    assert_ne!(under_key_one, under_key_two);
}

#[test]
fn tampered_ciphertext_fails_to_decrypt() {
    let cipher = TokenIdCipher::new(key(1));
    let mut encrypted = cipher.encrypt(Uuid::now_v7().into_bytes()).unwrap();
    encrypted.replace_range(0..1, if encrypted.starts_with('A') { "B" } else { "A" });

    assert!(cipher.decrypt(&encrypted).is_err());
}

#[test]
fn ciphertext_is_nonce_then_sealed_id_in_unpadded_url_safe_base64() {
    let cipher = TokenIdCipher::new(key(9));
    let id = [0x42u8; 16];
    let encrypted = cipher.encrypt(id).unwrap();
    let payload = URL_SAFE_NO_PAD.decode(&encrypted).unwrap();
    assert_eq!(payload.len(), 24 + 16 + 16);
    assert_eq!(encrypted.len(), 75);
    assert!(encrypted.chars().all(|c| c.is_ascii_alphanumeric() || c == '-' || c == '_'));
    let aead = XChaCha20Poly1305::new((&key(9)).into());
    let opened = aead.decrypt(XNonce::from_slice(&payload[..24]), &payload[24..]).unwrap();
    assert_eq!(opened, id.to_vec());
}

#[test]
fn nonce_comes_from_the_derived_subkey_not_the_key() {
    let cipher = TokenIdCipher::new(key(4));
    let id = [0x17u8; 16];
    let encrypted = cipher.encrypt(id).unwrap();
    let payload = URL_SAFE_NO_PAD.decode(&encrypted).unwrap();

    let mut label_mac = <Hmac<sha2::Sha256> as Mac>::new_from_slice(&key(4)).unwrap();
    label_mac.update(b"token-id-cipher:nonce-derivation:v1");
    let nonce_key = label_mac.finalize().into_bytes();
    let mut id_mac = <Hmac<sha2::Sha256> as Mac>::new_from_slice(&nonce_key).unwrap();
    id_mac.update(&id);
    let digest = id_mac.finalize().into_bytes();
    assert_eq!(&payload[..24], &digest[..24]);
}

#[test]
fn decrypt_rejects_text_that_is_not_base64() {
    let cipher = TokenIdCipher::new(key(1));
    let message = decrypt_message(cipher.decrypt("not base64!"));
    assert!(message.starts_with("malformed subject: "), "{message}");
}

#[test]
fn decrypt_rejects_a_payload_no_longer_than_a_nonce() {
    let cipher = TokenIdCipher::new(key(1));
    let short = URL_SAFE_NO_PAD.encode([1u8; 24]);
    assert_eq!(decrypt_message(cipher.decrypt(&short)), "subject too short");
}

#[test]
fn decrypt_rejects_a_ciphertext_under_another_key() {
    let cipher = TokenIdCipher::new(key(1));
    let other = TokenIdCipher::new(key(2)).encrypt([5u8; 16]).unwrap();
    assert_eq!(decrypt_message(cipher.decrypt(&other)), "failed to decrypt subject");
}

#[test]
fn decrypt_rejects_a_plaintext_that_is_not_sixteen_bytes() {
    let cipher = TokenIdCipher::new(key(1));
    let nonce = [8u8; 24];
    let aead = XChaCha20Poly1305::new((&key(1)).into());
    let sealed = aead.encrypt(XNonce::from_slice(&nonce), &[1u8; 15][..]).unwrap();
    let mut payload = nonce.to_vec();
    payload.extend_from_slice(&sealed);
    let text = URL_SAFE_NO_PAD.encode(payload);
    assert_eq!(
        decrypt_message(cipher.decrypt(&text)),
        "invalid length: expected 16 bytes, found 15"
    );
}
