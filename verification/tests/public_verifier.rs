use std::sync::Arc;

use rand_core::RngCore;
use rusty_paseto::prelude::{Footer, PasetoAsymmetricPrivateKey, PasetoBuilder, Public, V4};
use token_verifier::{ImplTokenVerifierPasetoPublic, TokenError, TokenIdCipherRing, TokenType, TokenVerifier};
use uuid::Uuid;

fn generate_keypair() -> [u8; 64] {
    let signing_key = ed25519_dalek::SigningKey::generate(&mut rand_core::OsRng);
    signing_key.to_keypair_bytes()
}

fn generate_cipher_key() -> [u8; 32] {
    let mut key = [0u8; 32];
    rand_core::OsRng.fill_bytes(&mut key);
    key
}

fn single_cipher_ring(cid: &str, key: [u8; 32]) -> Arc<TokenIdCipherRing> {
    Arc::new(TokenIdCipherRing::new(cid.to_string(), vec![(cid.to_string(), key)]))
}

fn issue_public_token(
    keypair: &[u8; 64],
    kid: &str,
    sub: Uuid,
    typ: &str,
    id_cipher_ring: &TokenIdCipherRing,
) -> String {
    let private_key = PasetoAsymmetricPrivateKey::<V4, Public>::try_from(keypair.as_slice()).unwrap();
    let footer = format!("{{\"kid\":\"{}\"}}", kid);
    let encrypted_sub = id_cipher_ring.active_cipher().encrypt(sub.into_bytes()).unwrap();
    let sub_claim = format!("{}.{}", id_cipher_ring.active_cid(), encrypted_sub);
    let token = PasetoBuilder::<V4, Public>::default()
        .subject(&sub_claim)
        .claim("typ", typ)
        .unwrap()
        .set_footer(Footer::from(footer.as_str()))
        .build(&private_key)
        .unwrap();
    token
}

fn public_key_map(kid: &str, keypair: &[u8; 64]) -> Vec<(String, [u8; 32])> {
    let public: [u8; 32] = keypair[32..].try_into().unwrap();
    vec![(kid.to_string(), public)]
}

fn public_verify_message(result: Result<token_verifier::ModelClaims, TokenError>) -> String {
    match result {
        Err(TokenError::Verify(m)) => m,
        Err(TokenError::Issue(m)) => panic!("unexpected issue error: {m}"),
        Ok(_) => panic!("token should not verify"),
    }
}

#[test]
fn verifies_a_correctly_signed_access_token_with_only_the_public_key() {
    let keypair = generate_keypair();
    let id_cipher_ring = single_cipher_ring("c1", generate_cipher_key());
    let verifier = ImplTokenVerifierPasetoPublic::new(public_key_map("v1", &keypair), id_cipher_ring.clone());

    let sub = Uuid::now_v7();
    let token = issue_public_token(&keypair, "v1", sub, "access", &id_cipher_ring);

    let claims = verifier.verify(&token).expect("token should verify");
    assert_eq!(claims.sub, sub.into_bytes());
    assert_eq!(claims.token_type, TokenType::Access);
}

#[test]
fn public_verifier_verifies_a_token_with_the_v4_public_prefix_stripped() {
    let keypair = generate_keypair();
    let id_cipher_ring = single_cipher_ring("c1", generate_cipher_key());
    let verifier = ImplTokenVerifierPasetoPublic::new(public_key_map("v1", &keypair), id_cipher_ring.clone());

    let token = issue_public_token(&keypair, "v1", Uuid::now_v7(), "refresh", &id_cipher_ring);
    let trimmed = token.strip_prefix("v4.public.").unwrap();

    let claims = verifier.verify(trimmed).expect("prefix-stripped token should still verify");
    assert_eq!(claims.token_type, TokenType::Refresh);
}

#[test]
fn public_verifier_rejects_a_token_signed_by_an_unknown_key_id() {
    let signing_keypair = generate_keypair();
    let id_cipher_ring = single_cipher_ring("c1", generate_cipher_key());
    let token = issue_public_token(&signing_keypair, "v1", Uuid::now_v7(), "access", &id_cipher_ring);

    let other_keypair = generate_keypair();
    let verifier = ImplTokenVerifierPasetoPublic::new(public_key_map("v2", &other_keypair), id_cipher_ring);

    assert!(verifier.verify(&token).is_err());
}

#[test]
fn rejects_a_token_tampered_after_signing() {
    let keypair = generate_keypair();
    let id_cipher_ring = single_cipher_ring("c1", generate_cipher_key());
    let verifier = ImplTokenVerifierPasetoPublic::new(public_key_map("v1", &keypair), id_cipher_ring.clone());

    let token = issue_public_token(&keypair, "v1", Uuid::now_v7(), "access", &id_cipher_ring);
    let mut tampered = token.clone();
    tampered.push('x');

    assert!(verifier.verify(&tampered).is_err());
}

#[test]
fn public_verifier_old_key_tokens_still_verify_after_rotation() {
    let keypair_v1 = generate_keypair();
    let keypair_v2 = generate_keypair();
    let mut keys = public_key_map("v1", &keypair_v1);
    keys.extend(public_key_map("v2", &keypair_v2));
    let id_cipher_ring = single_cipher_ring("c1", generate_cipher_key());
    let verifier = ImplTokenVerifierPasetoPublic::new(keys, id_cipher_ring.clone());

    let old_token = issue_public_token(&keypair_v1, "v1", Uuid::now_v7(), "access", &id_cipher_ring);
    verifier.verify(&old_token).expect("token signed with a retired key must still verify");
}

#[test]
fn rejects_a_token_with_an_unknown_cipher_id() {
    let keypair = generate_keypair();
    let issuing_ring = single_cipher_ring("c1", generate_cipher_key());
    let token = issue_public_token(&keypair, "v1", Uuid::now_v7(), "access", &issuing_ring);

    let verifying_ring = single_cipher_ring("c2", generate_cipher_key());
    let verifier = ImplTokenVerifierPasetoPublic::new(public_key_map("v1", &keypair), verifying_ring);

    assert!(verifier.verify(&token).is_err());
}

#[test]
fn public_verifier_names_the_unknown_cipher_id() {
    let keypair = generate_keypair();
    let issuing_ring = single_cipher_ring("c1", generate_cipher_key());
    let token = issue_public_token(&keypair, "v1", Uuid::now_v7(), "access", &issuing_ring);
    let verifier =
        ImplTokenVerifierPasetoPublic::new(public_key_map("v1", &keypair), single_cipher_ring("c2", generate_cipher_key()));
    assert_eq!(public_verify_message(verifier.verify(&token)), "unknown cipher id: c1");
}

#[test]
fn public_verifier_names_the_unknown_key_id() {
    let keypair = generate_keypair();
    let ring = single_cipher_ring("c1", generate_cipher_key());
    let token = issue_public_token(&keypair, "v9", Uuid::now_v7(), "access", &ring);
    let verifier = ImplTokenVerifierPasetoPublic::new(public_key_map("v1", &keypair), ring);
    assert_eq!(public_verify_message(verifier.verify(&token)), "unknown key id: v9");
}

#[test]
fn public_verifier_rejects_a_token_without_a_footer() {
    let keypair = generate_keypair();
    let ring = single_cipher_ring("c1", generate_cipher_key());
    let verifier = ImplTokenVerifierPasetoPublic::new(public_key_map("v1", &keypair), ring);
    let body = base64::Engine::encode(&base64::engine::general_purpose::URL_SAFE_NO_PAD, [7u8; 80]);
    let token = format!("v4.public.{body}");
    let message = public_verify_message(verifier.verify(&token));
    assert!(message.starts_with("malformed footer: "), "{message}");
}

#[test]
fn public_subject_id_reads_the_cipher_id_and_ciphertext() {
    let ring = single_cipher_ring("c1", [3u8; 32]);
    let verifier = ImplTokenVerifierPasetoPublic::new(Vec::new(), ring.clone());
    let id = Uuid::now_v7().into_bytes();
    let encrypted = ring.active_cipher().encrypt(id).unwrap();
    assert_eq!(verifier.subject_id(&format!("c1.{encrypted}")).unwrap(), id);
    assert_eq!(
        public_verify_message_for_id(verifier.subject_id(&encrypted)),
        "malformed subject"
    );
}

fn public_verify_message_for_id(result: Result<[u8; 16], TokenError>) -> String {
    match result {
        Err(TokenError::Verify(m)) => m,
        _ => panic!("subject should not decrypt"),
    }
}

#[test]
fn public_claims_from_payload_reads_an_encrypted_subject() {
    let ring = single_cipher_ring("c1", [5u8; 32]);
    let verifier = ImplTokenVerifierPasetoPublic::new(Vec::new(), ring.clone());
    let id = Uuid::now_v7().into_bytes();
    let encrypted = ring.active_cipher().encrypt(id).unwrap();
    let payload = format!("{{\"sub\":\"c1.{encrypted}\",\"typ\":\"access\"}}");
    let claims = verifier.claims_from_payload(&payload).unwrap();
    assert_eq!(claims.sub, id);
    assert_eq!(claims.email, "");
    assert_eq!(claims.token_type, TokenType::Access);
    assert_eq!(
        public_verify_message(verifier.claims_from_payload("{\"sub\":\"c1.x\"}")),
        "missing typ claim"
    );
}
