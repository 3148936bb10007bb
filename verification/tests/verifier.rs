use std::sync::Arc;

use rusty_paseto::prelude::{Footer, PasetoAsymmetricPrivateKey, PasetoBuilder, Public, V4};
use token_verifier::{ImplTokenVerifierPaseto, PasetoKeyRing, TokenError, TokenType, TokenVerifier};
use uuid::Uuid;

fn generate_key() -> [u8; 64] {
    let signing_key = ed25519_dalek::SigningKey::generate(&mut rand_core::OsRng);
    signing_key.to_keypair_bytes()
}

fn kid_footer(kid: &str) -> String {
    format!("{{\"kid\":\"{}\"}}", kid)
}

fn issue_token(key: &[u8; 64], kid: &str, sub: Uuid, email: &str, typ: &str) -> String {
    let private_key = PasetoAsymmetricPrivateKey::<V4, Public>::try_from(key.as_slice()).unwrap();
    let footer = kid_footer(kid);
    let sub_text = sub.to_string();
    let token = PasetoBuilder::<V4, Public>::default()
        .subject(&sub_text)
        .claim("email", email)
        .unwrap()
        .claim("typ", typ)
        .unwrap()
        .set_footer(Footer::from(footer.as_str()))
        .build(&private_key)
        .unwrap();
    token
}

fn single_key_ring(kid: &str, key: [u8; 64]) -> Arc<PasetoKeyRing> {
    Arc::new(PasetoKeyRing::new(kid.to_string(), vec![(kid.to_string(), key)]))
}

fn verify_message(result: Result<token_verifier::ModelClaims, TokenError>) -> String {
    match result {
        Err(TokenError::Verify(m)) => m,
        Err(TokenError::Issue(m)) => panic!("unexpected issue error: {m}"),
        Ok(_) => panic!("token should not verify"),
    }
}

#[test]
fn verifies_a_correctly_signed_access_token() {
    let key = generate_key();
    let verifier = ImplTokenVerifierPaseto::new(single_key_ring("v1", key));

    let sub = Uuid::now_v7();
    let token = issue_token(&key, "v1", sub, "user@example.com", "access");

    let claims = verifier.verify(&token).expect("token should verify");
    assert_eq!(claims.sub, sub.into_bytes());
    assert_eq!(claims.email, "user@example.com");
    assert_eq!(claims.token_type, TokenType::Access);
}

#[test]
fn verifier_verifies_a_token_with_the_v4_public_prefix_stripped() {
    let key = generate_key();
    let verifier = ImplTokenVerifierPaseto::new(single_key_ring("v1", key));

    let token = issue_token(&key, "v1", Uuid::now_v7(), "user@example.com", "refresh");
    let trimmed = token.strip_prefix("v4.public.").unwrap();

    let claims = verifier.verify(trimmed).expect("prefix-stripped token should still verify");
    assert_eq!(claims.token_type, TokenType::Refresh);
}

#[test]
fn verifier_rejects_a_token_signed_by_an_unknown_key_id() {
    let signing_key = generate_key();
    let token = issue_token(&signing_key, "v1", Uuid::now_v7(), "user@example.com", "access");

    let verifier = ImplTokenVerifierPaseto::new(single_key_ring("v2", generate_key()));

    assert!(verifier.verify(&token).is_err());
}

#[test]
fn verifier_old_key_tokens_still_verify_after_rotation() {
    let key_v1 = generate_key();
    let key_v2 = generate_key();
    let keys = vec![("v1".to_string(), key_v1), ("v2".to_string(), key_v2)];
    let ring = Arc::new(PasetoKeyRing::new("v2".to_string(), keys));
    let verifier = ImplTokenVerifierPaseto::new(ring);

    let old_token = issue_token(&key_v1, "v1", Uuid::now_v7(), "user@example.com", "access");
    verifier.verify(&old_token).expect("token signed with a retired key must still verify");
}

#[test]
fn verifier_names_the_unknown_key_id() {
    let token = issue_token(&generate_key(), "v7", Uuid::now_v7(), "user@example.com", "access");
    let verifier = ImplTokenVerifierPaseto::new(single_key_ring("v1", generate_key()));
    assert_eq!(verify_message(verifier.verify(&token)), "unknown key id: v7");
}

#[test]
fn verifier_rejects_a_token_signed_by_another_key_under_a_known_id() {
    let token = issue_token(&generate_key(), "v1", Uuid::now_v7(), "user@example.com", "access");
    let verifier = ImplTokenVerifierPaseto::new(single_key_ring("v1", generate_key()));
    assert!(verifier.verify(&token).is_err());
}

#[test]
fn verifier_rejects_a_token_tampered_after_signing() {
    let key = generate_key();
    let verifier = ImplTokenVerifierPaseto::new(single_key_ring("v1", key));
    let mut token = issue_token(&key, "v1", Uuid::now_v7(), "user@example.com", "access");
    token.push('x');
    assert!(verifier.verify(&token).is_err());
}

#[test]
fn verifier_requires_a_footer() {
    let verifier = ImplTokenVerifierPaseto::new(single_key_ring("v1", generate_key()));
    assert_eq!(
        verify_message(verifier.verify("v4.public.eyJzdWIiOiJ4In0")),
        "token missing key id footer"
    );
}

#[test]
fn verifier_requires_a_kid_in_the_footer() {
    let verifier = ImplTokenVerifierPaseto::new(single_key_ring("v1", generate_key()));
    // The footer is base64url of `{"key":"v1"}`.
    assert_eq!(
        verify_message(verifier.verify("v4.public.eyJzdWIiOiJ4In0.eyJrZXkiOiJ2MSJ9")),
        "footer missing kid"
    );
}

#[test]
fn verifier_reports_a_footer_that_is_not_json() {
    let verifier = ImplTokenVerifierPaseto::new(single_key_ring("v1", generate_key()));
    // The footer is base64url of `kid`.
    let message = verify_message(verifier.verify("v4.public.eyJzdWIiOiJ4In0.a2lk"));
    assert!(message.starts_with("malformed footer: "), "{message}");
}

#[test]
fn verification_request_selects_the_public_half_of_the_footer_key() {
    let key_v1 = generate_key();
    let key_v2 = generate_key();
    let ring = Arc::new(PasetoKeyRing::new(
        "v2".to_string(),
        vec![("v1".to_string(), key_v1), ("v2".to_string(), key_v2)],
    ));
    let verifier = ImplTokenVerifierPaseto::new(ring);
    let token = issue_token(&key_v1, "v1", Uuid::now_v7(), "a@b.c", "access");
    let request = verifier.verification_request(&token).expect("request");
    assert_eq!(request.public_key.as_slice(), &key_v1[32..]);
    assert_eq!(request.footer, kid_footer("v1"));
    assert_eq!(request.token, token);
}

#[test]
fn claims_from_payload_reads_every_claim() {
    let id = Uuid::now_v7();
    let payload = format!(
        "{{\"sub\":\"{}\",\"typ\":\"refresh\",\"email\":\"x@y.z\"}}",
        id
    );
    let claims = ImplTokenVerifierPaseto::claims_from_payload(&payload).unwrap();
    assert_eq!(claims.sub, id.into_bytes());
    assert_eq!(claims.email, "x@y.z");
    assert_eq!(claims.token_type, TokenType::Refresh);
}

#[test]
fn claims_from_payload_without_email_reads_it_as_empty() {
    let id = Uuid::now_v7();
    let payload = format!("{{\"sub\":\"{}\",\"typ\":\"access\"}}", id);
    let claims = ImplTokenVerifierPaseto::claims_from_payload(&payload).unwrap();
    assert_eq!(claims.email, "");
}

#[test]
fn claims_from_payload_reports_each_missing_claim() {
    assert_eq!(
        verify_message(ImplTokenVerifierPaseto::claims_from_payload("{\"typ\":\"access\"}")),
        "missing sub claim"
    );
    assert_eq!(
        verify_message(ImplTokenVerifierPaseto::claims_from_payload(
            "{\"sub\":\"0191b1e4-7f3a-7cc0-8f2e-3b9d2f6a1c44\"}"
        )),
        "missing typ claim"
    );
}

#[test]
fn claims_from_payload_rejects_an_unknown_type() {
    let payload = "{\"sub\":\"0191b1e4-7f3a-7cc0-8f2e-3b9d2f6a1c44\",\"typ\":\"admin\"}";
    assert_eq!(
        verify_message(ImplTokenVerifierPaseto::claims_from_payload(payload)),
        "unknown typ claim: admin"
    );
}

#[test]
fn claims_from_payload_rejects_a_subject_that_is_not_a_uuid() {
    let payload = "{\"sub\":\"not-a-uuid\",\"typ\":\"access\"}";
    assert!(ImplTokenVerifierPaseto::claims_from_payload(payload).is_err());
}

#[test]
fn claims_from_payload_parses_the_uuid_text() {
    let payload = "{\"sub\":\"00112233-4455-6677-8899-aabbccddeeff\",\"typ\":\"access\"}";
    let claims = ImplTokenVerifierPaseto::claims_from_payload(payload).unwrap();
    assert_eq!(
        claims.sub,
        [0x00, 0x11, 0x22, 0x33, 0x44, 0x55, 0x66, 0x77, 0x88, 0x99, 0xaa, 0xbb, 0xcc, 0xdd, 0xee, 0xff]
    );
}
