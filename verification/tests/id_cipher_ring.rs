use token_verifier::id_cipher_ring::RingConfigError;
use token_verifier::{TokenIdCipher, TokenIdCipherRing};

const KEY_A: &str = "0101010101010101010101010101010101010101010101010101010101010101";
const KEY_B: &str = "A0a0A0a0a0a0a0a0a0a0a0a0a0a0a0a0a0a0a0a0a0a0a0a0a0a0a0a0a0a0a0a0";

fn parse_error(raw: &str) -> RingConfigError {
    match TokenIdCipherRing::try_parse(raw) {
        Err(e) => e,
        Ok(_) => panic!("configuration should be refused"),
    }
}

#[test]
fn parse_makes_the_first_entry_active() {
    let ring = TokenIdCipherRing::parse(&format!("c2:{KEY_A},c1:{KEY_B}"));
    assert_eq!(ring.active_cid(), "c2");
    let id = [9u8; 16];
    let expected = TokenIdCipher::new([1u8; 32]).encrypt(id).unwrap();
    assert_eq!(ring.active_cipher().encrypt(id).unwrap(), expected);
    let second = TokenIdCipher::new([0xa0u8; 32]).encrypt(id).unwrap();
    assert_eq!(ring.cipher_for("c1").unwrap().encrypt(id).unwrap(), second);
    assert!(ring.cipher_for("c3").is_none());
}

#[test]
fn parse_lets_a_later_entry_replace_an_earlier_one() {
    let ring = TokenIdCipherRing::parse(&format!("c1:{KEY_A},c1:{KEY_B}"));
    assert_eq!(ring.active_cid(), "c1");
    let id = [3u8; 16];
    let expected = TokenIdCipher::new([0xa0u8; 32]).encrypt(id).unwrap();
    assert_eq!(ring.active_cipher().encrypt(id).unwrap(), expected);
}

#[test]
fn try_parse_refuses_an_entry_without_a_colon() {
    assert_eq!(parse_error(&format!("c1:{KEY_A},c2")), RingConfigError::MalformedEntry);
    assert_eq!(parse_error(""), RingConfigError::MalformedEntry);
}

#[test]
fn try_parse_refuses_a_key_that_is_not_hex() {
    assert_eq!(parse_error("c1:zz"), RingConfigError::InvalidHex);
    assert_eq!(parse_error("c1:abc"), RingConfigError::InvalidHex);
    assert_eq!(parse_error(&format!("c1:x:{KEY_A}")), RingConfigError::InvalidHex);
}

#[test]
fn try_parse_refuses_a_key_of_the_wrong_length() {
    assert_eq!(parse_error("c1:0102"), RingConfigError::WrongKeyLength);
}

#[test]
fn try_parse_reports_the_first_bad_entry() {
    assert_eq!(parse_error("c1:zz,c2"), RingConfigError::InvalidHex);
}

#[test]
fn new_keeps_every_cipher_by_id() {
    let ring = TokenIdCipherRing::new("b".to_string(), vec![("a".to_string(), [1u8; 32]), ("b".to_string(), [2u8; 32])]);
    assert_eq!(ring.active_cid(), "b");
    let id = [1u8; 16];
    let under_b = TokenIdCipher::new([2u8; 32]).encrypt(id).unwrap();
    assert_eq!(ring.active_cipher().encrypt(id).unwrap(), under_b);
    assert!(ring.cipher_for("a").is_some());
}
