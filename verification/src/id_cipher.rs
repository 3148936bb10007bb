//! Deterministic encryption of token subjects (user ids).
//!
//! A subject is sealed with XChaCha20-Poly1305 under a nonce derived from the id itself by
//! HMAC-SHA256 under a separate, domain-separated subkey; the same id always gives the same
//! ciphertext under one key, which downstream services rely on as a stable identity.
use vstd::prelude::*;
use vstd::string::StringSliceAdditionalSpecFns;

use base64::engine::general_purpose::URL_SAFE_NO_PAD;
use base64::Engine;
use chacha20poly1305::aead::Aead;
use chacha20poly1305::{KeyInit, XChaCha20Poly1305, XNonce};
use hmac::{Hmac, Mac};
use sha2::Sha256;

use crate::error::{outcome, verify_error, TokenError, TokenErrorView};
use crate::model::SubjectId;

verus! {

/// Length in bytes of an XChaCha20-Poly1305 nonce.
pub const NONCE_LEN: usize = 24;

/// The label under which the nonce subkey is derived from the encryption key.
pub const NONCE_DERIVATION_LABEL: &'static str = "token-id-cipher:nonce-derivation:v1";

// ---------------------------------------------------------------------------------------------
// Names for what the outside primitives compute.

/// HMAC-SHA256 of `message` under `key`, as the `hmac` and `sha2` crates compute it.
pub uninterp spec fn hmac_sha256(key: Seq<u8>, message: Seq<u8>) -> Seq<u8>;

/// XChaCha20-Poly1305 encryption (ciphertext followed by tag, no associated data), as the
/// `chacha20poly1305` crate computes it.
pub uninterp spec fn xchacha20poly1305_seal(key: Seq<u8>, nonce: Seq<u8>, plaintext: Seq<u8>) -> Seq<u8>;

/// XChaCha20-Poly1305 authenticated decryption, as the `chacha20poly1305` crate computes it:
/// `None` where the tag does not verify.
pub uninterp spec fn xchacha20poly1305_open(key: Seq<u8>, nonce: Seq<u8>, ciphertext: Seq<u8>) -> Option<Seq<u8>>;

/// Unpadded URL-safe base64 text of `bytes`, as the `base64` crate's `URL_SAFE_NO_PAD` engine
/// writes it.
pub uninterp spec fn base64url_encode(bytes: Seq<u8>) -> Seq<char>;

/// What the `base64` crate's `URL_SAFE_NO_PAD` engine decodes `text` to, or the text of its error.
pub uninterp spec fn base64url_decode(text: Seq<char>) -> Result<Seq<u8>, Seq<char>>;

/// The decimal digit character of `d < 10`.
pub open spec fn decimal_digit(d: nat) -> char {
    ('0' as nat + d) as char
}

/// The decimal text of `n`, without leading zeros.
pub open spec fn decimal_text(n: nat) -> Seq<char>
    decreases n,
{
    if n < 10 {
        seq![decimal_digit(n)]
    } else {
        decimal_text(n / 10) + seq![decimal_digit(n % 10)]
    }
}

/// The text of the error that `uuid::Uuid::from_slice` reports for a slice of `len` bytes.
pub open spec fn uuid_length_error_text(len: nat) -> Seq<char> {
    "invalid length: expected 16 bytes, found "@ + decimal_text(len)
}

/// A character of the URL-safe base64 alphabet.
pub open spec fn is_base64url_char(c: char) -> bool {
    ('A' <= c && c <= 'Z') || ('a' <= c && c <= 'z') || ('0' <= c && c <= '9') || c == '-' || c == '_'
}

/// A plaintext short enough for XChaCha20-Poly1305 to seal: under `u32::MAX` blocks of 64 bytes.
pub open spec fn sealable(plaintext: Seq<u8>) -> bool {
    plaintext.len() / 64 < u32::MAX
}

// ---------------------------------------------------------------------------------------------
// Calls into the outside crates.

/// Calls `Hmac::<Sha256>::new_from_slice`, `Mac::update` and `Mac::finalize`. The contract claims
/// only that the 32-byte tag is HMAC-SHA256 of `message` under `key`; `new_from_slice` accepts
/// keys of every length for HMAC, so the call does not fail.
#[verifier::external_body]
fn hmac_sha256_tag(key: &[u8], message: &[u8]) -> (tag: [u8; 32])
    ensures
        tag@ == hmac_sha256(key@, message@),
{
    let mut mac = <Hmac<Sha256> as Mac>::new_from_slice(key).expect("HMAC accepts any key length");
    mac.update(message);
    mac.finalize().into_bytes().into()
}

/// Calls `XChaCha20Poly1305::new` and `Aead::encrypt`. The contract claims that encryption fails
/// exactly when the plaintext reaches the cipher's block limit (`len / 64 >= u32::MAX`), and that
/// the result is the named ciphertext, 16 tag bytes longer than the plaintext.
#[verifier::external_body]
fn aead_seal(key: &[u8], nonce: &[u8], plaintext: &[u8]) -> (r: Option<Vec<u8>>)
    requires
        key@.len() == 32,
        nonce@.len() == NONCE_LEN,
    ensures
        r is Some <==> sealable(plaintext@),
        r matches Some(c) ==> c@ == xchacha20poly1305_seal(key@, nonce@, plaintext@),
        r matches Some(c) ==> c@.len() == plaintext@.len() + 16,
{
    XChaCha20Poly1305::new(key.into()).encrypt(XNonce::from_slice(nonce), plaintext).ok()
}

/// Calls `XChaCha20Poly1305::new` and `Aead::decrypt`. The contract claims that the result is the
/// named decryption, and that decrypting what encryption produced under the same key and nonce
/// gives the plaintext back.
#[verifier::external_body]
fn aead_open(key: &[u8], nonce: &[u8], ciphertext: &[u8]) -> (r: Option<Vec<u8>>)
    requires
        key@.len() == 32,
        nonce@.len() == NONCE_LEN,
    ensures
        r matches Some(p) ==> xchacha20poly1305_open(key@, nonce@, ciphertext@) == Some(p@),
        r is None ==> xchacha20poly1305_open(key@, nonce@, ciphertext@) is None,
        r is Some ==> r->Some_0@.len() + 16 == ciphertext@.len(),
        forall|p: Seq<u8>|
            ciphertext@ == #[trigger] xchacha20poly1305_seal(key@, nonce@, p) && sealable(p) ==> (r is Some && r->Some_0@ == p),
{
    XChaCha20Poly1305::new(key.into()).decrypt(XNonce::from_slice(nonce), ciphertext).ok()
}

/// Calls `URL_SAFE_NO_PAD.encode`. The contract claims the named text, four characters for every
/// three bytes with no padding, all of the URL-safe alphabet.
#[verifier::external_body]
fn base64url_encode_bytes(bytes: &[u8]) -> (s: String)
    ensures
        s@ == base64url_encode(bytes@),
        s@.len() == (4 * bytes@.len() + 2) / 3,
        forall|i: int| 0 <= i < s@.len() ==> is_base64url_char(#[trigger] s@[i]),
{
    URL_SAFE_NO_PAD.encode(bytes)
}

/// Calls `URL_SAFE_NO_PAD.decode`, turning its error into its display text. The contract claims
/// the named result, and that decoding what the engine encoded gives the bytes back.
#[verifier::external_body]
fn base64url_decode_text(text: &str) -> (r: Result<Vec<u8>, String>)
    ensures
        r is Ok ==> base64url_decode(text@) is Ok && base64url_decode(text@)->Ok_0 == r->Ok_0@,
        r is Err ==> base64url_decode(text@) is Err && base64url_decode(text@)->Err_0 == r->Err_0@,
        forall|b: Seq<u8>| text@ == #[trigger] base64url_encode(b) ==> (r is Ok && r->Ok_0@ == b),
{
    match URL_SAFE_NO_PAD.decode(text) {
        Ok(b) => Ok(b),
        Err(e) => Err(e.to_string()),
    }
}

/// Calls `uuid::Uuid::from_slice` and `Uuid::into_bytes`, turning the error into its display
/// text. The contract claims that the call succeeds exactly on 16 bytes, and then gives them
/// back unchanged, and the error's text otherwise.
#[verifier::external_body]
fn uuid_bytes_from_slice(bytes: &[u8]) -> (r: Result<SubjectId, String>)
    ensures
        r is Ok <==> bytes@.len() == 16,
        r matches Ok(id) ==> id@ == bytes@,
        r matches Err(m) ==> m@ == uuid_length_error_text(bytes@.len()),
{
    match uuid::Uuid::from_slice(bytes) {
        Ok(id) => Ok(id.into_bytes()),
        Err(e) => Err(e.to_string()),
    }
}

// ---------------------------------------------------------------------------------------------
// The cipher.

/// The two keys of a [`TokenIdCipher`].
pub struct CipherKeys {
    pub key: Seq<u8>,
    pub nonce_key: Seq<u8>,
}

/// The bytes of the nonce derivation label.
pub open spec fn nonce_label() -> Seq<u8> {
    NONCE_DERIVATION_LABEL.spec_bytes()
}

/// The keys that [`TokenIdCipher::new`] derives from an encryption key.
pub open spec fn cipher_keys_for(key: Seq<u8>) -> CipherKeys {
    CipherKeys { key, nonce_key: hmac_sha256(key, nonce_label()) }
}

/// The nonce under which `id` is sealed: the first 24 bytes of its HMAC under the nonce key.
pub open spec fn derived_nonce(k: CipherKeys, id: Seq<u8>) -> Seq<u8> {
    hmac_sha256(k.nonce_key, id).take(NONCE_LEN as int)
}

/// The sealed subject: the nonce followed by the ciphertext of the id.
pub open spec fn sealed_subject(k: CipherKeys, id: Seq<u8>) -> Seq<u8> {
    derived_nonce(k, id) + xchacha20poly1305_seal(k.key, derived_nonce(k, id), id)
}

/// The lengths that sealing a 16-byte id gives: a 24-byte nonce, then 32 bytes of ciphertext and
/// tag.
pub open spec fn sealed_lengths(k: CipherKeys, id: Seq<u8>) -> bool {
    &&& derived_nonce(k, id).len() == NONCE_LEN
    &&& xchacha20poly1305_seal(k.key, derived_nonce(k, id), id).len() == 32
}

/// The encrypted subject text of `id`.
pub open spec fn encrypted_subject(k: CipherKeys, id: Seq<u8>) -> Seq<char> {
    base64url_encode(sealed_subject(k, id))
}

/// What decrypting a subject text gives: the id, or the failure that stops it.
pub open spec fn decrypted_subject(k: CipherKeys, text: Seq<char>) -> Result<Seq<u8>, TokenErrorView> {
    match base64url_decode(text) {
        Err(m) => Err(TokenErrorView::Verify("malformed subject: "@ + m)),
        Ok(payload) => if payload.len() <= NONCE_LEN {
            Err(TokenErrorView::Verify("subject too short"@))
        } else {
            match xchacha20poly1305_open(
                k.key,
                payload.take(NONCE_LEN as int),
                payload.skip(NONCE_LEN as int),
            ) {
                None => Err(TokenErrorView::Verify("failed to decrypt subject"@)),
                Some(plain) => if plain.len() == 16 {
                    Ok(plain)
                } else {
                    Err(TokenErrorView::Verify(uuid_length_error_text(plain.len())))
                },
            }
        },
    }
}

/// A subject decrypts exactly when its text is base64 of a nonce followed by a ciphertext that
/// authenticates under the cipher key to 16 bytes, and the id it gives is that plaintext, byte for
/// byte.
pub proof fn lemma_decrypted_subject_is_plaintext(k: CipherKeys, text: Seq<char>)
    ensures
        decrypted_subject(k, text) is Ok <==> {
            &&& base64url_decode(text) is Ok
            &&& base64url_decode(text)->Ok_0.len() > NONCE_LEN
            &&& xchacha20poly1305_open(
                k.key,
                base64url_decode(text)->Ok_0.take(NONCE_LEN as int),
                base64url_decode(text)->Ok_0.skip(NONCE_LEN as int),
            ) is Some
            &&& xchacha20poly1305_open(
                k.key,
                base64url_decode(text)->Ok_0.take(NONCE_LEN as int),
                base64url_decode(text)->Ok_0.skip(NONCE_LEN as int),
            )->Some_0.len() == 16
        },
        decrypted_subject(k, text) is Ok ==> decrypted_subject(k, text)->Ok_0 == xchacha20poly1305_open(
            k.key,
            base64url_decode(text)->Ok_0.take(NONCE_LEN as int),
            base64url_decode(text)->Ok_0.skip(NONCE_LEN as int),
        )->Some_0,
{
}

/// The sealed subject is the first 24 bytes of the id's HMAC under the nonce key, then the
/// sealing of the id itself, unchanged, under that nonce and the cipher key.
pub proof fn lemma_sealed_subject_layout(k: CipherKeys, id: Seq<u8>)
    requires
        hmac_sha256(k.nonce_key, id).len() >= NONCE_LEN,
    ensures
        sealed_subject(k, id).take(NONCE_LEN as int) == hmac_sha256(k.nonce_key, id).take(NONCE_LEN as int),
        sealed_subject(k, id).skip(NONCE_LEN as int) == xchacha20poly1305_seal(
            k.key,
            hmac_sha256(k.nonce_key, id).take(NONCE_LEN as int),
            id,
        ),
{
    let n = hmac_sha256(k.nonce_key, id).take(NONCE_LEN as int);
    let c = xchacha20poly1305_seal(k.key, n, id);
    assert((n + c).take(NONCE_LEN as int) =~= n);
    assert((n + c).skip(NONCE_LEN as int) =~= c);
}

/// Encrypts and decrypts token subjects under one 32-byte key.
pub struct TokenIdCipher {
    key: [u8; 32],
    nonce_key: [u8; 32],
}

impl View for TokenIdCipher {
    type V = CipherKeys;

    closed spec fn view(&self) -> CipherKeys {
        CipherKeys { key: self.key@, nonce_key: self.nonce_key@ }
    }
}

impl TokenIdCipher {
    /// A cipher under `key`, with its nonce subkey derived from it.
    pub fn new(key: [u8; 32]) -> (r: Self)
        ensures
            r@ == cipher_keys_for(key@),
    {
        let nonce_key = hmac_sha256_tag(key.as_slice(), NONCE_DERIVATION_LABEL.as_bytes());
        TokenIdCipher { key, nonce_key }
    }

    fn derive_nonce(&self, id: &SubjectId) -> (r: Vec<u8>)
        ensures
            r@ == derived_nonce(self@, id@),
            r@.len() == NONCE_LEN,
    {
        let digest = hmac_sha256_tag(self.nonce_key.as_slice(), id.as_slice());
        let mut nonce: Vec<u8> = Vec::new();
        let mut i: usize = 0;
        while i < NONCE_LEN
            invariant
                i <= NONCE_LEN,
                digest@ == hmac_sha256(self@.nonce_key, id@),
                nonce@ == digest@.take(i as int),
            decreases NONCE_LEN - i,
        {
            nonce.push(digest[i]);
            i = i + 1;
            assert(nonce@ =~= digest@.take(i as int));
        }
        nonce
    }

    /// The encrypted subject text of `id`; the same id always gives the same text.
    pub fn encrypt(&self, id: SubjectId) -> (r: Result<String, TokenError>)
        ensures
            r is Ok && r->Ok_0@ == encrypted_subject(self@, id@),
            sealed_lengths(self@, id@),
            r->Ok_0@.len() == 75,
            forall|i: int| 0 <= i < r->Ok_0@.len() ==> is_base64url_char(#[trigger] r->Ok_0@[i]),
            r->Ok_0@ == base64url_encode(
                hmac_sha256(self@.nonce_key, id@).take(NONCE_LEN as int) + xchacha20poly1305_seal(
                    self@.key,
                    hmac_sha256(self@.nonce_key, id@).take(NONCE_LEN as int),
                    id@,
                ),
            ),
    {
        let nonce = self.derive_nonce(&id);
        let ciphertext = match aead_seal(self.key.as_slice(), nonce.as_slice(), id.as_slice()) {
            Some(c) => c,
            None => {
                return Err(TokenError::Issue(String::from_str("failed to encrypt subject")));
            },
        };
        let mut payload = nonce;
        let mut i: usize = 0;
        let ghost start = payload@;
        while i < ciphertext.len()
            invariant
                start.len() == NONCE_LEN,
                i <= ciphertext@.len(),
                payload@ == start + ciphertext@.take(i as int),
            decreases ciphertext@.len() - i,
        {
            payload.push(ciphertext[i]);
            i = i + 1;
            assert(payload@ =~= start + ciphertext@.take(i as int));
        }
        assert(ciphertext@.take(i as int) =~= ciphertext@);
        assert(payload@.len() == NONCE_LEN + 32);
        Ok(base64url_encode_bytes(payload.as_slice()))
    }

    /// The id that an encrypted subject text holds.
    ///
    /// Fails where the text is not unpadded URL-safe base64, where it is too short to hold a
    /// nonce and a ciphertext, where the ciphertext does not authenticate under this cipher's key,
    /// and where the plaintext is not 16 bytes. Decrypting what [`Self::encrypt`] produced gives
    /// the id back.
    pub fn decrypt(&self, encoded: &str) -> (r: Result<SubjectId, TokenError>)
        ensures
            outcome(r) == decrypted_subject(self@, encoded@),
            forall|id: Seq<u8>|
                #![trigger encrypted_subject(self@, id)]
                id.len() == 16 && sealed_lengths(self@, id) && encoded@ == encrypted_subject(self@, id) ==> (r is Ok && r->Ok_0@ == id),
            r is Ok ==> base64url_decode(encoded@) is Ok && base64url_decode(encoded@)->Ok_0.len() == NONCE_LEN + 32,
            r is Ok ==> xchacha20poly1305_open(
                self@.key,
                base64url_decode(encoded@)->Ok_0.take(NONCE_LEN as int),
                base64url_decode(encoded@)->Ok_0.skip(NONCE_LEN as int),
            ) == Some(r->Ok_0@),
    {
        let payload = match base64url_decode_text(encoded) {
            Ok(p) => p,
            Err(m) => {
                return Err(verify_error("malformed subject: ", m.as_str()));
            },
        };
        proof {
            assert forall|id: Seq<u8>|
                #![trigger encrypted_subject(self@, id)]
                id.len() == 16 && sealed_lengths(self@, id) && encoded@ == encrypted_subject(
                    self@,
                    id,
                ) implies payload@ == sealed_subject(self@, id) && payload@.len() == NONCE_LEN + 32
                && payload@.take(NONCE_LEN as int) == derived_nonce(self@, id) && payload@.skip(
                NONCE_LEN as int,
            ) == xchacha20poly1305_seal(self@.key, derived_nonce(self@, id), id) by {
                let n = derived_nonce(self@, id);
                let c = xchacha20poly1305_seal(self@.key, n, id);
                assert((n + c).take(NONCE_LEN as int) =~= n);
                assert((n + c).skip(NONCE_LEN as int) =~= c);
            }
        }
        if payload.len() <= NONCE_LEN {
            return Err(TokenError::Verify(String::from_str("subject too short")));
        }
        let (nonce, ciphertext) = payload.as_slice().split_at(NONCE_LEN);
        assert(nonce@ == payload@.take(NONCE_LEN as int));
        assert(ciphertext@ == payload@.skip(NONCE_LEN as int));
        let plaintext = match aead_open(self.key.as_slice(), nonce, ciphertext) {
            Some(p) => p,
            None => {
                return Err(TokenError::Verify(String::from_str("failed to decrypt subject")));
            },
        };
        proof {
            assert forall|id: Seq<u8>|
                #![trigger encrypted_subject(self@, id)]
                id.len() == 16 && sealed_lengths(self@, id) && encoded@ == encrypted_subject(
                    self@,
                    id,
                ) implies plaintext@ == id by {
                assert(ciphertext@ == xchacha20poly1305_seal(
                    self@.key,
                    derived_nonce(self@, id),
                    id,
                ));
                assert(sealable(id));
            }
        }
        match uuid_bytes_from_slice(plaintext.as_slice()) {
            Ok(id) => Ok(id),
            Err(m) => Err(TokenError::Verify(m)),
        }
    }
}

} // verus!
