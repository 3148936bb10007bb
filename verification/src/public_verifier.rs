//! Verification of PASETO v4.public tokens with the issuer's public keys alone.
use vstd::prelude::*;

use std::sync::Arc;

use pasetors::claims::ClaimsValidationRules;
use pasetors::keys::AsymmetricPublicKey;
use pasetors::token::UntrustedToken;
use pasetors::version4::V4;
use pasetors::{public, Public};

use crate::claims::{claim_text, missing_claim, read_json_bytes_field, required_claim, json_bytes_field};
use crate::error::{outcome, verify_error, TokenError, TokenErrorView};
use crate::id_cipher::decrypted_subject;
use crate::id_cipher_ring::{CipherRingView, TokenIdCipherRing};
use crate::keyed::{entry_views, map_of_entries, KeyTable};
use crate::model::{token_type_of_text, ModelClaims, ModelClaimsView, TokenType};
use crate::paseto_verifier::TokenVerifier;
use crate::text::{split_once, split_once_char};
use crate::text::has_prefix;
use crate::{client_form, full_form, lemma_client_form_restores, with_v4_public_prefix, V4_PUBLIC_PREFIX};

verus! {

/// The footer bytes of a version 4 public token, as `pasetors`' `UntrustedToken` reads it before
/// any signature check (empty where the token has none), or the text of its error.
pub uninterp spec fn pasetors_footer_bytes(token: Seq<char>) -> Result<Seq<u8>, Seq<char>>;

/// Calls `UntrustedToken::<Public, V4>::try_from` and `UntrustedToken::untrusted_footer`; the
/// error becomes its display text. The contract claims the named result.
#[verifier::external_body]
fn untrusted_footer_bytes(token: &str) -> (r: Result<Vec<u8>, String>)
    ensures
        r is Ok ==> pasetors_footer_bytes(token@) is Ok && pasetors_footer_bytes(token@)->Ok_0
            == r->Ok_0@,
        r is Err ==> pasetors_footer_bytes(token@) is Err && pasetors_footer_bytes(token@)->Err_0
            == r->Err_0@,
{
    match UntrustedToken::<Public, V4>::try_from(token) {
        Ok(untrusted) => Ok(untrusted.untrusted_footer().to_vec()),
        Err(e) => Err(e.to_string()),
    }
}

/// The payload text of a version 4 public token whose Ed25519 signature verifies under
/// `public_key`, as `pasetors`' `version4::PublicToken::verify` checks it; `None` where the token
/// cannot be read, the signature does not verify or the payload is not UTF-8 text.
pub uninterp spec fn pasetors_v4_public_payload(token: Seq<char>, public_key: Seq<u8>) -> Option<Seq<char>>;

/// Calls `UntrustedToken::<Public, V4>::try_from`, `AsymmetricPublicKey::<V4>::from` and
/// `public::verify` with `ClaimsValidationRules::new()`, and gives back the verified payload
/// text; errors become their display text. The contract claims that success gives the payload
/// that the valid signature vouches for, and that it holds string `exp`, `nbf` and `iat` claims:
/// `ClaimsValidationRules::new()` refuses any other. Where the signature is valid, a failure can
/// only come from `Claims::from_string` or `validate_claims`, whose errors display as
/// [`is_pasetors_claims_error`] says. Which of them the clock gives is left unstated.
/// The display text of a `pasetors` error that reading or validating the claims of a validly
/// signed payload gives: `ClaimInvalidJson`, `InvalidClaim` or `ClaimValidation(..)`.
pub open spec fn is_pasetors_claims_error(m: Seq<char>) -> bool {
    m == "ClaimInvalidJson"@ || m == "InvalidClaim"@ || has_prefix(m, "ClaimValidation("@)
}

#[verifier::external_body]
fn verified_payload(token: &str, public_key: &[u8; 32]) -> (r: Result<String, String>)
    ensures
        r is Ok ==> pasetors_v4_public_payload(token@, public_key@) == Some(r->Ok_0@),
        r is Ok ==> claim_text(r->Ok_0@, "exp"@) is Some && claim_text(r->Ok_0@, "nbf"@) is Some
            && claim_text(r->Ok_0@, "iat"@) is Some,
        r is Err && pasetors_v4_public_payload(token@, public_key@) is Some ==> is_pasetors_claims_error(
            r->Err_0@,
        ),
{
    let untrusted = match UntrustedToken::<Public, V4>::try_from(token) {
        Ok(u) => u,
        Err(e) => return Err(e.to_string()),
    };
    let key = match AsymmetricPublicKey::<V4>::from(public_key) {
        Ok(k) => k,
        Err(e) => return Err(e.to_string()),
    };
    match public::verify(&key, &untrusted, &ClaimsValidationRules::new(), None, None) {
        Ok(trusted) => Ok(trusted.payload().to_string()),
        Err(e) => Err(e.to_string()),
    }
}

/// The full token and the public key that verifying `token` checks the signature with: the
/// footer's `kid` selects the key.
pub open spec fn public_request(keys: Map<Seq<char>, Seq<u8>>, token: Seq<char>) -> Result<(Seq<char>, Seq<u8>), TokenErrorView> {
    let full = full_form(token);
    match pasetors_footer_bytes(full) {
        Err(m) => Err(TokenErrorView::Verify(m)),
        Ok(footer) => match json_bytes_field(footer, "kid"@) {
            Err(m) => Err(TokenErrorView::Verify("malformed footer: "@ + m)),
            Ok(None) => Err(TokenErrorView::Verify("footer missing kid"@)),
            Ok(Some(kid)) => if keys.dom().contains(kid) {
                Ok((full, keys[kid]))
            } else {
                Err(TokenErrorView::Verify("unknown key id: "@ + kid))
            },
        },
    }
}

/// The payload that the signature check vouches for, for the request that verifying `token`
/// makes; `None` where no request can be made or the signature does not verify.
pub open spec fn public_checked_payload(keys: Map<Seq<char>, Seq<u8>>, token: Seq<char>) -> Option<Seq<char>> {
    match public_request(keys, token) {
        Ok(q) => pasetors_v4_public_payload(q.0, q.1),
        Err(_) => None,
    }
}

/// The subject id that a `cid.ciphertext` subject claim holds under a cipher ring.
pub open spec fn subject_id(ring: CipherRingView, sub: Seq<char>) -> Result<Seq<u8>, TokenErrorView> {
    match split_once_char(sub, '.') {
        None => Err(TokenErrorView::Verify("malformed subject"@)),
        Some((cid, ciphertext)) => if ring.ciphers.dom().contains(cid) {
            decrypted_subject(ring.ciphers[cid], ciphertext)
        } else {
            Err(TokenErrorView::Verify("unknown cipher id: "@ + cid))
        },
    }
}

/// The claims that a verified payload carries under a cipher ring: the subject is decrypted by
/// the cipher its id names, the type is `access` or `refresh`, and a missing `email` reads as
/// empty.
pub open spec fn public_claims(ring: CipherRingView, payload: Seq<char>) -> Result<ModelClaimsView, TokenErrorView> {
    match claim_text(payload, "sub"@) {
        None => Err(missing_claim("sub"@)),
        Some(sub) => match claim_text(payload, "typ"@) {
            None => Err(missing_claim("typ"@)),
            Some(typ) => match subject_id(ring, sub) {
                Err(e) => Err(e),
                Ok(id) => match token_type_of_text(typ) {
                    None => Err(TokenErrorView::Verify("unknown typ claim: "@ + typ)),
                    Some(t) => Ok(
                        ModelClaimsView {
                            sub: id,
                            email: crate::claims::email_claim(payload),
                            token_type: t,
                        },
                    ),
                },
            },
        },
    }
}

/// The mathematical content of an [`ImplTokenVerifierPasetoPublic`].
pub struct PublicVerifierView {
    pub public_keys: Map<Seq<char>, Seq<u8>>,
    pub ring: CipherRingView,
}

/// Verifies tokens with the issuer's Ed25519 public keys, by key id; it can never sign.
pub struct ImplTokenVerifierPasetoPublic {
    public_keys: KeyTable<[u8; 32]>,
    id_cipher_ring: Arc<TokenIdCipherRing>,
}

impl View for ImplTokenVerifierPasetoPublic {
    type V = PublicVerifierView;

    closed spec fn view(&self) -> PublicVerifierView {
        PublicVerifierView { public_keys: self.public_keys@, ring: self.id_cipher_ring@ }
    }
}

impl ImplTokenVerifierPasetoPublic {
    /// A verifier with the given public keys by key id (a later key for the same id replaces an
    /// earlier one) and the cipher ring that decrypts subjects.
    pub fn new(public_keys: Vec<(String, [u8; 32])>, id_cipher_ring: Arc<TokenIdCipherRing>) -> (r: Self)
        ensures
            r@ == (PublicVerifierView {
                public_keys: map_of_entries(entry_views(public_keys@)),
                ring: id_cipher_ring@,
            }),
            forall|i: int|
                0 <= i < public_keys@.len() && (forall|j: int|
                    i < j < public_keys@.len() ==> public_keys@[j].0@ != public_keys@[i].0@)
                    ==> r@.public_keys.dom().contains(#[trigger] public_keys@[i].0@)
                    && r@.public_keys[public_keys@[i].0@] == public_keys@[i].1@,
    {
        proof {
            assert forall|i: int|
                0 <= i < public_keys@.len() && (forall|j: int|
                    i < j < public_keys@.len() ==> public_keys@[j].0@ != public_keys@[i].0@)
                    implies map_of_entries(entry_views(public_keys@)).dom().contains(
                    #[trigger] public_keys@[i].0@,
                ) && map_of_entries(entry_views(public_keys@))[public_keys@[i].0@]
                    == public_keys@[i].1@ by {
                crate::keyed::lemma_entry_views_last(public_keys@, i);
            }
        }
        ImplTokenVerifierPasetoPublic { public_keys: KeyTable::from_pairs(public_keys), id_cipher_ring }
    }

    /// The full token and the public key that verifying `token` checks the signature with, or
    /// the failure that comes before any signature check.
    pub fn verification_request(&self, token: &str) -> (r: Result<(String, [u8; 32]), TokenError>)
        ensures
            r is Ok ==> public_request(self@.public_keys, token@) == Ok::<(Seq<char>, Seq<u8>), TokenErrorView>(
                (r->Ok_0.0@, r->Ok_0.1@),
            ),
            r is Err ==> public_request(self@.public_keys, token@) == Err::<(Seq<char>, Seq<u8>), TokenErrorView>(
                r->Err_0@,
            ),
    {
        let token = with_v4_public_prefix(token);
        let footer = match untrusted_footer_bytes(token.as_str()) {
            Ok(f) => f,
            Err(m) => {
                return Err(TokenError::Verify(m));
            },
        };
        let kid = match read_json_bytes_field(footer.as_slice(), "kid") {
            Ok(Some(k)) => k,
            Ok(None) => {
                return Err(TokenError::Verify(String::from_str("footer missing kid")));
            },
            Err(m) => {
                return Err(verify_error("malformed footer: ", m.as_str()));
            },
        };
        let key = match self.public_keys.get(kid.as_str()) {
            Some(k) => *k,
            None => {
                return Err(verify_error("unknown key id: ", kid.as_str()));
            },
        };
        Ok((token, key))
    }

    /// The subject id that a `cid.ciphertext` subject claim holds.
    pub fn subject_id(&self, sub: &str) -> (r: Result<[u8; 16], TokenError>)
        ensures
            outcome(r) == subject_id(self@.ring, sub@),
    {
        let (cid, ciphertext) = match split_once(sub, '.') {
            Some(p) => p,
            None => {
                return Err(TokenError::Verify(String::from_str("malformed subject")));
            },
        };
        let cipher = match self.id_cipher_ring.cipher_for(cid.as_str()) {
            Some(c) => c,
            None => {
                return Err(verify_error("unknown cipher id: ", cid.as_str()));
            },
        };
        cipher.decrypt(ciphertext.as_str())
    }

    /// The claims of a payload whose signature has been checked.
    pub fn claims_from_payload(&self, payload: &str) -> (r: Result<ModelClaims, TokenError>)
        ensures
            outcome(r) == public_claims(self@.ring, payload@),
    {
        let sub = required_claim(payload, "sub")?;
        let typ = required_claim(payload, "typ")?;
        let id = self.subject_id(sub.as_str())?;
        let token_type = match TokenType::parse(typ.as_str()) {
            Some(t) => t,
            None => {
                return Err(verify_error("unknown typ claim: ", typ.as_str()));
            },
        };
        Ok(ModelClaims { sub: id, email: crate::claims::read_email(payload), token_type })
    }
}

impl TokenVerifier for ImplTokenVerifierPasetoPublic {
    /// Verifies a token, with or without its `v4.public.` header, with the public key that its
    /// footer's `kid` names, and reads its claims. A token whose signature does not verify under
    /// that key is refused; a token that is accepted gives the claims of the payload its
    /// signature vouches for, and that payload carries `exp`, `nbf` and `iat` claims. A validly
    /// signed token gives those claims, every cipher id of the ring decrypting its subjects, unless
    /// the claims checks refuse it (an error of [`is_pasetors_claims_error`]); whether the clock
    /// lets it pass is left unstated.
    fn verify(&self, token: &str) -> (r: Result<ModelClaims, TokenError>)
        ensures
            public_request(self@.public_keys, token@) is Err ==> outcome(r) == Err::<ModelClaimsView, TokenErrorView>(
                public_request(self@.public_keys, token@)->Err_0,
            ),
            public_checked_payload(self@.public_keys, token@) is None ==> r is Err,
            r is Ok ==> public_checked_payload(self@.public_keys, token@) is Some && outcome(r)
                == public_claims(self@.ring, public_checked_payload(self@.public_keys, token@)->Some_0),
            r is Ok ==> claim_text(public_checked_payload(self@.public_keys, token@)->Some_0, "exp"@) is Some
                && claim_text(public_checked_payload(self@.public_keys, token@)->Some_0, "nbf"@) is Some
                && claim_text(public_checked_payload(self@.public_keys, token@)->Some_0, "iat"@) is Some,
            r is Err ==> r->Err_0@ is Verify,
            public_checked_payload(self@.public_keys, token@) is Some ==> outcome(r) == public_claims(
                self@.ring,
                public_checked_payload(self@.public_keys, token@)->Some_0,
            ) || (r is Err && is_pasetors_claims_error(r->Err_0@->Verify_0)),
    {
        let (full, key) = self.verification_request(token)?;
        let payload = match verified_payload(full.as_str(), &key) {
            Ok(p) => p,
            Err(m) => {
                return Err(TokenError::Verify(m));
            },
        };
        let r = self.claims_from_payload(payload.as_str());
        r
    }
}

/// A subject claim written as `cid.ciphertext`, with no `.` in the cipher id, is decrypted by the
/// cipher of that id.
pub proof fn lemma_subject_claim_format(ring: CipherRingView, cid: Seq<char>, ciphertext: Seq<char>)
    requires
        !cid.contains('.'),
        ring.ciphers.dom().contains(cid),
    ensures
        subject_id(ring, cid + seq!['.'] + ciphertext) == decrypted_subject(ring.ciphers[cid], ciphertext),
{
    let s = cid + seq!['.'] + ciphertext;
    let i = cid.len() as int;
    assert forall|j: int| 0 <= j < i implies s[j] != '.' by {
        assert(s[j] == cid[j]);
    }
    crate::text::lemma_first_index_unique(s, '.', i);
    assert(s.take(i) =~= cid);
    assert(s.skip(i + 1) =~= ciphertext);
}

/// A token handed to a client without its `v4.public.` header makes the same request as the full
/// token, unless the token carries the header twice.
pub proof fn lemma_client_token_public_request(keys: Map<Seq<char>, Seq<u8>>, token: Seq<char>)
    requires
        !has_prefix(client_form(token), V4_PUBLIC_PREFIX@) || !has_prefix(token, V4_PUBLIC_PREFIX@),
    ensures
        public_request(keys, client_form(token)) == public_request(keys, token),
        public_checked_payload(keys, client_form(token)) == public_checked_payload(keys, token),
{
    lemma_client_form_restores(token);
}

} // verus!
