//! Verification of PASETO v4.public tokens signed by a key of a [`PasetoKeyRing`].
use vstd::prelude::*;

use std::sync::Arc;

use rusty_paseto::prelude::{Footer, Key, PasetoAsymmetricPublicKey, PasetoParser, Public, UntrustedToken, V4};

use crate::claims::{
    claim_text, email_claim, missing_claim, parse_uuid_text, read_email, read_json_text_field, required_claim,
    json_text_field, uuid_text_bytes,
};
use crate::error::{outcome, verify_error, TokenError, TokenErrorView};
use crate::key_ring::{KeyRingView, PasetoKeyRing};
use crate::model::{token_type_of_text, ModelClaims, ModelClaimsView, TokenType};
use crate::text::has_prefix;
use crate::{client_form, full_form, lemma_client_form_restores, with_v4_public_prefix, V4_PUBLIC_PREFIX};

verus! {

/// Verifies a token and reads its claims.
pub trait TokenVerifier: Send + Sync {
    fn verify(&self, token: &str) -> Result<ModelClaims, TokenError>;
}

/// The footer text of a PASETO token, as `rusty_paseto`'s `UntrustedToken` reads it before any
/// signature check: `None` where the token has no footer, the error text where the token cannot
/// be split or the footer is not base64 of UTF-8 text.
pub uninterp spec fn paseto_footer_text(token: Seq<char>) -> Result<Option<Seq<char>>, Seq<char>>;

/// Calls `UntrustedToken::try_parse` and `UntrustedToken::footer_str`; errors become their
/// display text. The contract claims the named result.
#[verifier::external_body]
fn untrusted_footer(token: &str) -> (r: Result<Option<String>, String>)
    ensures
        r is Ok ==> paseto_footer_text(token@) is Ok && paseto_footer_text(token@)->Ok_0 == crate::claims::text_of(
            r->Ok_0,
        ),
        r is Err ==> paseto_footer_text(token@) is Err && paseto_footer_text(token@)->Err_0
            == r->Err_0@,
{
    match UntrustedToken::try_parse(token) {
        Ok(untrusted) => match untrusted.footer_str() {
            Ok(footer) => Ok(footer),
            Err(e) => Err(e.to_string()),
        },
        Err(e) => Err(e.to_string()),
    }
}

/// The claims, as `serde_json` writes them back, of a version 4 public token whose Ed25519
/// signature over its payload and `footer` verifies under `public_key`, as `rusty_paseto` checks
/// it; `None` where the signature does not verify or the payload is not JSON.
pub uninterp spec fn paseto_v4_public_claims(token: Seq<char>, footer: Seq<char>, public_key: Seq<u8>) -> Option<Seq<char>>;

/// Calls `PasetoParser::<V4, Public>::default()`, `set_footer` and `parse` with the public key
/// built by `Key::<32>::from` and `PasetoAsymmetricPublicKey::from`, then writes the claims back
/// as JSON text; errors become their display text. The contract claims that success gives the
/// claims that the valid signature vouches for, and that these hold a non-empty string `exp`
/// claim: the default parser refuses any other. Where the signature is valid, a failure can only
/// come from the parser's claim checks, whose errors display as [`is_paseto_claims_error`] says.
/// Which of them the clock gives is left unstated.
/// The display text of a `rusty_paseto` error that reading or validating the claims of a validly
/// signed token gives under the default parser: an expired token, a token used before its `nbf`,
/// a malformed date, a missing or unconvertible claim, or a payload that does not serialize.
pub open spec fn is_paseto_claims_error(m: Seq<char>) -> bool {
    ||| m == "This token is expired"@
    ||| m == "The payload was unable to be serialized into json"@
    ||| has_prefix(m, "The token cannot be used before "@)
    ||| has_prefix(m, "The value "@)
    ||| has_prefix(m, "The expected claim '"@)
    ||| has_prefix(m, "Could not convert claim '"@)
}

#[verifier::external_body]
fn check_signature_and_read_claims(token: &str, footer: &str, public_key: &[u8; 32]) -> (r: Result<String, String>)
    ensures
        r is Ok ==> paseto_v4_public_claims(token@, footer@, public_key@) == Some(r->Ok_0@),
        r is Ok ==> claim_text(r->Ok_0@, "exp"@) is Some && claim_text(r->Ok_0@, "exp"@)->Some_0.len() > 0,
        r is Err && paseto_v4_public_claims(token@, footer@, public_key@) is Some ==> is_paseto_claims_error(
            r->Err_0@,
        ),
{
    let key = Key::<32>::from(public_key);
    let public_key = PasetoAsymmetricPublicKey::<V4, Public>::from(&key);
    let mut parser = PasetoParser::<V4, Public>::default();
    let parsed = parser.set_footer(Footer::from(footer)).parse(token, &public_key);
    match parsed {
        Ok(claims) => Ok(claims.to_string()),
        Err(e) => Err(e.to_string()),
    }
}

/// What signature verification is handed: the full token, its footer and the public key.
pub struct VerificationRequest {
    pub token: String,
    pub footer: String,
    pub public_key: [u8; 32],
}

/// The mathematical content of a [`VerificationRequest`].
pub struct VerificationRequestView {
    pub token: Seq<char>,
    pub footer: Seq<char>,
    pub public_key: Seq<u8>,
}

impl View for VerificationRequest {
    type V = VerificationRequestView;

    open spec fn view(&self) -> VerificationRequestView {
        VerificationRequestView {
            token: self.token@,
            footer: self.footer@,
            public_key: self.public_key@,
        }
    }
}

/// The request that verifying `token` against `ring` makes: the footer's `kid` selects the key
/// pair, whatever key is active, and the public key is the pair's second half.
pub open spec fn paseto_request(ring: KeyRingView, token: Seq<char>) -> Result<VerificationRequestView, TokenErrorView> {
    let full = full_form(token);
    match paseto_footer_text(full) {
        Err(m) => Err(TokenErrorView::Verify(m)),
        Ok(None) => Err(TokenErrorView::Verify("token missing key id footer"@)),
        Ok(Some(footer)) => match json_text_field(footer, "kid"@) {
            Err(m) => Err(TokenErrorView::Verify("malformed footer: "@ + m)),
            Ok(None) => Err(TokenErrorView::Verify("footer missing kid"@)),
            Ok(Some(kid)) => if ring.keys.dom().contains(kid) {
                Ok(VerificationRequestView { token: full, footer, public_key: ring.keys[kid].skip(32) })
            } else {
                Err(TokenErrorView::Verify("unknown key id: "@ + kid))
            },
        },
    }
}

/// The claims that a verified payload carries: the subject is a UUID in text, the type is
/// `access` or `refresh`, and a missing `email` reads as empty.
pub open spec fn paseto_claims(payload: Seq<char>) -> Result<ModelClaimsView, TokenErrorView> {
    match claim_text(payload, "sub"@) {
        None => Err(missing_claim("sub"@)),
        Some(sub) => match claim_text(payload, "typ"@) {
            None => Err(missing_claim("typ"@)),
            Some(typ) => match uuid_text_bytes(sub) {
                Err(m) => Err(TokenErrorView::Verify(m)),
                Ok(id) => match token_type_of_text(typ) {
                    None => Err(TokenErrorView::Verify("unknown typ claim: "@ + typ)),
                    Some(t) => Ok(ModelClaimsView { sub: id, email: email_claim(payload), token_type: t }),
                },
            },
        },
    }
}

/// The claims that the signature check vouches for, for the request that verifying `token`
/// makes; `None` where no request can be made or the signature does not verify.
pub open spec fn paseto_checked_claims(ring: KeyRingView, token: Seq<char>) -> Option<Seq<char>> {
    match paseto_request(ring, token) {
        Ok(q) => paseto_v4_public_claims(q.token, q.footer, q.public_key),
        Err(_) => None,
    }
}

/// Verifies tokens against the key pairs of a [`PasetoKeyRing`].
pub struct ImplTokenVerifierPaseto {
    key_ring: Arc<PasetoKeyRing>,
}

impl View for ImplTokenVerifierPaseto {
    type V = KeyRingView;

    closed spec fn view(&self) -> KeyRingView {
        self.key_ring@
    }
}

impl ImplTokenVerifierPaseto {
    /// A verifier that checks tokens against the keys of `key_ring`.
    pub fn new(key_ring: Arc<PasetoKeyRing>) -> (r: Self)
        ensures
            r@ == key_ring@,
    {
        ImplTokenVerifierPaseto { key_ring }
    }

    /// The full token, its footer and the public key that verifying `token` checks the
    /// signature with, or the failure that comes before any signature check.
    pub fn verification_request(&self, token: &str) -> (r: Result<VerificationRequest, TokenError>)
        ensures
            outcome(r) == paseto_request(self@, token@),
    {
        let token = with_v4_public_prefix(token);
        let footer = match untrusted_footer(token.as_str()) {
            Ok(Some(f)) => f,
            Ok(None) => {
                return Err(TokenError::Verify(String::from_str("token missing key id footer")));
            },
            Err(m) => {
                return Err(TokenError::Verify(m));
            },
        };
        let kid = match read_json_text_field(footer.as_str(), "kid") {
            Ok(Some(k)) => k,
            Ok(None) => {
                return Err(TokenError::Verify(String::from_str("footer missing kid")));
            },
            Err(m) => {
                return Err(verify_error("malformed footer: ", m.as_str()));
            },
        };
        let pair = match self.key_ring.key_for(kid.as_str()) {
            Some(p) => p,
            None => {
                return Err(verify_error("unknown key id: ", kid.as_str()));
            },
        };
        let public_key = crate::bytes::array_32_at(pair.as_slice(), 32);
        assert(public_key@ =~= pair@.skip(32));
        Ok(VerificationRequest { token, footer, public_key })
    }

    /// The claims of a payload whose signature has been checked.
    pub fn claims_from_payload(payload: &str) -> (r: Result<ModelClaims, TokenError>)
        ensures
            outcome(r) == paseto_claims(payload@),
    {
        let sub = required_claim(payload, "sub")?;
        let typ = required_claim(payload, "typ")?;
        let id = match parse_uuid_text(sub.as_str()) {
            Ok(id) => id,
            Err(m) => {
                return Err(TokenError::Verify(m));
            },
        };
        let token_type = match TokenType::parse(typ.as_str()) {
            Some(t) => t,
            None => {
                return Err(verify_error("unknown typ claim: ", typ.as_str()));
            },
        };
        Ok(ModelClaims { sub: id, email: read_email(payload), token_type })
    }
}

impl TokenVerifier for ImplTokenVerifierPaseto {
    /// Verifies a token, with or without its `v4.public.` header, against the key pair that its
    /// footer's `kid` names, and reads its claims. A token whose signature does not verify under
    /// that key is refused; a token that is accepted gives the claims its signature vouches for,
    /// and those carry an `exp` claim. A validly signed token, with or without its header, gives
    /// those claims unless the parser's claim checks refuse it (an error of
    /// [`is_paseto_claims_error`]); whether the clock lets it pass is left unstated.
    fn verify(&self, token: &str) -> (r: Result<ModelClaims, TokenError>)
        ensures
            paseto_request(self@, token@) is Err ==> outcome(r) == Err::<ModelClaimsView, TokenErrorView>(
                paseto_request(self@, token@)->Err_0,
            ),
            paseto_checked_claims(self@, token@) is None ==> r is Err,
            r is Ok ==> paseto_checked_claims(self@, token@) is Some && outcome(r) == paseto_claims(
                paseto_checked_claims(self@, token@)->Some_0,
            ),
            r is Ok ==> claim_text(paseto_checked_claims(self@, token@)->Some_0, "exp"@) is Some,
            r is Err ==> r->Err_0@ is Verify,
            paseto_checked_claims(self@, token@) is Some ==> outcome(r) == paseto_claims(
                paseto_checked_claims(self@, token@)->Some_0,
            ) || (r is Err && is_paseto_claims_error(r->Err_0@->Verify_0)),
    {
        let request = self.verification_request(token)?;
        let payload = match check_signature_and_read_claims(
            request.token.as_str(),
            request.footer.as_str(),
            &request.public_key,
        ) {
            Ok(p) => p,
            Err(m) => {
                return Err(TokenError::Verify(m));
            },
        };
        let r = Self::claims_from_payload(payload.as_str());
        r
    }
}

/// Which key checks a token, and so which claims a valid signature vouches for, depends on the
/// token's footer and the ring's keys alone: rotating the active key leaves tokens signed by a
/// retired key verifiable.
pub proof fn lemma_request_ignores_active_kid(a: KeyRingView, b: KeyRingView, token: Seq<char>)
    requires
        a.keys == b.keys,
    ensures
        paseto_request(a, token) == paseto_request(b, token),
        paseto_checked_claims(a, token) == paseto_checked_claims(b, token),
{
}

/// A token handed to a client without its `v4.public.` header makes the same request as the full
/// token, unless the token carries the header twice.
pub proof fn lemma_client_token_request(ring: KeyRingView, token: Seq<char>)
    requires
        !has_prefix(client_form(token), V4_PUBLIC_PREFIX@) || !has_prefix(token, V4_PUBLIC_PREFIX@),
    ensures
        paseto_request(ring, client_form(token)) == paseto_request(ring, token),
        paseto_checked_claims(ring, client_form(token)) == paseto_checked_claims(ring, token),
{
    lemma_client_form_restores(token);
}

/// Only the public half of a stored key pair takes part in verification: rings whose key pairs
/// agree, id by id, on their public halves make the same requests and vouch for the same claims.
pub proof fn lemma_request_uses_public_halves(a: KeyRingView, b: KeyRingView, token: Seq<char>)
    requires
        a.keys.dom() == b.keys.dom(),
        forall|kid: Seq<char>| #[trigger] a.keys.dom().contains(kid) ==> a.keys[kid].skip(32) == b.keys[kid].skip(32),
    ensures
        paseto_request(a, token) == paseto_request(b, token),
        paseto_checked_claims(a, token) == paseto_checked_claims(b, token),
{
}

} // verus!
