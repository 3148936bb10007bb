//! Verification of PASETO v4.public tokens whose subject is an encrypted user id.
use vstd::prelude::*;

pub mod bytes;
pub mod claims;
pub mod error;
pub mod id_cipher;
pub mod id_cipher_ring;
pub mod keyed;
pub mod key_ring;
pub mod model;
pub mod text;
pub mod paseto_verifier;
pub mod public_verifier;

pub use error::TokenError;
pub use id_cipher::TokenIdCipher;
pub use id_cipher_ring::TokenIdCipherRing;
pub use key_ring::PasetoKeyRing;
pub use model::{ModelClaims, TokenType};
pub use paseto_verifier::{ImplTokenVerifierPaseto, TokenVerifier};
pub use public_verifier::ImplTokenVerifierPasetoPublic;

use crate::text::{has_prefix, str_starts_with, substring};

verus! {

/// The header of every PASETO version 4 public token.
pub const V4_PUBLIC_PREFIX: &'static str = "v4.public.";

/// The token text that clients see: the token without its `v4.public.` header, if it has one.
pub open spec fn client_form(token: Seq<char>) -> Seq<char> {
    if has_prefix(token, V4_PUBLIC_PREFIX@) {
        token.skip(V4_PUBLIC_PREFIX@.len() as int)
    } else {
        token
    }
}

/// The full token text that verification works on: the `v4.public.` header is added where it is
/// missing.
pub open spec fn full_form(token: Seq<char>) -> Seq<char> {
    if has_prefix(token, V4_PUBLIC_PREFIX@) {
        token
    } else {
        V4_PUBLIC_PREFIX@ + token
    }
}

/// Removes the `v4.public.` header from a token, for handing it to clients.
pub fn for_client(token: &str) -> (r: String)
    ensures
        r@ == client_form(token@),
{
    if str_starts_with(token, V4_PUBLIC_PREFIX) {
        let n = token.unicode_len();
        let m = V4_PUBLIC_PREFIX.unicode_len();
        let r = substring(token, m, n);
        assert(r@ =~= token@.skip(m as int));
        r
    } else {
        String::from_str(token)
    }
}

/// Puts the `v4.public.` header in front of a token that lacks it.
pub fn with_v4_public_prefix(token: &str) -> (r: String)
    ensures
        r@ == full_form(token@),
{
    if str_starts_with(token, V4_PUBLIC_PREFIX) {
        String::from_str(token)
    } else {
        let mut r = String::from_str(V4_PUBLIC_PREFIX);
        r.append(token);
        r
    }
}

/// A token handed to a client verifies as the full token does: restoring the header of the
/// client form gives the full form back, unless the token carries the header twice.
pub proof fn lemma_client_form_restores(token: Seq<char>)
    requires
        !has_prefix(client_form(token), V4_PUBLIC_PREFIX@) || !has_prefix(token, V4_PUBLIC_PREFIX@),
    ensures
        full_form(client_form(token)) == full_form(token),
{
    let p = V4_PUBLIC_PREFIX@;
    if has_prefix(token, p) {
        assert(p + token.skip(p.len() as int) =~= token);
    }
}

/// Stripping the header is idempotent once the remaining text has no header of its own.
pub proof fn lemma_client_form_of_full_form(token: Seq<char>)
    requires
        !has_prefix(token, V4_PUBLIC_PREFIX@),
    ensures
        client_form(full_form(token)) == token,
{
    let p = V4_PUBLIC_PREFIX@;
    assert((p + token).take(p.len() as int) =~= p);
    assert((p + token).skip(p.len() as int) =~= token);
}

} // verus!
