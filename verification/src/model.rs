//! The claims that a verified token carries.
use vstd::prelude::*;

use crate::text::str_equal;

verus! {

/// The purpose a token was issued for.
#[derive(Debug, Clone, Copy, PartialEq, Eq, Structural)]
pub enum TokenType {
    Access,
    Refresh,
}

/// The `typ` claim text of each token type.
pub open spec fn token_type_text(t: TokenType) -> Seq<char> {
    match t {
        TokenType::Access => "access"@,
        TokenType::Refresh => "refresh"@,
    }
}

/// The token type that a `typ` claim text names, if any.
pub open spec fn token_type_of_text(s: Seq<char>) -> Option<TokenType> {
    if s == "access"@ {
        Some(TokenType::Access)
    } else if s == "refresh"@ {
        Some(TokenType::Refresh)
    } else {
        None
    }
}

impl TokenType {
    /// The claim text of this token type.
    pub fn as_str(&self) -> (r: &'static str)
        ensures
            r@ == token_type_text(*self),
    {
        match self {
            TokenType::Access => "access",
            TokenType::Refresh => "refresh",
        }
    }

    /// Reads a `typ` claim text: exactly `access` or `refresh`.
    pub fn parse(value: &str) -> (r: Option<TokenType>)
        ensures
            r == token_type_of_text(value@),
    {
        if str_equal(value, "access") {
            Some(TokenType::Access)
        } else if str_equal(value, "refresh") {
            Some(TokenType::Refresh)
        } else {
            None
        }
    }
}

/// Reading a token type's own text gives that type back.
pub proof fn lemma_token_type_text_round_trip(t: TokenType)
    ensures
        token_type_of_text(token_type_text(t)) == Some(t),
{
    reveal_strlit("access");
    reveal_strlit("refresh");
    assert("access"@[0] != "refresh"@[0]);
}

/// Distinct token types have distinct texts.
pub proof fn lemma_token_type_text_injective(a: TokenType, b: TokenType)
    requires
        token_type_text(a) == token_type_text(b),
    ensures
        a == b,
{
    lemma_token_type_text_round_trip(a);
    lemma_token_type_text_round_trip(b);
}

/// A user id: the sixteen bytes of a UUID.
pub type SubjectId = [u8; 16];

/// What a verified token says about its holder.
pub struct ModelClaims {
    pub sub: SubjectId,
    pub email: String,
    pub token_type: TokenType,
}

/// The mathematical content of [`ModelClaims`].
pub struct ModelClaimsView {
    pub sub: Seq<u8>,
    pub email: Seq<char>,
    pub token_type: TokenType,
}

impl View for ModelClaims {
    type V = ModelClaimsView;

    open spec fn view(&self) -> ModelClaimsView {
        ModelClaimsView { sub: self.sub@, email: self.email@, token_type: self.token_type }
    }
}

} // verus!
