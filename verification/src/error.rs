//! The library's error type.
use vstd::prelude::*;

verus! {

/// Why a token could not be issued or verified; the text says what went wrong.
#[derive(Debug)]
pub enum TokenError {
    Issue(String),
    Verify(String),
}

/// The mathematical content of a [`TokenError`]: its kind and its message.
pub enum TokenErrorView {
    Issue(Seq<char>),
    Verify(Seq<char>),
}

impl View for TokenError {
    type V = TokenErrorView;

    open spec fn view(&self) -> TokenErrorView {
        match self {
            TokenError::Issue(m) => TokenErrorView::Issue(m@),
            TokenError::Verify(m) => TokenErrorView::Verify(m@),
        }
    }
}

/// The view of a library result: the success value by its view, the error by its view.
pub open spec fn outcome<T: View>(r: Result<T, TokenError>) -> Result<T::V, TokenErrorView> {
    match r {
        Ok(v) => Ok(v@),
        Err(e) => Err(e@),
    }
}

/// A verification failure whose message is the concatenation of two texts.
pub fn verify_error(prefix: &str, detail: &str) -> (e: TokenError)
    ensures
        e@ == TokenErrorView::Verify(prefix@ + detail@),
{
    let mut m = String::from_str(prefix);
    m.append(detail);
    TokenError::Verify(m)
}

} // verus!
