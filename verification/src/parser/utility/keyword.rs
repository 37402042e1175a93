use crate::kind::TokenKind;
use crate::lexer::{Lexeme, Token};
use crate::unicode::str_eq;
use vstd::prelude::*;

verus! {

/// Whether a token is a word that no path segment can be: `use`.
pub open spec fn keyword(token: Lexeme) -> bool {
    token.kind == TokenKind::Ident && token.text == "use"@
}

pub fn is_keyword(token: &Token) -> (b: bool)
    ensures
        b == keyword(token@),
{
    match token.kind {
        TokenKind::Ident => str_eq(token.slice.as_str(), "use"),
        _ => false,
    }
}

} // verus!
