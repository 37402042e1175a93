use crate::ast::helpers::AstToken;
use crate::green::{tree_kind, tree_text};
use crate::kind::TokenKind;
use crate::syntax::{syntax_token_text, token_place, Place};
use rowan::cursor::SyntaxToken;
use vstd::prelude::*;

verus! {

/// A view of an identifier token.
pub struct Ident(SyntaxToken);

impl Ident {
    #[verifier::type_invariant]
    spec fn inv(self) -> bool {
        &&& token_place(self.0).sound()
        &&& token_place(self.0).tree is Token
        &&& tree_kind(token_place(self.0).tree) == TokenKind::Ident.raw()
    }

    /// The text of the identifier.
    pub fn text(&self) -> (text: &str)
        ensures
            text@ == tree_text(self.place().tree),
    {
        proof {
            use_type_invariant(self);
        }
        syntax_token_text(&self.0)
    }

    /// The token that the view is of.
    pub fn syntax(&self) -> (token: &SyntaxToken)
        ensures
            token_place(*token) == self.place(),
            token_place(*token).sound(),
            token_place(*token).tree is Token,
            tree_kind(token_place(*token).tree) == TokenKind::Ident.raw(),
    {
        proof {
            use_type_invariant(self);
        }
        &self.0
    }
}

impl AstToken for Ident {
    open spec fn token_kind() -> TokenKind {
        TokenKind::Ident
    }

    closed spec fn place(&self) -> Place {
        token_place(self.0)
    }

    fn kind() -> (kind: TokenKind) {
        TokenKind::Ident
    }

    fn new(token: SyntaxToken) -> (view: Self) {
        Ident(token)
    }
}

} // verus!
