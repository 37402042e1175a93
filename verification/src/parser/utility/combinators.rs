use crate::helpers::ByteOffset;
use crate::kind::TokenKind;
use crate::lexer::{Lexeme, Token};
use crate::parser::utility::error::{Fault, SyntaxError};
use crate::unicode::str_eq;
use vstd::prelude::*;
use vstd::string::StringExecFns;

verus! {

/// A yes-or-no question about a token.
pub trait TokenTest {
    spec fn holds(&self, token: Lexeme) -> bool;

    fn test(&self, token: &Token) -> (b: bool)
        ensures
            b == self.holds(token@),
    ;
}

/// What a parser waits for: which token it accepts, and what it says of
/// another one that it finds instead.
pub trait ExpectPredicate {
    spec fn accepts(&self, token: Lexeme) -> bool;

    /// The message of the error about a token that is not accepted.
    spec fn complaint(&self, failed: Lexeme) -> Seq<char>;

    fn matches(&self, token: &Token) -> (b: bool)
        ensures
            b == self.accepts(token@),
    ;

    fn error(&self, failed: &Token, offset: ByteOffset) -> (error: SyntaxError)
        ensures
            error@ == (Fault {
                message: self.complaint(failed@),
                start: offset.0 as nat,
                end: offset.0 as nat,
            }),
    ;
}

/// Accepts the tokens of one kind.
pub struct TokenPredicate(pub TokenKind);

impl TokenTest for TokenPredicate {
    open spec fn holds(&self, token: Lexeme) -> bool {
        token.kind == self.0
    }

    fn test(&self, token: &Token) -> (b: bool) {
        token.kind == self.0
    }
}

impl ExpectPredicate for TokenPredicate {
    open spec fn accepts(&self, token: Lexeme) -> bool {
        token.kind == self.0
    }

    open spec fn complaint(&self, failed: Lexeme) -> Seq<char> {
        "Expected "@ + self.0.name_text() + ", found "@ + failed.kind.name_text()
    }

    fn matches(&self, token: &Token) -> (b: bool) {
        token.kind == self.0
    }

    fn error(&self, failed: &Token, offset: ByteOffset) -> (error: SyntaxError) {
        let mut message = String::from_str("Expected ");
        message.append(self.0.name());
        message.append(", found ");
        message.append(failed.kind.name());
        SyntaxError::new_at_offset(message, offset)
    }
}

/// Accepts the identifier with one given text.
pub struct IdentPredicate(pub &'static str);

impl TokenTest for IdentPredicate {
    open spec fn holds(&self, token: Lexeme) -> bool {
        token.kind == TokenKind::Ident && token.text == self.0@
    }

    fn test(&self, token: &Token) -> (b: bool) {
        token.kind == TokenKind::Ident && str_eq(token.slice.as_str(), self.0)
    }
}

impl ExpectPredicate for IdentPredicate {
    open spec fn accepts(&self, token: Lexeme) -> bool {
        token.kind == TokenKind::Ident && token.text == self.0@
    }

    open spec fn complaint(&self, failed: Lexeme) -> Seq<char> {
        "Expected identifier \""@ + self.0@ + "\", found "@ + failed.kind.name_text()
    }

    fn matches(&self, token: &Token) -> (b: bool) {
        token.kind == TokenKind::Ident && str_eq(token.slice.as_str(), self.0)
    }

    fn error(&self, failed: &Token, offset: ByteOffset) -> (error: SyntaxError) {
        let mut message = String::from_str("Expected identifier \"");
        message.append(self.0);
        message.append("\", found ");
        message.append(failed.kind.name());
        SyntaxError::new_at_offset(message, offset)
    }
}

/// Accepts the tokens of which a test holds, and says a fixed message of
/// the others.
pub struct FnPredicate<F: TokenTest>(pub F, pub &'static str);

impl<F: TokenTest> ExpectPredicate for FnPredicate<F> {
    open spec fn accepts(&self, token: Lexeme) -> bool {
        self.0.holds(token)
    }

    open spec fn complaint(&self, failed: Lexeme) -> Seq<char> {
        self.1@
    }

    fn matches(&self, token: &Token) -> (b: bool) {
        self.0.test(token)
    }

    fn error(&self, failed: &Token, offset: ByteOffset) -> (error: SyntaxError) {
        SyntaxError::new_at_offset(String::from_str(self.1), offset)
    }
}

/// Whether a kind occurs in a list of kinds.
pub fn kind_in(kinds: &[TokenKind], kind: TokenKind) -> (found: bool)
    ensures
        found == kinds@.contains(kind),
{
    let mut i: usize = 0;
    while i < kinds.len()
        invariant
            i <= kinds.len(),
            forall|j: int| 0 <= j < i ==> kinds@[j] != kind,
        decreases kinds.len() - i,
    {
        if kinds[i] == kind {
            return true;
        }
        i = i + 1;
    }
    false
}

/// Holds of the tokens of which one of two tests holds.
pub struct Either<A: TokenTest, B: TokenTest>(pub A, pub B);

impl<A: TokenTest, B: TokenTest> TokenTest for Either<A, B> {
    open spec fn holds(&self, token: Lexeme) -> bool {
        self.0.holds(token) || self.1.holds(token)
    }

    fn test(&self, token: &Token) -> (b: bool) {
        self.0.test(token) || self.1.test(token)
    }
}

/// Holds of every token.
pub struct Always;

impl TokenTest for Always {
    open spec fn holds(&self, token: Lexeme) -> bool {
        true
    }

    fn test(&self, token: &Token) -> (b: bool) {
        true
    }
}

/// Holds of trivia and of what the inner test holds of.
pub struct WithTrivia<P: TokenTest>(pub P);

impl<P: TokenTest> TokenTest for WithTrivia<P> {
    open spec fn holds(&self, token: Lexeme) -> bool {
        token.kind.is_trivia() || self.0.holds(token)
    }

    fn test(&self, token: &Token) -> (b: bool) {
        match token.kind {
            TokenKind::Space | TokenKind::Comment => true,
            _ => self.0.test(token),
        }
    }
}

/// Holds of trivia, of line breaks and of what the inner test holds of.
pub struct WithTriviaNl<P: TokenTest>(pub P);

impl<P: TokenTest> TokenTest for WithTriviaNl<P> {
    open spec fn holds(&self, token: Lexeme) -> bool {
        token.kind.is_trivia_nl() || self.0.holds(token)
    }

    fn test(&self, token: &Token) -> (b: bool) {
        match token.kind {
            TokenKind::Space | TokenKind::Comment | TokenKind::NewLine => true,
            _ => self.0.test(token),
        }
    }
}

pub fn kind(expected: TokenKind) -> (predicate: TokenPredicate)
    ensures
        predicate.0 == expected,
{
    TokenPredicate(expected)
}

pub fn ident(text: &'static str) -> (predicate: IdentPredicate)
    ensures
        predicate.0@ == text@,
{
    IdentPredicate(text)
}

/// The kinds of the tokens that mean nothing within a line.
pub open spec fn trivia_seq() -> Seq<TokenKind> {
    seq![TokenKind::Space, TokenKind::Comment]
}

/// The kinds of the tokens that mean nothing, line breaks among them.
pub open spec fn trivia_nl_seq() -> Seq<TokenKind> {
    seq![TokenKind::Space, TokenKind::Comment, TokenKind::NewLine]
}

pub fn trivia_kinds() -> (kinds: Vec<TokenKind>)
    ensures
        kinds@ == trivia_seq(),
{
    let kinds = vec![TokenKind::Space, TokenKind::Comment];
    assert(kinds@ =~= trivia_seq());
    kinds
}

pub fn trivia_nl_kinds() -> (kinds: Vec<TokenKind>)
    ensures
        kinds@ == trivia_nl_seq(),
{
    let kinds = vec![TokenKind::Space, TokenKind::Comment, TokenKind::NewLine];
    assert(kinds@ =~= trivia_nl_seq());
    kinds
}

pub fn with_trivia<P: TokenTest>(inner: P) -> (test: WithTrivia<P>)
    ensures
        test.0 == inner,
{
    WithTrivia(inner)
}

pub fn with_trivia_nl<P: TokenTest>(inner: P) -> (test: WithTriviaNl<P>)
    ensures
        test.0 == inner,
{
    WithTriviaNl(inner)
}

} // verus!
