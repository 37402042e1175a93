use crate::kind::{NodeKind, TokenKind};
use crate::lexer::{Lexeme, Token};
use crate::parser::parser::{lemma_skip_trivia_len, Parser, TokenIter};
use crate::parser::state::{lemma_open, ParseState};
use crate::parser::utility::combinators::{trivia_nl_seq, Always, TokenPredicate};
use vstd::prelude::*;

verus! {

impl ParseState {
    /// A type argument: a type, where an identifier comes next.
    pub open spec fn type_argument(self) -> ParseState
        decreases self.tokens.len(), 1nat,
    {
        if self.at(TokenKind::Ident) {
            self.pop().parse_type(self.tokens[0])
        } else {
            self
        }
    }

    /// The type arguments behind the first: as long as a comma comes next,
    /// the comma, trivia and a type argument. A step that took no token
    /// would end the list; none does.
    pub open spec fn type_arguments_rest(self) -> ParseState
        decreases self.tokens.len(), 0nat,
    {
        if self.at(TokenKind::Comma) {
            let begun = self.bump().skip_trivia();
            proof {
                lemma_skip_trivia_len(self.bump());
            }
            let argued = begun.type_argument();
            if argued.tokens.len() < self.tokens.len() {
                argued.type_arguments_rest()
            } else {
                argued
            }
        } else {
            self
        }
    }

    /// A type, whose name `ident` is held: a `Type` node with the name and,
    /// where `<` comes next, a `TypeArguments` node. That node holds the
    /// `<`, trivia, the type arguments with their commas, and the `>` that
    /// is waited for.
    pub open spec fn parse_type(self, ident: Lexeme) -> ParseState
        decreases self.tokens.len(), 2nat,
    {
        let named = self.open(NodeKind::Type).token(ident);
        if named.at(TokenKind::AngleOpen) {
            let begun = named.bump().open_at(
                named.children.len(),
                NodeKind::TypeArguments,
            ).skip_trivia();
            proof {
                lemma_skip_trivia_len(
                    named.bump().open_at(named.children.len(), NodeKind::TypeArguments),
                );
            }
            let first = begun.type_argument().skip_trivia();
            let listed = if first.tokens.len() < self.tokens.len() {
                first.type_arguments_rest()
            } else {
                first
            };
            listed.expect(
                TokenPredicate(TokenKind::AngleClose),
                trivia_nl_seq(),
                Always,
                false,
            ).0.close().close()
        } else {
            named.close()
        }
    }
}

impl<'c, T: TokenIter> Parser<'c, T> {
    pub(crate) fn parse_type(&mut self, ident: Token)
        requires
            old(self).inv(),
            old(self)@.fits_with(ident@),
        ensures
            final(self).inv(),
            final(self)@ == old(self)@.parse_type(ident@),
            final(self)@.absorbs(old(self)@, ident@),
            final(self)@.children.len() == old(self)@.children.len() + 1,
        decreases old(self)@.tokens.len(),
    {
        let ghost entry = self@;
        proof {
            lemma_open(entry, entry.children.len(), NodeKind::Type);
        }
        self.start_node(NodeKind::Type);
        assert(self@.text_with(ident@) == entry.text_with(ident@));
        self.consume(ident);
        let ghost named = self@;
        let checkpoint = self.checkpoint();
        if self.consume_maybe(TokenKind::AngleOpen) {
            self.start_node_at(checkpoint, NodeKind::TypeArguments);
            self.consume_trivia();
            let ghost begun = self@;
            match self.maybe(TokenKind::Ident) {
                Some(ident) => {
                    self.parse_type(ident);
                },
                None => {},
            }
            assert(self@ == begun.type_argument());
            self.consume_trivia();
            let ghost first = self@;
            loop
                invariant
                    self.inv(),
                    self@.type_arguments_rest() == first.type_arguments_rest(),
                    self@.parents == first.parents,
                    self@.text() == first.text(),
                    self@.tokens.len() <= first.tokens.len(),
                    first.tokens.len() < entry.tokens.len(),
                    entry == old(self)@,
                ensures
                    self@ == first.type_arguments_rest(),
                decreases self@.tokens.len(),
            {
                let ghost before = self@;
                if !self.consume_maybe(TokenKind::Comma) {
                    break ;
                }
                self.consume_trivia();
                let ghost started = self@;
                match self.maybe(TokenKind::Ident) {
                    Some(ident) => {
                        self.parse_type(ident);
                    },
                    None => {},
                }
                assert(self@ == started.type_argument());
            }
            self.expect_token(TokenKind::AngleClose);
            self.finish_node();
        }
        self.finish_node();
        proof {
            assert(self@.parents =~= entry.parents);
        }
    }
}

} // verus!
