use crate::green::checkpoint_index;
use crate::kind::{NodeKind, TokenKind};
use crate::lexer::{Lexeme, Token};
use crate::parser::parser::{Parser, TokenIter};
use crate::parser::state::{lemma_open, ParseState};
use crate::parser::utility::combinators::{
    kind, trivia_nl_kinds, trivia_nl_seq, Either, TokenPredicate,
};
use vstd::prelude::*;

verus! {

impl ParseState {
    /// A field of a struct, whose name is held: a `StructField` node with
    /// the name, an optional `?`, the `:` that is waited for (a comma or a
    /// closing brace ends the wait), the type where an identifier comes
    /// next, and the separator where it comes next. Trivia goes into the
    /// node wherever it stands between these.
    pub open spec fn parse_struct_field(self, name: Lexeme, separator: TokenKind) -> ParseState {
        self.open(NodeKind::StructField).token(name).skip_trivia().take_maybe(
            TokenKind::Question,
        ).skip_trivia().expect(
            TokenPredicate(TokenKind::Colon),
            trivia_nl_seq(),
            Either(TokenPredicate(TokenKind::Comma), TokenPredicate(TokenKind::CurlyClose)),
            false,
        ).0.skip_trivia().type_argument().skip_trivia().take_maybe(separator).close()
    }

    /// What stands between the braces of a struct, up to the closing brace
    /// or the end of the stream: trivia goes into the tree, an identifier
    /// starts a field, the closing brace goes into the tree and ends the
    /// body, and any other token is unexpected. A field that took no token
    /// would end the body; none does.
    pub open spec fn struct_body(self) -> ParseState
        decreases self.tokens.len(),
    {
        if self.tokens.len() == 0 {
            self
        } else {
            let token = self.tokens[0];
            if token.kind.is_trivia_nl() {
                self.pop().token(token).struct_body()
            } else if token.kind == TokenKind::Ident {
                let fielded = self.pop().parse_struct_field(token, TokenKind::Comma);
                if fielded.tokens.len() < self.tokens.len() {
                    fielded.struct_body()
                } else {
                    fielded
                }
            } else if token.kind == TokenKind::CurlyClose {
                self.pop().token(token)
            } else {
                self.pop().unexpected(token).struct_body()
            }
        }
    }

    /// A struct, whose keyword is held: a `Struct` node opened at `mark`,
    /// with the keyword, the name that is waited for (a brace ends the
    /// wait), the opening brace that is waited for (a closing brace ends the
    /// wait), the body, and the trivia that follows on the same line.
    pub open spec fn parse_struct(self, mark: nat, keyword: Lexeme) -> ParseState {
        self.open_at(mark, NodeKind::Struct).token(keyword).expect(
            TokenPredicate(TokenKind::Ident),
            trivia_nl_seq(),
            Either(TokenPredicate(TokenKind::CurlyOpen), TokenPredicate(TokenKind::CurlyClose)),
            false,
        ).0.expect(
            TokenPredicate(TokenKind::CurlyOpen),
            trivia_nl_seq(),
            TokenPredicate(TokenKind::CurlyClose),
            false,
        ).0.struct_body().skip_trivia_until_nl().close()
    }
}

impl<'c, T: TokenIter> Parser<'c, T> {
    pub(crate) fn parse_struct(&mut self, checkpoint: rowan::Checkpoint, token: Token)
        requires
            old(self).inv(),
            old(self)@.fits_with(token@),
            old(self)@.marks(checkpoint_index(checkpoint)),
        ensures
            final(self).inv(),
            final(self)@ == old(self)@.parse_struct(checkpoint_index(checkpoint), token@),
            final(self)@.absorbs(old(self)@, token@),
    {
        let ghost entry = self@;
        proof {
            lemma_open(entry, checkpoint_index(checkpoint), NodeKind::Struct);
        }
        self.start_node_at(checkpoint, NodeKind::Struct);
        assert(self@.text_with(token@) == entry.text_with(token@));
        self.consume(token);
        let skip = trivia_nl_kinds();
        self.expect(
            kind(TokenKind::Ident),
            skip.as_slice(),
            Either(kind(TokenKind::CurlyOpen), kind(TokenKind::CurlyClose)),
        );
        self.expect(kind(TokenKind::CurlyOpen), skip.as_slice(), kind(TokenKind::CurlyClose));
        let ghost opened = self@;
        loop
            invariant_except_break
                self@.struct_body() == opened.struct_body(),
            invariant
                self.inv(),
                self@.parents == opened.parents,
                self@.text() == opened.text(),
                self@.tokens.len() <= opened.tokens.len(),
            ensures
                self.inv(),
                self@ == opened.struct_body(),
                self@.parents == opened.parents,
                self@.text() == opened.text(),
                self@.tokens.len() <= opened.tokens.len(),
            decreases self@.tokens.len(),
        {
            match self.next_token() {
                Some(token) => {
                    match token.kind {
                        TokenKind::Space | TokenKind::Comment | TokenKind::NewLine => {
                            self.consume(token);
                        },
                        TokenKind::Ident => {
                            self.parse_struct_field(token, TokenKind::Comma);
                        },
                        TokenKind::CurlyClose => {
                            self.consume(token);
                            break ;
                        },
                        _ => {
                            self.unexpected(token);
                        },
                    }
                },
                None => {
                    break ;
                },
            }
        }
        self.consume_trivia_until_nl();
        self.finish_node();
        proof {
            assert(self@.parents =~= entry.parents);
        }
    }

    pub(crate) fn parse_struct_field(&mut self, token: Token, separator: TokenKind)
        requires
            old(self).inv(),
            old(self)@.fits_with(token@),
        ensures
            final(self).inv(),
            final(self)@ == old(self)@.parse_struct_field(token@, separator),
            final(self)@.absorbs(old(self)@, token@),
            final(self)@.children.len() == old(self)@.children.len() + 1,
    {
        let ghost entry = self@;
        proof {
            lemma_open(entry, entry.children.len(), NodeKind::StructField);
        }
        self.start_node(NodeKind::StructField);
        assert(self@.text_with(token@) == entry.text_with(token@));
        self.consume(token);
        self.consume_trivia();
        self.consume_maybe(TokenKind::Question);
        self.consume_trivia();
        let skip = trivia_nl_kinds();
        self.expect(
            kind(TokenKind::Colon),
            skip.as_slice(),
            Either(kind(TokenKind::Comma), kind(TokenKind::CurlyClose)),
        );
        self.consume_trivia();
        let ghost typed = self@;
        match self.maybe(TokenKind::Ident) {
            Some(ident) => {
                self.parse_type(ident);
            },
            None => {},
        }
        assert(self@ == typed.type_argument());
        self.consume_trivia();
        self.consume_maybe(separator);
        self.finish_node();
        proof {
            assert(self@.parents =~= entry.parents);
        }
    }
}

} // verus!
