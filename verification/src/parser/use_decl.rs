use crate::green::checkpoint_index;
use crate::kind::{NodeKind, TokenKind};
use crate::lexer::{Lexeme, Token};
use crate::parser::parser::{Parser, TokenIter};
use crate::parser::state::{lemma_open, ParseState};
use vstd::prelude::*;
use vstd::string::StringExecFns;

verus! {

impl ParseState {
    /// What the error about a missing path says: the kind of the token
    /// found in its place, or that the input has ended.
    pub open spec fn path_complaint(self) -> Seq<char> {
        if self.tokens.len() > 0 {
            "Expected valid path, got "@ + self.tokens[0].kind.name_text()
        } else {
            "Expected valid path, got end of input"@
        }
    }

    /// An import, whose keyword is held: a `Use` node opened at `mark`,
    /// with the keyword, trivia, the path (an error where none starts
    /// there), a semicolon where one comes next, and the trivia that
    /// follows on the same line.
    pub open spec fn parse_use(self, mark: nat, keyword: Lexeme) -> ParseState {
        let begun = self.open_at(mark, NodeKind::Use).token(keyword).skip_trivia();
        let (walked, found) = begun.parse_path();
        let told = if found {
            walked
        } else {
            walked.fault(walked.path_complaint())
        };
        told.take_maybe(TokenKind::Semicolon).skip_trivia_until_nl().close()
    }
}

impl<'c, T: TokenIter> Parser<'c, T> {
    pub(crate) fn parse_use(&mut self, checkpoint: rowan::Checkpoint, token: Token)
        requires
            old(self).inv(),
            old(self)@.fits_with(token@),
            old(self)@.marks(checkpoint_index(checkpoint)),
        ensures
            final(self).inv(),
            final(self)@ == old(self)@.parse_use(checkpoint_index(checkpoint), token@),
            final(self)@.absorbs(old(self)@, token@),
    {
        let ghost entry = self@;
        proof {
            lemma_open(entry, checkpoint_index(checkpoint), NodeKind::Use);
        }
        self.start_node_at(checkpoint, NodeKind::Use);
        assert(self@.text_with(token@) == entry.text_with(token@));
        self.consume(token);
        self.consume_trivia();
        if !self.maybe_parse_path() {
            let message = match self.peek() {
                Some(found) => {
                    let mut message = String::from_str("Expected valid path, got ");
                    message.append(found.kind.name());
                    message
                },
                None => String::from_str("Expected valid path, got end of input"),
            };
            self.error(message);
        }
        self.consume_maybe(TokenKind::Semicolon);
        self.consume_trivia_until_nl();
        self.finish_node();
        proof {
            assert(self@.parents =~= entry.parents);
        }
    }
}

} // verus!
