use crate::kind::{NodeKind, TokenKind};
use crate::lexer::Lexeme;
use crate::parser::parser::{lemma_skip_trivia_len, Parser, TokenIter};
use crate::parser::state::ParseState;
use crate::parser::utility::keyword::{is_keyword, keyword};
use vstd::prelude::*;

verus! {

/// Whether a token can be a segment of a path: an identifier that is no
/// keyword, or a string.
pub open spec fn path_segment(token: Lexeme) -> bool {
    (token.kind == TokenKind::Ident && !keyword(token)) || token.kind == TokenKind::String
}

impl ParseState {
    /// The segments of a path with what separates them: a segment, trivia,
    /// and then either a `.` or two colons, after which the next segment is
    /// looked for, or the end of the path. A single colon goes into the
    /// tree and ends the path. The flag says whether a segment was read,
    /// now or before.
    pub open spec fn path_segments(self, consumed: bool) -> (ParseState, bool)
        decreases self.tokens.len(),
    {
        if self.tokens.len() > 0 && path_segment(self.tokens[0]) {
            let segment = self.bump().skip_trivia();
            proof {
                lemma_skip_trivia_len(self.bump());
            }
            if segment.at(TokenKind::Dot) {
                segment.bump().path_segments(true)
            } else if segment.at(TokenKind::Colon) {
                if segment.bump().at(TokenKind::Colon) {
                    segment.bump().bump().path_segments(true)
                } else {
                    (segment.bump(), true)
                }
            } else {
                (segment, true)
            }
        } else {
            (self, consumed)
        }
    }

    /// A path, if one starts here: its segments, within a `Path` node that
    /// is opened in front of them once they are read. Without a segment
    /// nothing changes.
    pub open spec fn parse_path(self) -> (ParseState, bool) {
        let (walked, consumed) = self.path_segments(false);
        if consumed {
            (walked.open_at(self.children.len(), NodeKind::Path).close(), true)
        } else {
            (walked, false)
        }
    }
}

impl<'c, T: TokenIter> Parser<'c, T> {
    pub(crate) fn maybe_parse_path(&mut self) -> (consumed: bool)
        requires
            old(self).inv(),
        ensures
            final(self).inv(),
            (final(self)@, consumed) == old(self)@.parse_path(),
            final(self)@.follows(old(self)@),
    {
        let ghost entry = self@;
        let checkpoint = self.checkpoint();
        let mut consumed = false;
        loop
            invariant_except_break
                self@.path_segments(consumed) == entry.path_segments(false),
            invariant
                self.inv(),
                self@.follows(entry),
                self@.children.len() >= entry.children.len(),
                !consumed ==> self@ == entry,
            ensures
                self.inv(),
                (self@, consumed) == entry.path_segments(false),
                self@.follows(entry),
                self@.children.len() >= entry.children.len(),
            decreases self@.tokens.len(),
        {
            let segment = match self.peek() {
                Some(token) => match token.kind {
                    TokenKind::Ident => !is_keyword(token),
                    TokenKind::String => true,
                    _ => false,
                },
                None => false,
            };
            if !segment {
                break ;
            }
            self.consume_next();
            self.consume_trivia();
            consumed = true;
            if self.consume_maybe(TokenKind::Dot) {
                continue ;
            }
            if self.consume_maybe(TokenKind::Colon) && self.consume_maybe(TokenKind::Colon) {
                continue ;
            } else {
                break ;
            }
        }
        if consumed {
            self.start_node_at(checkpoint, NodeKind::Path);
            self.finish_node();
            proof {
                assert(self@.parents =~= entry.parents);
            }
        }
        consumed
    }
}

} // verus!
