use crate::green::{checkpoint_index, forest_text, lemma_forest_text_empty, tree_text, Tree};
use crate::kind::{NodeKind, TokenKind};
use crate::lexer::{lexemes_text, Lexeme};
use crate::parser::parser::{Parsed, Parser, TokenIter};
use crate::parser::state::{lemma_open, ParseState};
use crate::parser::utility::error::Fault;
use crate::unicode::str_eq;
use vstd::prelude::*;

verus! {

impl ParseState {
    /// The declarations of a document, to the end of the stream: trivia
    /// goes into the tree, the identifier `use` starts an import and the
    /// identifier `struct` a struct, and any other token is unexpected. A
    /// declaration is opened at `mark`, in front of the trivia and the
    /// unexpected tokens that stand before it, and the mark then moves
    /// behind it. A declaration that took no token would end the document;
    /// none does.
    pub open spec fn declarations(self, mark: nat) -> ParseState
        decreases self.tokens.len(),
    {
        if self.tokens.len() == 0 {
            self
        } else {
            let token = self.tokens[0];
            if token.kind.is_trivia_nl() {
                self.pop().token(token).declarations(mark)
            } else if token.kind == TokenKind::Ident && token.text == "use"@ {
                let declared = self.pop().parse_use(mark, token);
                if declared.tokens.len() < self.tokens.len() {
                    declared.declarations(declared.children.len())
                } else {
                    declared
                }
            } else if token.kind == TokenKind::Ident && token.text == "struct"@ {
                let declared = self.pop().parse_struct(mark, token);
                if declared.tokens.len() < self.tokens.len() {
                    declared.declarations(declared.children.len())
                } else {
                    declared
                }
            } else {
                self.pop().unexpected(token).declarations(mark)
            }
        }
    }

    /// A document: a `Root` node over the declarations.
    pub open spec fn document(self) -> ParseState {
        self.open(NodeKind::Root).declarations(self.children.len()).close()
    }
}

/// The state in which the parse of a stream of tokens ends.
pub open spec fn parse_outcome(tokens: Seq<Lexeme>) -> ParseState {
    ParseState::start(tokens).document()
}

/// The tree that a stream of tokens parses to.
pub open spec fn syntax_tree(tokens: Seq<Lexeme>) -> Tree {
    parse_outcome(tokens).children[0]
}

/// The errors that the parse of a stream of tokens finds, in the order in
/// which it finds them.
pub open spec fn syntax_errors(tokens: Seq<Lexeme>) -> Seq<Fault> {
    parse_outcome(tokens).errors
}

impl<'c, T: TokenIter> Parser<'c, T> {
    /// Parses the whole stream as a document.
    ///
    /// Whatever the tokens are, the result is a tree whose root is a `Root`
    /// node and whose text is the text of all the tokens.
    pub fn parse_schema(self) -> (parsed: Parsed)
        requires
            self.inv(),
            self@.children.len() == 0,
            self@.parents.len() == 0,
        ensures
            parsed.tree() == self@.document().children[0],
            parsed.faults() == self@.document().errors,
            parsed.tree() matches Tree::Node { kind, .. } && kind == NodeKind::Root.raw(),
            tree_text(parsed.tree()) == lexemes_text(self@.tokens),
    {
        let mut parser = self;
        let ghost entry = parser@;
        proof {
            lemma_open(entry, 0, NodeKind::Root);
            lemma_forest_text_empty();
            assert(entry.text() =~= lexemes_text(entry.tokens));
            assert(entry.parents =~= Seq::empty());
        }
        parser.start_node(NodeKind::Root);
        let ghost rooted = parser@;
        let mut checkpoint = parser.checkpoint();
        loop
            invariant_except_break
                parser@.declarations(checkpoint_index(checkpoint)) == rooted.declarations(0),
            invariant
                parser.inv(),
                parser@.parents == rooted.parents,
                parser@.text() == rooted.text(),
                parser@.marks(checkpoint_index(checkpoint)),
                rooted == entry.open(NodeKind::Root),
                entry.children.len() == 0,
                entry.parents.len() == 0,
            ensures
                parser.inv(),
                parser@ == rooted.declarations(0),
                parser@.parents == rooted.parents,
                parser@.text() == rooted.text(),
                parser@.tokens.len() == 0,
            decreases parser@.tokens.len(),
        {
            match parser.next_token() {
                Some(token) => {
                    match token.kind {
                        TokenKind::Space | TokenKind::Comment | TokenKind::NewLine => {
                            parser.consume(token);
                        },
                        TokenKind::Ident => {
                            if str_eq(token.slice.as_str(), "use") {
                                parser.parse_use(checkpoint, token);
                                checkpoint = parser.checkpoint();
                            } else if str_eq(token.slice.as_str(), "struct") {
                                parser.parse_struct(checkpoint, token);
                                checkpoint = parser.checkpoint();
                            } else {
                                parser.unexpected(token);
                            }
                        },
                        _ => {
                            parser.unexpected(token);
                        },
                    }
                },
                None => {
                    break ;
                },
            }
        }
        let ghost read = parser@;
        parser.finish_node();
        proof {
            let done = parser@;
            assert(done.parents =~= Seq::empty());
            assert(done.children.len() == 1);
            assert(lexemes_text(done.tokens) =~= Seq::empty());
            assert(done.children.drop_last() =~= Seq::empty());
            assert(forest_text(done.children) =~= tree_text(done.children[0]));
            assert(done.text() =~= tree_text(done.children[0]));
        }
        parser.finish()
    }
}

} // verus!
