use crate::green::{
    builder_checkpoint, builder_children, builder_finish, builder_finish_node, builder_parents,
    builder_start_node, builder_start_node_at, builder_token, builder_with_cache,
    checkpoint_index, forest_text, green_clone, green_tree, new_node_cache, tree_text, Tree,
};
use crate::helpers::ByteOffset;
use crate::kind::{NodeKind, TokenKind};
use crate::lexer::{
    lemma_lex_from_step, lemma_lex_lossless, lex, lex_from, lexemes_text, tokenize, Lexeme, Lexer,
    Token,
};
use crate::parser::laws::law_parse_lossless;
use crate::parser::schema::{syntax_errors, syntax_tree};
use crate::parser::state::{
    lemma_bump, lemma_close, lemma_error_node, lemma_open, lemma_pop, lemma_token, ParseState,
};
use crate::parser::utility::combinators::{
    kind, kind_in, trivia_nl_kinds, trivia_nl_seq, Always, ExpectPredicate, TokenPredicate,
    TokenTest,
};
use crate::parser::utility::error::{faults_within, Fault, SyntaxError};
use crate::source::{Source, StrSource};
use crate::syntax::{node_place, syntax_root, Place};
use crate::unicode::{byte_len, lemma_byte_len_concat};
use vstd::prelude::*;
use vstd::string::{StringExecFns, StringSliceAdditionalSpecFns};

verus! {

/// A finite stream of tokens.
pub trait TokenIter {
    spec fn inv(&self) -> bool;

    /// The tokens that the stream has yet to give.
    spec fn remaining(&self) -> Seq<Lexeme>;

    /// Takes the next token from the stream; `None` once it is used up.
    fn next_token(&mut self) -> (token: Option<Token>)
        requires
            old(self).inv(),
        ensures
            final(self).inv(),
            old(self).remaining().len() == 0 ==> token is None && final(self).remaining() == old(
                self,
            ).remaining(),
            old(self).remaining().len() > 0 ==> token is Some && token->0@ == old(
                self,
            ).remaining()[0] && final(self).remaining() == old(self).remaining().drop_first(),
    ;
}

impl<S: Source> TokenIter for Lexer<S> {
    open spec fn inv(&self) -> bool {
        Lexer::inv(self)
    }

    open spec fn remaining(&self) -> Seq<Lexeme> {
        lex_from(self.text(), self.cursor())
    }

    fn next_token(&mut self) -> (token: Option<Token>) {
        proof {
            if self.cursor() < self.text().len() {
                lemma_lex_from_step(self.text(), self.cursor());
            }
        }
        self.next()
    }
}

/// A stream over a list of tokens.
pub struct TokenList {
    tokens: Vec<Token>,
    next: usize,
}

impl TokenList {
    /// A stream that gives the tokens of the list from the first on.
    pub fn new(tokens: Vec<Token>) -> (list: TokenList)
        ensures
            list.inv(),
            list.remaining() == Seq::new(tokens@.len(), |i: int| tokens@[i]@),
    {
        let list = TokenList { tokens, next: 0 };
        assert(list.remaining() =~= Seq::new(tokens@.len(), |i: int| tokens@[i]@));
        list
    }
}

impl TokenIter for TokenList {
    closed spec fn inv(&self) -> bool {
        self.next <= self.tokens@.len()
    }

    closed spec fn remaining(&self) -> Seq<Lexeme> {
        Seq::new(
            (self.tokens@.len() - self.next) as nat,
            |i: int| self.tokens@[self.next + i]@,
        )
    }

    fn next_token(&mut self) -> (token: Option<Token>) {
        if self.next < self.tokens.len() {
            let token = self.tokens[self.next].clone();
            self.next = self.next + 1;
            proof {
                assert(self.remaining() =~= old(self).remaining().drop_first());
            }
            Some(token)
        } else {
            None
        }
    }
}

/// What a parse gives: the tree, and the errors found on the way.
pub struct Parsed {
    pub schema: rowan::GreenNode,
    pub errors: Vec<SyntaxError>,
}

impl Parsed {
    /// The shape of the tree.
    pub open spec fn tree(&self) -> Tree {
        green_tree(self.schema)
    }

    /// What the errors say.
    pub open spec fn faults(&self) -> Seq<Fault> {
        Seq::new(self.errors@.len(), |i: int| self.errors@[i]@)
    }
}

impl Parsed {
    /// A cursor at the root of the tree.
    pub fn syntax(&self) -> (root: rowan::cursor::SyntaxNode)
        requires
            byte_len(tree_text(self.tree())) <= u32::MAX,
        ensures
            node_place(root) == (Place { tree: self.tree(), offset: 0, frozen: true }),
            node_place(root).sound(),
    {
        syntax_root(green_clone(&self.schema))
    }
}

impl Clone for Parsed {
    /// A copy that shares the tree's storage.
    fn clone(&self) -> (copy: Self)
        ensures
            copy.tree() == self.tree(),
            copy.faults() == self.faults(),
    {
        let schema = green_clone(&self.schema);
        let mut errors: Vec<SyntaxError> = Vec::new();
        let mut i: usize = 0;
        while i < self.errors.len()
            invariant
                i <= self.errors.len(),
                errors@.len() == i,
                forall|j: int| 0 <= j < i ==> errors@[j]@ == self.errors@[j]@,
            decreases self.errors.len() - i,
        {
            errors.push(self.errors[i].clone());
            i = i + 1;
        }
        let copy = Parsed { schema, errors };
        proof {
            assert(copy.faults() =~= self.faults());
        }
        copy
    }
}

/// A parser over a stream of tokens. It reads one token ahead, puts what it
/// reads into a tree builder, and collects the errors it finds.
pub struct Parser<'c, T: TokenIter> {
    pub(crate) builder: rowan::GreenNodeBuilder<'c>,
    pub(crate) tokens: T,
    pub(crate) lookahead: Option<Token>,
    pub(crate) errors: Vec<SyntaxError>,
    pub(crate) offset: ByteOffset,
}

impl<'c, T: TokenIter> View for Parser<'c, T> {
    type V = ParseState;

    closed spec fn view(&self) -> ParseState {
        ParseState {
            tokens: match self.lookahead {
                Some(token) => seq![token@] + self.tokens.remaining(),
                None => Seq::empty(),
            },
            children: builder_children(self.builder),
            parents: builder_parents(self.builder),
            errors: Seq::new(self.errors@.len(), |i: int| self.errors@[i]@),
            offset: self.offset.0 as nat,
        }
    }
}

impl<'c, T: TokenIter> Parser<'c, T> {
    /// The stream is in order, and the look-ahead is filled unless the
    /// stream is used up.
    pub closed spec fn stream_inv(&self) -> bool {
        &&& self.tokens.inv()
        &&& self.lookahead is None ==> self.tokens.remaining().len() == 0
    }

    /// The stream is in order, and the state is well-formed and fits a tree.
    pub open spec fn inv(&self) -> bool {
        &&& self.stream_inv()
        &&& self@.wf()
        &&& self@.fits()
    }

    /// A parser at the start of a stream.
    pub fn new(builder: rowan::GreenNodeBuilder<'c>, tokens: T) -> (parser: Self)
        requires
            tokens.inv(),
            builder_children(builder).len() == 0,
            builder_parents(builder).len() == 0,
            byte_len(crate::lexer::lexemes_text(tokens.remaining())) <= u32::MAX,
        ensures
            parser.inv(),
            parser@ == ParseState::start(tokens.remaining()),
    {
        let mut tokens = tokens;
        let ghost all = tokens.remaining();
        let lookahead = tokens.next_token();
        let parser = Parser {
            builder,
            tokens,
            lookahead,
            errors: Vec::new(),
            offset: ByteOffset(0),
        };
        proof {
            assert(parser@.tokens =~= all);
            assert(parser@.children =~= Seq::empty());
            assert(parser@.parents =~= Seq::empty());
            assert(parser@.errors =~= Seq::empty());
            crate::green::lemma_forest_text_empty();
            assert(parser@.text() =~= crate::lexer::lexemes_text(all));
        }
        parser
    }

    /// Ends the parse: hands out the one finished tree and the errors.
    pub fn finish(self) -> (parsed: Parsed)
        requires
            self.inv(),
            self@.children.len() == 1,
            self@.children[0] is Node,
        ensures
            parsed.tree() == self@.children[0],
            parsed.faults() == self@.errors,
    {
        let schema = builder_finish(self.builder);
        let parsed = Parsed { schema, errors: self.errors };
        proof {
            assert(parsed.faults() =~= self@.errors);
        }
        parsed
    }

    /// The next token, without taking it.
    pub fn peek(&self) -> (token: Option<&Token>)
        requires
            self.inv(),
        ensures
            self@.tokens.len() == 0 ==> token is None,
            self@.tokens.len() > 0 ==> token is Some && token->0@ == self@.tokens[0],
    {
        self.lookahead.as_ref()
    }

    /// Takes the next token from the stream without putting it into the tree.
    pub fn next_token(&mut self) -> (token: Option<Token>)
        requires
            old(self).inv(),
        ensures
            final(self).inv(),
            old(self)@.tokens.len() == 0 ==> token is None && final(self)@ == old(self)@,
            old(self)@.tokens.len() > 0 ==> token is Some && token->0@ == old(self)@.tokens[0]
                && final(self)@ == old(self)@.pop() && final(self)@.fits_with(token->0@)
                && final(self)@.text_with(token->0@) == old(self)@.text(),
    {
        let ghost before = self@;
        match self.lookahead.take() {
            Some(token) => {
                let ghost rest = self.tokens.remaining();
                let next = self.tokens.next_token();
                self.lookahead = next;
                proof {
                    assert(before.tokens =~= seq![token@] + rest);
                    assert(self@.tokens =~= rest);
                    assert(before.pop().tokens =~= rest);
                    assert(self@.errors =~= before.errors);
                    lemma_pop(before);
                }
                Some(token)
            },
            None => {
                proof {
                    assert(self@.errors =~= before.errors);
                }
                None
            },
        }
    }

    /// A mark at the end of the finished trees.
    pub fn checkpoint(&self) -> (mark: rowan::Checkpoint)
        requires
            self.inv(),
        ensures
            checkpoint_index(mark) == self@.children.len(),
            self@.marks(checkpoint_index(mark)),
    {
        proof {
            lemma_open(self@, self@.children.len(), NodeKind::Root);
        }
        builder_checkpoint(&self.builder)
    }

    /// Opens a node behind the finished trees.
    pub fn start_node(&mut self, kind: NodeKind)
        requires
            old(self).inv(),
        ensures
            final(self).inv(),
            final(self)@ == old(self)@.open(kind),
    {
        let ghost before = self@;
        proof {
            lemma_open(before, before.children.len(), kind);
        }
        builder_start_node(&mut self.builder, kind.to_raw());
        proof {
            assert(self@.errors =~= before.errors);
        }
    }

    /// Opens a node in front of the trees finished since the mark was made.
    pub fn start_node_at(&mut self, mark: rowan::Checkpoint, kind: NodeKind)
        requires
            old(self).inv(),
            old(self)@.marks(checkpoint_index(mark)),
        ensures
            final(self).inv(),
            final(self)@ == old(self)@.open_at(checkpoint_index(mark), kind),
    {
        let ghost before = self@;
        proof {
            lemma_open(before, checkpoint_index(mark), kind);
        }
        builder_start_node_at(&mut self.builder, mark, kind.to_raw());
        proof {
            assert(self@.errors =~= before.errors);
        }
    }

    /// Closes the innermost open node.
    pub fn finish_node(&mut self)
        requires
            old(self).inv(),
            old(self)@.parents.len() > 0,
        ensures
            final(self).inv(),
            final(self)@ == old(self)@.close(),
            final(self)@.parents == old(self)@.parents.drop_last(),
            final(self)@.tokens == old(self)@.tokens,
            final(self)@.text() == old(self)@.text(),
            final(self)@.children.len() == old(self)@.parents.last().1 + 1,
    {
        let ghost before = self@;
        proof {
            lemma_close(before);
            lemma_byte_len_concat(forest_text(before.children), lexemes_text(before.tokens));
        }
        builder_finish_node(&mut self.builder);
        proof {
            assert(self@.errors =~= before.errors);
        }
    }

    /// Puts a token into the tree.
    pub fn consume(&mut self, token: Token)
        requires
            old(self).inv(),
            old(self)@.fits_with(token@),
        ensures
            final(self).inv(),
            final(self)@ == old(self)@.token(token@),
            final(self)@.absorbs(old(self)@, token@),
            final(self)@.children.len() == old(self)@.children.len() + 1,
            final(self)@.tokens == old(self)@.tokens,
    {
        let ghost before = self@;
        proof {
            lemma_token(before, token@);
        }
        let size = token.slice.as_str().len();
        self.offset = ByteOffset(self.offset.0 + size);
        builder_token(&mut self.builder, token.kind.to_raw(), token.slice.as_str());
        proof {
            assert(self@.errors =~= before.errors);
        }
    }

    /// Takes the next token and puts it into the tree.
    pub fn consume_next(&mut self)
        requires
            old(self).inv(),
            old(self)@.tokens.len() > 0,
        ensures
            final(self).inv(),
            final(self)@ == old(self)@.bump(),
            final(self)@.follows(old(self)@),
            final(self)@.tokens.len() < old(self)@.tokens.len(),
            final(self)@.children.len() == old(self)@.children.len() + 1,
    {
        proof {
            lemma_bump(self@);
        }
        match self.next_token() {
            Some(token) => self.consume(token),
            None => {},
        }
    }

    /// Records an error about the place that the parse has reached.
    pub fn error(&mut self, message: String)
        requires
            old(self).inv(),
        ensures
            final(self).inv(),
            final(self)@ == old(self)@.fault(message@),
            final(self)@.follows(old(self)@),
            final(self)@.children == old(self)@.children,
            final(self)@.tokens == old(self)@.tokens,
    {
        let ghost before = self@;
        let error = SyntaxError::new_at_offset(message, self.offset);
        self.errors.push(error);
        proof {
            assert(self@.errors =~= before.fault(message@).errors);
        }
    }

    /// Puts a token into the tree inside an error node of its own.
    pub fn error_node(&mut self, token: Token)
        requires
            old(self).inv(),
            old(self)@.fits_with(token@),
        ensures
            final(self).inv(),
            final(self)@ == old(self)@.error_node(token@),
            final(self)@.absorbs(old(self)@, token@),
            final(self)@.children.len() == old(self)@.children.len() + 1,
            final(self)@.tokens == old(self)@.tokens,
    {
        proof {
            lemma_error_node(self@, token@);
            lemma_open(self@, self@.children.len(), NodeKind::Error);
        }
        self.start_node(NodeKind::Error);
        assert(self@.text_with(token@) == old(self)@.text_with(token@));
        self.consume(token);
        self.finish_node();
    }
}

impl ParseState {
    /// An error about the bytes from `start` up to the place that the parse
    /// has reached.
    pub open spec fn fault_from(self, message: Seq<char>, start: nat) -> ParseState {
        ParseState {
            errors: self.errors.push(Fault { message, start, end: self.offset }),
            ..self
        }
    }

    /// A token that nothing asked for: the token in an error node of its
    /// own, and an error about the bytes of the token.
    pub open spec fn unexpected(self, held: Lexeme) -> ParseState {
        self.error_node(held).fault_from("Unexpected "@ + held.kind.name_text(), self.offset)
    }

    /// The tokens at the head of the stream that mean nothing go into the
    /// tree, line breaks among them.
    pub open spec fn skip_trivia(self) -> ParseState
        decreases self.tokens.len(),
    {
        if self.tokens.len() > 0 && self.tokens[0].kind.is_trivia_nl() {
            self.bump().skip_trivia()
        } else {
            self
        }
    }

    /// As `skip_trivia`, but a line break stops it.
    pub open spec fn skip_trivia_until_nl(self) -> ParseState
        decreases self.tokens.len(),
    {
        if self.tokens.len() > 0 && self.tokens[0].kind.is_trivia() {
            self.bump().skip_trivia_until_nl()
        } else {
            self
        }
    }

    /// The tokens at the head of the stream of which the test holds go into
    /// the tree.
    pub open spec fn take_while<P: TokenTest>(self, test: P) -> ParseState
        decreases self.tokens.len(),
    {
        if self.tokens.len() > 0 && test.holds(self.tokens[0]) {
            self.bump().take_while(test)
        } else {
            self
        }
    }

    /// The tokens up to the first of which the test holds go into the tree,
    /// that one included.
    pub open spec fn take_through<P: TokenTest>(self, test: P) -> ParseState
        decreases self.tokens.len(),
    {
        if self.tokens.len() == 0 {
            self
        } else if test.holds(self.tokens[0]) {
            self.bump()
        } else {
            self.bump().take_through(test)
        }
    }

    /// The next token goes into the tree if it is of the given kind.
    pub open spec fn take_maybe(self, kind: TokenKind) -> ParseState {
        if self.at(kind) {
            self.bump()
        } else {
            self
        }
    }

    /// Waiting for a token that `predicate` accepts.
    ///
    /// A token of a kind in `skip` goes into the tree and the wait goes on.
    /// Another token that is not accepted is unexpected: the first such token
    /// of the wait brings an error about the place where it stands (`fired`
    /// says whether that has happened). If `stop_if` holds of it the wait
    /// ends there and the token stays in the stream; if not, it goes into
    /// the tree in an error node and the wait goes on. The wait ends with
    /// `true` when an accepted token has gone into the tree, with `false`
    /// at a stop and at the end of the stream.
    pub open spec fn expect<P: ExpectPredicate, S: TokenTest>(
        self,
        predicate: P,
        skip: Seq<TokenKind>,
        stop_if: S,
        fired: bool,
    ) -> (ParseState, bool)
        decreases self.tokens.len(),
    {
        if self.tokens.len() == 0 {
            (self, false)
        } else {
            let token = self.tokens[0];
            let told = if fired {
                self
            } else {
                self.fault(predicate.complaint(token))
            };
            if predicate.accepts(token) {
                (self.bump(), true)
            } else if skip.contains(token.kind) {
                self.bump().expect(predicate, skip, stop_if, fired)
            } else if stop_if.holds(token) {
                (told, false)
            } else {
                told.pop().error_node(token).expect(predicate, skip, stop_if, true)
            }
        }
    }
}

/// The names of the first `n` kinds of a list, with a comma and a blank
/// between them.
pub open spec fn kinds_text(kinds: Seq<TokenKind>, n: nat) -> Seq<char>
    decreases n,
{
    if n == 0 {
        Seq::empty()
    } else if n == 1 {
        kinds[0].name_text()
    } else {
        kinds_text(kinds, (n - 1) as nat) + ", "@ + kinds[n - 1].name_text()
    }
}

/// What the error says that names the kinds that were expected and the
/// kind that was found.
pub open spec fn expected_complaint(expected: Seq<TokenKind>, got: TokenKind) -> Seq<char> {
    "Expected ["@ + kinds_text(expected, expected.len()) + "], got "@ + got.name_text()
}

/// Skipping trivia brings no token back.
pub proof fn lemma_skip_trivia_len(st: ParseState)
    ensures
        st.skip_trivia().tokens.len() <= st.tokens.len(),
    decreases st.tokens.len(),
{
    if st.tokens.len() > 0 && st.tokens[0].kind.is_trivia_nl() {
        lemma_skip_trivia_len(st.bump());
    }
}

/// What `expect` does with the token it looks at.
enum Step {
    End,
    Accept,
    Skip,
    Stop,
    Wrap,
}

impl<'c, T: TokenIter> Parser<'c, T> {
    /// Records an error about a token and puts the token into the tree
    /// inside an error node of its own.
    pub fn unexpected(&mut self, token: Token)
        requires
            old(self).inv(),
            old(self)@.fits_with(token@),
        ensures
            final(self).inv(),
            final(self)@ == old(self)@.unexpected(token@),
            final(self)@.absorbs(old(self)@, token@),
            final(self)@.children.len() == old(self)@.children.len() + 1,
            final(self)@.tokens == old(self)@.tokens,
    {
        let ghost entry = self@;
        let start = self.offset;
        let mut message = String::from_str("Unexpected ");
        message.append(token.kind.name());
        self.error_node(token);
        let ghost wrapped = self@;
        let error = SyntaxError::new(message, std::ops::Range { start, end: self.offset });
        self.errors.push(error);
        proof {
            assert(self@.errors =~= wrapped.fault_from(
                "Unexpected "@ + token@.kind.name_text(),
                entry.offset,
            ).errors);
            lemma_error_node(entry, token@);
        }
    }

    pub fn consume_while<P: TokenTest>(&mut self, predicate: P)
        requires
            old(self).inv(),
        ensures
            final(self).inv(),
            final(self)@ == old(self)@.take_while(predicate),
            final(self)@.follows(old(self)@),
            final(self)@.children.len() >= old(self)@.children.len(),
    {
        loop
            invariant
                self.inv(),
                self@.take_while(predicate) == old(self)@.take_while(predicate),
                self@.follows(old(self)@),
                self@.children.len() >= old(self)@.children.len(),
            decreases self@.tokens.len(),
        {
            let more = match self.peek() {
                Some(token) => predicate.test(token),
                None => false,
            };
            if more {
                self.consume_next();
            } else {
                return ;
            }
        }
    }

    pub fn consume_until_true_including<P: TokenTest>(&mut self, predicate: P)
        requires
            old(self).inv(),
        ensures
            final(self).inv(),
            final(self)@ == old(self)@.take_through(predicate),
            final(self)@.follows(old(self)@),
            final(self)@.children.len() >= old(self)@.children.len(),
    {
        loop
            invariant
                self.inv(),
                self@.take_through(predicate) == old(self)@.take_through(predicate),
                self@.follows(old(self)@),
                self@.children.len() >= old(self)@.children.len(),
            decreases self@.tokens.len(),
        {
            let last = match self.peek() {
                Some(token) => predicate.test(token),
                None => {
                    return ;
                },
            };
            self.consume_next();
            if last {
                return ;
            }
        }
    }

    pub fn expect<P: ExpectPredicate, S: TokenTest>(
        &mut self,
        predicate: P,
        skip: &[TokenKind],
        stop_if: S,
    ) -> (found: bool)
        requires
            old(self).inv(),
        ensures
            final(self).inv(),
            (final(self)@, found) == old(self)@.expect(predicate, skip@, stop_if, false),
            final(self)@.follows(old(self)@),
            final(self)@.children.len() >= old(self)@.children.len(),
    {
        let mut error_fired = false;
        loop
            invariant
                self.inv(),
                self@.expect(predicate, skip@, stop_if, error_fired) == old(self)@.expect(
                    predicate,
                    skip@,
                    stop_if,
                    false,
                ),
                self@.follows(old(self)@),
                self@.children.len() >= old(self)@.children.len(),
            decreases self@.tokens.len(),
        {
            let ghost before = self@;
            let step = match self.peek() {
                None => Step::End,
                Some(token) => {
                    if predicate.matches(token) {
                        Step::Accept
                    } else if kind_in(skip, token.kind) {
                        Step::Skip
                    } else if stop_if.test(token) {
                        Step::Stop
                    } else {
                        Step::Wrap
                    }
                },
            };
            match step {
                Step::End => {
                    return false;
                },
                Step::Accept => {
                    self.consume_next();
                    return true;
                },
                Step::Skip => {
                    self.consume_next();
                },
                Step::Stop => {
                    if !error_fired {
                        let error = match self.peek() {
                            Some(token) => predicate.error(token, self.offset),
                            None => {
                                return false;
                            },
                        };
                        self.errors.push(error);
                        proof {
                            assert(self@.errors =~= before.fault(
                                predicate.complaint(before.tokens[0]),
                            ).errors);
                        }
                    }
                    return false;
                },
                Step::Wrap => {
                    match self.next_token() {
                        Some(token) => {
                            if !error_fired {
                                let ghost popped = self@;
                                let error = predicate.error(&token, self.offset);
                                self.errors.push(error);
                                proof {
                                    assert(self@.errors =~= popped.fault(
                                        predicate.complaint(token@),
                                    ).errors);
                                }
                            }
                            error_fired = true;
                            self.error_node(token);
                        },
                        None => {
                            return false;
                        },
                    }
                },
            }
        }
    }

    /// Waits for a token of one kind at the next place that means
    /// something: trivia goes into the tree, and any other token stays in
    /// the stream and brings an error.
    pub fn expect_token(&mut self, expected: TokenKind) -> (found: bool)
        requires
            old(self).inv(),
        ensures
            final(self).inv(),
            (final(self)@, found) == old(self)@.expect(
                TokenPredicate(expected),
                trivia_nl_seq(),
                Always,
                false,
            ),
            final(self)@.follows(old(self)@),
            final(self)@.children.len() >= old(self)@.children.len(),
    {
        let skip = trivia_nl_kinds();
        self.expect(kind(expected), skip.as_slice(), Always)
    }

    /// Takes the next token from the stream if it is of the given kind.
    pub fn maybe(&mut self, kind: TokenKind) -> (token: Option<Token>)
        requires
            old(self).inv(),
        ensures
            final(self).inv(),
            token is Some == old(self)@.at(kind),
            token is None ==> final(self)@ == old(self)@,
            token is Some ==> token->0@ == old(self)@.tokens[0] && final(self)@ == old(
                self,
            )@.pop() && final(self)@.fits_with(token->0@) && final(self)@.text_with(token->0@)
                == old(self)@.text(),
    {
        let found = match self.peek() {
            Some(token) => token.kind == kind,
            None => false,
        };
        if found {
            self.next_token()
        } else {
            None
        }
    }

    pub fn consume_trivia(&mut self)
        requires
            old(self).inv(),
        ensures
            final(self).inv(),
            final(self)@ == old(self)@.skip_trivia(),
            final(self)@.follows(old(self)@),
            final(self)@.children.len() >= old(self)@.children.len(),
    {
        loop
            invariant
                self.inv(),
                self@.skip_trivia() == old(self)@.skip_trivia(),
                self@.follows(old(self)@),
                self@.children.len() >= old(self)@.children.len(),
            decreases self@.tokens.len(),
        {
            let more = match self.peek() {
                Some(token) => token.kind.trivia_with_newline(),
                None => false,
            };
            if more {
                self.consume_next();
            } else {
                return ;
            }
        }
    }

    pub fn consume_trivia_until_nl(&mut self)
        requires
            old(self).inv(),
        ensures
            final(self).inv(),
            final(self)@ == old(self)@.skip_trivia_until_nl(),
            final(self)@.follows(old(self)@),
            final(self)@.children.len() >= old(self)@.children.len(),
    {
        loop
            invariant
                self.inv(),
                self@.skip_trivia_until_nl() == old(self)@.skip_trivia_until_nl(),
                self@.follows(old(self)@),
                self@.children.len() >= old(self)@.children.len(),
            decreases self@.tokens.len(),
        {
            let more = match self.peek() {
                Some(token) => token.kind.trivia(),
                None => false,
            };
            if more {
                self.consume_next();
            } else {
                return ;
            }
        }
    }

    /// Records that one of several kinds was expected where a token of
    /// another kind stands.
    pub fn expected(&mut self, expected: &[TokenKind], got: TokenKind)
        requires
            old(self).inv(),
        ensures
            final(self).inv(),
            final(self)@ == old(self)@.fault(expected_complaint(expected@, got)),
            final(self)@.follows(old(self)@),
    {
        let mut message = String::from_str("Expected [");
        let mut i: usize = 0;
        while i < expected.len()
            invariant
                i <= expected.len(),
                message@ == "Expected ["@ + kinds_text(expected@, i as nat),
            decreases expected.len() - i,
        {
            let ghost before = message@;
            if i > 0 {
                message.append(", ");
            }
            message.append(expected[i].name());
            proof {
                let listed = kinds_text(expected@, i as nat);
                if i > 0 {
                    assert(before + ", "@ + expected@[i as int].name_text() =~= "Expected ["@ + (
                    listed + ", "@ + expected@[i as int].name_text()));
                } else {
                    assert(listed =~= Seq::<char>::empty());
                    assert(before + expected@[i as int].name_text() =~= "Expected ["@
                        + expected@[i as int].name_text());
                }
            }
            i = i + 1;
        }
        message.append("], got ");
        message.append(got.name());
        self.error(message);
    }

    /// Puts the next token into the tree if it is of the given kind.
    pub fn consume_maybe(&mut self, kind: TokenKind) -> (found: bool)
        requires
            old(self).inv(),
        ensures
            final(self).inv(),
            found == old(self)@.at(kind),
            final(self)@ == old(self)@.take_maybe(kind),
            final(self)@.follows(old(self)@),
            final(self)@.children.len() >= old(self)@.children.len(),
            found ==> final(self)@.tokens.len() < old(self)@.tokens.len(),
    {
        match self.maybe(kind) {
            Some(token) => {
                self.consume(token);
                proof {
                    lemma_bump(old(self)@);
                }
                true
            },
            None => false,
        }
    }
}

/// Parses a stream of tokens as a document, building the tree through the
/// given cache.
///
/// Whatever the tokens are, the result is a tree whose root is a `Root`
/// node and whose text is the text of all the tokens.
pub fn parse<T: TokenIter>(tokens: T, cache: &mut rowan::NodeCache) -> (parsed: Parsed)
    requires
        tokens.inv(),
        byte_len(lexemes_text(tokens.remaining())) <= u32::MAX,
    ensures
        parsed.tree() == syntax_tree(tokens.remaining()),
        parsed.faults() == syntax_errors(tokens.remaining()),
        parsed.tree() matches Tree::Node { kind, .. } && kind == NodeKind::Root.raw(),
        tree_text(parsed.tree()) == lexemes_text(tokens.remaining()),
        faults_within(parsed.faults(), byte_len(lexemes_text(tokens.remaining()))),
{
    proof {
        law_parse_lossless(tokens.remaining());
    }
    let builder = builder_with_cache(cache);
    let parser = Parser::new(builder, tokens);
    parser.parse_schema()
}

/// Parses a text as a document, with a cache of its own.
///
/// Whatever the text is, the result is a tree whose root is a `Root` node
/// and whose text is the text that was given.
pub fn parse_str(source: &str) -> (parsed: Parsed)
    requires
        byte_len(source@) <= u32::MAX,
    ensures
        parsed.tree() == syntax_tree(lex(source@)),
        parsed.faults() == syntax_errors(lex(source@)),
        parsed.tree() matches Tree::Node { kind, .. } && kind == NodeKind::Root.raw(),
        tree_text(parsed.tree()) == source@,
        faults_within(parsed.faults(), byte_len(source@)),
{
    let mut cache = new_node_cache();
    let lexer = tokenize(StrSource::new(source));
    proof {
        lemma_lex_lossless(source@);
    }
    parse(lexer, &mut cache)
}

/// Parses a text as a document if the text is short enough for a tree,
/// whose lengths are 32-bit; `None` for a longer text.
pub fn try_parse_str(source: &str) -> (parsed: Option<Parsed>)
    ensures
        parsed is Some == (byte_len(source@) <= u32::MAX),
        parsed matches Some(p) ==> p.tree() == syntax_tree(lex(source@)) && p.faults()
            == syntax_errors(lex(source@)) && tree_text(p.tree()) == source@,
{
    let size: usize = source.as_bytes().len();
    assert(byte_len(source@) == size);
    if size <= 0xFFFF_FFFF {
        Some(parse_str(source))
    } else {
        None
    }
}

} // verus!
