use crate::green::{
    forest_text, lemma_forest_text_push, lemma_forest_text_split,
    tree_text, Tree,
};
use crate::kind::NodeKind;
use crate::lexer::{lexemes_text, Lexeme};
use crate::parser::utility::error::Fault;
use crate::unicode::{byte_len, lemma_byte_len_concat};
use vstd::prelude::*;

verus! {

/// What a parser holds at a moment of a parse: the tokens still to come,
/// the tree as far as it is built, and the errors found.
pub struct ParseState {
    /// The tokens that have not been read.
    pub tokens: Seq<Lexeme>,
    /// The finished trees that have no parent yet, in source order.
    pub children: Seq<Tree>,
    /// The open nodes, outermost first: each with its raw kind and the index
    /// in `children` of its first child.
    pub parents: Seq<(u16, nat)>,
    pub errors: Seq<Fault>,
    /// Bytes of text that have gone into the tree.
    pub offset: nat,
}

impl ParseState {
    /// The state before anything is read.
    pub open spec fn start(tokens: Seq<Lexeme>) -> ParseState {
        ParseState {
            tokens,
            children: Seq::empty(),
            parents: Seq::empty(),
            errors: Seq::empty(),
            offset: 0,
        }
    }

    /// The open nodes form a stack: none starts behind the end of the
    /// finished trees, and none starts before one that was opened earlier.
    /// The offset counts the bytes of the finished trees, and every error
    /// is about bytes that are in them.
    pub open spec fn wf(self) -> bool {
        &&& self.offset == byte_len(forest_text(self.children))
        &&& forall|i: int|
            0 <= i < self.errors.len() ==> (#[trigger] self.errors[i]).start <= self.errors[i].end
                <= self.offset
        &&& forall|i: int|
            0 <= i < self.parents.len() ==> (#[trigger] self.parents[i]).1 <= self.children.len()
        &&& forall|i: int, j: int|
            0 <= i <= j < self.parents.len() ==> (#[trigger] self.parents[i]).1 <= (
            #[trigger] self.parents[j]).1
    }

    /// The text the state stands for: what is in the tree, then what is to come.
    pub open spec fn text(self) -> Seq<char> {
        forest_text(self.children) + lexemes_text(self.tokens)
    }

    /// The text the state stands for where a token has been taken from the
    /// stream and not yet put into the tree.
    pub open spec fn text_with(self, held: Lexeme) -> Seq<char> {
        forest_text(self.children) + held.text + lexemes_text(self.tokens)
    }

    /// The whole text fits a tree, whose lengths are 32-bit.
    pub open spec fn fits(self) -> bool {
        byte_len(self.text()) <= u32::MAX
    }

    pub open spec fn fits_with(self, held: Lexeme) -> bool {
        byte_len(self.text_with(held)) <= u32::MAX
    }

    /// `self` comes after `before` in a parse that has closed every node it
    /// opened: the same nodes are open, no token came back, no text was lost.
    pub open spec fn follows(self, before: ParseState) -> bool {
        &&& self.wf()
        &&& self.parents == before.parents
        &&& self.tokens.len() <= before.tokens.len()
        &&& self.text() == before.text()
    }

    /// `self` follows `before`, and no finished tree was taken away.
    pub open spec fn grows(self, before: ParseState) -> bool {
        self.follows(before) && self.children.len() >= before.children.len()
    }

    /// As `follows`, where `before` held a token outside the stream.
    pub open spec fn absorbs(self, before: ParseState, held: Lexeme) -> bool {
        &&& self.wf()
        &&& self.parents == before.parents
        &&& self.tokens.len() <= before.tokens.len()
        &&& self.text() == before.text_with(held)
    }

    /// Whether the next token is of the given kind.
    pub open spec fn at(self, kind: crate::kind::TokenKind) -> bool {
        self.tokens.len() > 0 && self.tokens[0].kind == kind
    }

    /// A token goes into the tree as a leaf.
    pub open spec fn token(self, held: Lexeme) -> ParseState {
        ParseState {
            children: self.children.push(Tree::Token { kind: held.kind.raw(), text: held.text }),
            offset: self.offset + byte_len(held.text),
            ..self
        }
    }

    /// The next token leaves the stream.
    pub open spec fn pop(self) -> ParseState {
        ParseState { tokens: self.tokens.drop_first(), ..self }
    }

    /// The next token goes from the stream into the tree.
    pub open spec fn bump(self) -> ParseState {
        self.pop().token(self.tokens[0])
    }

    /// A node is opened behind the finished trees.
    pub open spec fn open(self, kind: NodeKind) -> ParseState {
        ParseState { parents: self.parents.push((kind.raw(), self.children.len())), ..self }
    }

    /// A node is opened in front of the finished trees from index `at` on.
    pub open spec fn open_at(self, at: nat, kind: NodeKind) -> ParseState {
        ParseState { parents: self.parents.push((kind.raw(), at)), ..self }
    }

    /// Whether a node may be opened at index `at`: not behind the finished
    /// trees, and not in front of the innermost open node.
    pub open spec fn marks(self, at: nat) -> bool {
        &&& at <= self.children.len()
        &&& self.parents.len() > 0 ==> self.parents.last().1 <= at
    }

    /// The innermost open node is closed over the trees finished since it
    /// was opened, and becomes one finished tree.
    pub open spec fn close(self) -> ParseState {
        let (kind, first) = self.parents.last();
        ParseState {
            parents: self.parents.drop_last(),
            children: self.children.take(first as int).push(
                Tree::Node { kind, children: self.children.skip(first as int) },
            ),
            ..self
        }
    }

    /// An error about the place that the parse has reached.
    pub open spec fn fault(self, message: Seq<char>) -> ParseState {
        ParseState {
            errors: self.errors.push(Fault { message, start: self.offset, end: self.offset }),
            ..self
        }
    }

    /// A token goes into the tree inside an error node of its own.
    pub open spec fn error_node(self, held: Lexeme) -> ParseState {
        self.open(NodeKind::Error).token(held).close()
    }
}

pub proof fn lemma_lexemes_text_step(tokens: Seq<Lexeme>)
    requires
        tokens.len() > 0,
    ensures
        lexemes_text(tokens) == tokens[0].text + lexemes_text(tokens.drop_first()),
{
}

/// The bytes of a text that a state stands for are those of the tree, of
/// the token that is held, and of the tokens to come.
pub proof fn lemma_text_bytes(st: ParseState, held: Lexeme)
    ensures
        byte_len(st.text_with(held)) == byte_len(forest_text(st.children)) + byte_len(held.text)
            + byte_len(lexemes_text(st.tokens)),
        byte_len(st.text()) == byte_len(forest_text(st.children)) + byte_len(
            lexemes_text(st.tokens),
        ),
{
    lemma_byte_len_concat(forest_text(st.children), held.text);
    lemma_byte_len_concat(forest_text(st.children) + held.text, lexemes_text(st.tokens));
    lemma_byte_len_concat(forest_text(st.children), lexemes_text(st.tokens));
}

/// A token that goes into the tree is no longer held: nothing else changes.
pub proof fn lemma_token(st: ParseState, held: Lexeme)
    requires
        st.wf(),
    ensures
        st.token(held).absorbs(st, held),
        st.token(held).children.len() == st.children.len() + 1,
        st.token(held).tokens == st.tokens,
        st.fits_with(held) ==> st.token(held).fits() && st.offset + byte_len(held.text)
            <= u32::MAX,
{
    let leaf = Tree::Token { kind: held.kind.raw(), text: held.text };
    lemma_forest_text_push(st.children, leaf);
    lemma_byte_len_concat(forest_text(st.children), held.text);
    lemma_text_bytes(st, held);
}

/// The token at the head of the stream is held once it is taken.
pub proof fn lemma_pop(st: ParseState)
    requires
        st.wf(),
        st.tokens.len() > 0,
    ensures
        st.pop().wf(),
        st.pop().text_with(st.tokens[0]) == st.text(),
        st.pop().tokens.len() == st.tokens.len() - 1,
        st.fits() ==> st.pop().fits_with(st.tokens[0]) && st.pop().fits(),
{
    lemma_lexemes_text_step(st.tokens);
    assert(st.pop().text_with(st.tokens[0]) =~= st.text());
    lemma_text_bytes(st.pop(), st.tokens[0]);
}

/// A token that goes from the stream into the tree: the same nodes are
/// open, there is one token less and one tree more, and no text is lost.
pub proof fn lemma_bump(st: ParseState)
    requires
        st.wf(),
        st.tokens.len() > 0,
    ensures
        st.bump().grows(st),
        st.bump().tokens.len() == st.tokens.len() - 1,
        st.bump().children.len() == st.children.len() + 1,
        st.fits() ==> st.bump().fits(),
{
    lemma_pop(st);
    lemma_token(st.pop(), st.tokens[0]);
}

/// A node may be opened behind the finished trees.
pub proof fn lemma_marks_end(st: ParseState)
    requires
        st.wf(),
    ensures
        st.marks(st.children.len()),
{
    if st.parents.len() > 0 {
        assert(st.parents[st.parents.len() - 1].1 <= st.children.len());
    }
}

pub proof fn lemma_open(st: ParseState, at: nat, kind: NodeKind)
    requires
        st.wf(),
        st.marks(at),
    ensures
        st.open_at(at, kind).wf(),
        st.open_at(at, kind).text() == st.text(),
        st.open(kind) == st.open_at(st.children.len(), kind),
        st.marks(st.children.len()),
{
    let after = st.open_at(at, kind);
    assert forall|i: int, j: int| 0 <= i <= j < after.parents.len() implies (
    #[trigger] after.parents[i]).1 <= (#[trigger] after.parents[j]).1 by {
        if j == st.parents.len() {
            if i < j {
                assert(st.parents[i].1 <= st.parents.last().1);
            }
        } else {
            assert(after.parents[i] == st.parents[i]);
            assert(after.parents[j] == st.parents[j]);
        }
    }
    assert forall|i: int| 0 <= i < after.parents.len() implies (#[trigger] after.parents[i]).1
        <= after.children.len() by {
        if i < st.parents.len() {
            assert(after.parents[i] == st.parents[i]);
        }
    }
}

/// Closing a node keeps the text, and what it closes over is part of it.
pub proof fn lemma_close(st: ParseState)
    requires
        st.wf(),
        st.parents.len() > 0,
    ensures
        st.close().wf(),
        st.close().text() == st.text(),
        st.close().parents == st.parents.drop_last(),
        st.close().children.len() == st.parents.last().1 + 1,
        st.parents.last().1 <= st.children.len(),
        byte_len(forest_text(st.children.skip(st.parents.last().1 as int))) <= byte_len(
            forest_text(st.children),
        ),
{
    let (kind, first) = st.parents.last();
    assert(st.parents[st.parents.len() - 1].1 <= st.children.len());
    let inner = st.children.skip(first as int);
    let node = Tree::Node { kind, children: inner };
    let after = st.close();
    lemma_forest_text_split(st.children, first as int);
    lemma_forest_text_push(st.children.take(first as int), node);
    assert(tree_text(node) == forest_text(inner));
    lemma_byte_len_concat(forest_text(st.children.take(first as int)), forest_text(inner));
    assert forall|i: int| 0 <= i < after.parents.len() implies (#[trigger] after.parents[i]).1
        <= after.children.len() by {
        assert(after.parents[i] == st.parents[i]);
        assert(st.parents[i].1 <= st.parents[st.parents.len() - 1].1);
    }
    assert forall|i: int, j: int| 0 <= i <= j < after.parents.len() implies (
    #[trigger] after.parents[i]).1 <= (#[trigger] after.parents[j]).1 by {
        assert(after.parents[i] == st.parents[i]);
        assert(after.parents[j] == st.parents[j]);
    }
}

/// A token in an error node of its own: the same nodes are open
/// afterwards, there is one more finished tree, and no text is lost.
pub proof fn lemma_error_node(st: ParseState, held: Lexeme)
    requires
        st.wf(),
    ensures
        st.error_node(held).absorbs(st, held),
        st.error_node(held).children.len() == st.children.len() + 1,
        st.error_node(held).tokens == st.tokens,
        st.fits_with(held) ==> st.error_node(held).fits(),
{
    lemma_marks_end(st);
    lemma_open(st, st.children.len(), NodeKind::Error);
    let opened = st.open(NodeKind::Error);
    lemma_token(opened, held);
    lemma_close(opened.token(held));
    assert(st.error_node(held).parents =~= st.parents);
}

} // verus!
