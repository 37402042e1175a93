use crate::green::{
    forest_text, green_tree, lemma_forest_text_push, lemma_forest_text_split, tree_children,
    tree_kind, tree_text, Tree,
};
use crate::unicode::{byte_len, lemma_byte_len_concat};
use rowan::cursor::{SyntaxNode, SyntaxToken};
use std::ops::Range;
use vstd::prelude::*;

verus! {

/// rowan's cursor at a node of a tree.
#[verifier::external_type_specification]
#[verifier::external_body]
pub struct ExSyntaxNode(SyntaxNode);

/// rowan's cursor at a token of a tree.
#[verifier::external_type_specification]
#[verifier::external_body]
pub struct ExSyntaxToken(SyntaxToken);

/// What a cursor stands at: a tree, and where in the text it starts.
pub struct Place {
    pub tree: Tree,
    /// The byte offset in the text at which the tree begins.
    pub offset: nat,
    /// Whether the tree that the cursor walks cannot change while cursors
    /// stand in it.
    pub frozen: bool,
}

/// What a node cursor stands at.
pub uninterp spec fn node_place(n: SyntaxNode) -> Place;

/// What a token cursor stands at.
pub uninterp spec fn token_place(t: SyntaxToken) -> Place;

impl Place {
    /// The byte offset in the text at which the tree ends.
    pub open spec fn end(self) -> nat {
        self.offset + byte_len(tree_text(self.tree))
    }

    /// The tree cannot change and ends within 32-bit offsets.
    pub open spec fn sound(self) -> bool {
        self.frozen && self.end() <= u32::MAX
    }

    /// The place of a child: where the children before it end.
    pub open spec fn child(self, i: int) -> Place {
        Place {
            tree: tree_children(self.tree)[i],
            offset: self.offset + byte_len(forest_text(tree_children(self.tree).take(i))),
            frozen: self.frozen,
        }
    }

    /// Where the first `i` children end: where child `i` starts, and for
    /// `i` the number of children where the tree ends.
    pub open spec fn edge(self, i: int) -> nat {
        self.offset + byte_len(forest_text(tree_children(self.tree).take(i)))
    }

    /// How many children the tree has.
    pub open spec fn arity(self) -> nat {
        tree_children(self.tree).len()
    }
}

/// A child of a sound place is sound, and lies within it.
pub proof fn lemma_child_sound(parent: Place, i: int)
    requires
        parent.sound(),
        0 <= i < parent.arity(),
    ensures
        parent.child(i).sound(),
        parent.offset <= parent.child(i).offset,
        parent.child(i).end() <= parent.end(),
{
    let children = tree_children(parent.tree);
    lemma_forest_text_split(children, i + 1);
    lemma_byte_len_concat(forest_text(children.take(i + 1)), forest_text(children.skip(i + 1)));
    assert(children.take(i + 1) =~= children.take(i).push(children[i]));
    lemma_forest_text_push(children.take(i), children[i]);
    lemma_byte_len_concat(forest_text(children.take(i)), tree_text(children[i]));
}

/// The children of a node lie one behind the other, from the start of the
/// node to its end.
pub proof fn lemma_child_edges(parent: Place, i: int)
    requires
        parent.tree is Node,
        0 <= i < parent.arity(),
    ensures
        parent.child(i).offset == parent.edge(i),
        parent.child(i).end() == parent.edge(i + 1),
        parent.edge(i) <= parent.edge(i + 1) <= parent.end(),
        parent.edge(0) == parent.offset,
        parent.edge(parent.arity() as int) == parent.end(),
{
    let children = tree_children(parent.tree);
    lemma_forest_text_split(children, i + 1);
    lemma_byte_len_concat(forest_text(children.take(i + 1)), forest_text(children.skip(i + 1)));
    assert(children.take(i + 1) =~= children.take(i).push(children[i]));
    lemma_forest_text_push(children.take(i), children[i]);
    lemma_byte_len_concat(forest_text(children.take(i)), tree_text(children[i]));
    assert(children.take(0) =~= Seq::<Tree>::empty());
    crate::green::lemma_forest_text_empty();
    crate::unicode::lemma_byte_len_empty();
    assert(children.take(children.len() as int) =~= children);
}

/// A child of a node: a node or a token.
pub enum SyntaxElement {
    Node(SyntaxNode),
    Token(SyntaxToken),
}

impl SyntaxElement {
    pub open spec fn place(self) -> Place {
        match self {
            SyntaxElement::Node(node) => node_place(node),
            SyntaxElement::Token(token) => token_place(token),
        }
    }
}

/// `SyntaxNode::new_root`: a cursor at the root of a tree, which starts at
/// offset 0. The tree it walks cannot change.
#[verifier::external_body]
pub(crate) fn syntax_root(green: rowan::GreenNode) -> (root: SyntaxNode)
    ensures
        node_place(root) == (Place { tree: green_tree(green), offset: 0, frozen: true }),
{
    SyntaxNode::new_root(green)
}

/// `SyntaxNode::kind`: the raw kind of the node that the cursor stands at.
#[verifier::external_body]
pub(crate) fn syntax_node_kind(node: &SyntaxNode) -> (raw: u16)
    requires
        node_place(*node).frozen,
    ensures
        node_place(*node).tree == (Tree::Node {
            kind: raw,
            children: tree_children(node_place(*node).tree),
        }),
{
    node.kind().0
}

/// `SyntaxNode::children_with_tokens`, gathered into a vector: a cursor
/// at each child of the node, in order. Each starts where the children
/// before it end, which rowan reckons in 32 bits.
#[verifier::external_body]
pub(crate) fn syntax_children(node: &SyntaxNode) -> (kids: Vec<SyntaxElement>)
    requires
        node_place(*node).sound(),
    ensures
        kids@.len() == node_place(*node).arity(),
        forall|i: int|
            0 <= i < kids@.len() ==> (#[trigger] kids@[i]).place() == node_place(*node).child(i),
        forall|i: int|
            0 <= i < kids@.len() ==> ((#[trigger] kids@[i]) is Node) == (tree_children(
                node_place(*node).tree,
            )[i] is Node),
{
    node.children_with_tokens().map(
        |child| match child {
            rowan::NodeOrToken::Node(n) => SyntaxElement::Node(n),
            rowan::NodeOrToken::Token(t) => SyntaxElement::Token(t),
        },
    ).collect()
}

/// `SyntaxToken::kind`: the raw kind of the token that the cursor stands at.
#[verifier::external_body]
pub(crate) fn syntax_token_kind(token: &SyntaxToken) -> (raw: u16)
    requires
        token_place(*token).frozen,
    ensures
        token_place(*token).tree == (Tree::Token {
            kind: raw,
            text: tree_text(token_place(*token).tree),
        }),
{
    token.kind().0
}

/// `SyntaxToken::text`: the text of the token that the cursor stands at.
#[verifier::external_body]
pub(crate) fn syntax_token_text(token: &SyntaxToken) -> (text: &str)
    requires
        token_place(*token).frozen,
    ensures
        token_place(*token).tree == (Tree::Token {
            kind: tree_kind(token_place(*token).tree),
            text: text@,
        }),
{
    token.text()
}

/// `SyntaxToken::text_range`, as a range of `usize`: the bytes of the
/// text that the token covers, which rowan reckons in 32 bits.
#[verifier::external_body]
pub(crate) fn syntax_token_range(token: &SyntaxToken) -> (range: Range<usize>)
    requires
        token_place(*token).sound(),
    ensures
        range.start == token_place(*token).offset,
        range.end == token_place(*token).end(),
{
    let range = token.text_range();
    usize::from(range.start())..usize::from(range.end())
}

/// The children of a node, each a sound place within the node.
pub fn children_of(node: &SyntaxNode) -> (kids: Vec<SyntaxElement>)
    requires
        node_place(*node).sound(),
    ensures
        kids@.len() == node_place(*node).arity(),
        forall|i: int|
            0 <= i < kids@.len() ==> (#[trigger] kids@[i]).place() == node_place(*node).child(i)
                && kids@[i].place().sound() && (kids@[i] is Node) == (kids@[i].place().tree
                is Node),
{
    let kids = syntax_children(node);
    proof {
        assert forall|i: int| 0 <= i < kids@.len() implies (#[trigger] kids@[i]).place().sound()
            && (kids@[i] is Node) == (kids@[i].place().tree is Node) by {
            lemma_child_sound(node_place(*node), i);
        }
    }
    kids
}

} // verus!
