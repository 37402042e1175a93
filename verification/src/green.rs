use crate::unicode::byte_len;
use vstd::prelude::*;

verus! {

/// The shape of a syntax tree: what it holds, apart from where it is stored.
pub enum Tree {
    Token { kind: u16, text: Seq<char> },
    Node { kind: u16, children: Seq<Tree> },
}

/// The text that a tree covers: the texts of its leaves, in order.
pub open spec fn tree_text(t: Tree) -> Seq<char>
    decreases t,
{
    match t {
        Tree::Token { text, .. } => text,
        Tree::Node { children, .. } => forest_text(children),
    }
}

/// The text that a sequence of trees covers.
pub open spec fn forest_text(f: Seq<Tree>) -> Seq<char>
    decreases f,
{
    if f.len() == 0 {
        Seq::empty()
    } else {
        forest_text(f.drop_last()) + tree_text(f.last())
    }
}

/// The raw kind of a tree.
pub open spec fn tree_kind(t: Tree) -> u16 {
    match t {
        Tree::Token { kind, .. } => kind,
        Tree::Node { kind, .. } => kind,
    }
}

/// The children of a tree: those of a node, none of a token.
pub open spec fn tree_children(t: Tree) -> Seq<Tree> {
    match t {
        Tree::Token { .. } => Seq::empty(),
        Tree::Node { children, .. } => children,
    }
}

pub proof fn lemma_forest_text_empty()
    ensures
        forest_text(Seq::<Tree>::empty()) == Seq::<char>::empty(),
{
}

pub proof fn lemma_forest_text_push(f: Seq<Tree>, t: Tree)
    ensures
        forest_text(f.push(t)) == forest_text(f) + tree_text(t),
{
    assert(f.push(t).drop_last() =~= f);
}

/// The text of two sequences of trees, one after the other, is the text of
/// the first followed by the text of the second.
pub proof fn lemma_forest_text_concat(a: Seq<Tree>, b: Seq<Tree>)
    ensures
        forest_text(a + b) == forest_text(a) + forest_text(b),
    decreases b.len(),
{
    if b.len() == 0 {
        assert(a + b =~= a);
        assert(forest_text(a) + forest_text(b) =~= forest_text(a));
    } else {
        assert((a + b).drop_last() =~= a + b.drop_last());
        assert((a + b).last() == b.last());
        lemma_forest_text_concat(a, b.drop_last());
        assert(forest_text(a) + (forest_text(b.drop_last()) + tree_text(b.last())) =~= (forest_text(
            a,
        ) + forest_text(b.drop_last())) + tree_text(b.last()));
    }
}

pub proof fn lemma_forest_text_split(f: Seq<Tree>, k: int)
    requires
        0 <= k <= f.len(),
    ensures
        forest_text(f) == forest_text(f.take(k)) + forest_text(f.skip(k)),
{
    assert(f =~= f.take(k) + f.skip(k));
    lemma_forest_text_concat(f.take(k), f.skip(k));
}

/// rowan's store of tree storage, through which builders share equal
/// subtrees.
#[verifier::external_type_specification]
#[verifier::external_body]
pub struct ExNodeCache(rowan::NodeCache);

/// rowan's handle on an immutable tree.
#[verifier::external_type_specification]
#[verifier::external_body]
pub struct ExGreenNode(rowan::GreenNode);

/// rowan's mark in a builder's list of finished trees.
#[verifier::external_type_specification]
#[verifier::external_body]
pub struct ExCheckpoint(rowan::Checkpoint);

/// rowan's builder of trees.
#[verifier::external_type_specification]
#[verifier::external_body]
pub struct ExGreenNodeBuilder<'cache>(rowan::GreenNodeBuilder<'cache>);

/// The trees that a builder has finished and not yet put under a node,
/// in the order in which they were finished.
pub uninterp spec fn builder_children(b: rowan::GreenNodeBuilder) -> Seq<Tree>;

/// The nodes that a builder has open, outermost first: each with its raw
/// kind and the index, among the finished trees, of its first child.
pub uninterp spec fn builder_parents(b: rowan::GreenNodeBuilder) -> Seq<(u16, nat)>;

/// The number of finished trees that a mark stands behind.
pub uninterp spec fn checkpoint_index(c: rowan::Checkpoint) -> nat;

/// The shape of the tree that a handle is a handle on.
pub uninterp spec fn green_tree(n: rowan::GreenNode) -> Tree;

/// `GreenNodeBuilder::with_cache`: a builder that has finished nothing
/// and has no node open. It builds through the given cache for as long
/// as it lives.
#[verifier::external_body]
pub(crate) fn builder_with_cache<'c>(cache: &'c mut rowan::NodeCache) -> (b:
    rowan::GreenNodeBuilder<'c>)
    ensures
        builder_children(b) == Seq::<Tree>::empty(),
        builder_parents(b) == Seq::<(u16, nat)>::empty(),
{
    rowan::GreenNodeBuilder::with_cache(cache)
}

/// `GreenNodeBuilder::token`: a token with the given kind and text is
/// added behind the finished trees. The open nodes stay as they are.
#[verifier::external_body]
pub(crate) fn builder_token(b: &mut rowan::GreenNodeBuilder, kind: u16, text: &str)
    ensures
        builder_children(*final(b)) == builder_children(*old(b)).push(
            Tree::Token { kind, text: text@ },
        ),
        builder_parents(*final(b)) == builder_parents(*old(b)),
{
    b.token(rowan::SyntaxKind(kind), text)
}

/// `GreenNodeBuilder::start_node`: a node of the given kind is opened,
/// whose first child will be the next tree to be finished.
#[verifier::external_body]
pub(crate) fn builder_start_node(b: &mut rowan::GreenNodeBuilder, kind: u16)
    ensures
        builder_children(*final(b)) == builder_children(*old(b)),
        builder_parents(*final(b)) == builder_parents(*old(b)).push(
            (kind, builder_children(*old(b)).len()),
        ),
{
    b.start_node(rowan::SyntaxKind(kind))
}

/// `GreenNodeBuilder::finish_node`: the innermost open node is closed.
/// The trees finished from its first child on become its children, and it
/// takes their place as one finished tree. It panics where no node is
/// open or the first child lies behind the finished trees, and it adds up
/// the byte lengths of the children in 32 bits.
#[verifier::external_body]
pub(crate) fn builder_finish_node(b: &mut rowan::GreenNodeBuilder)
    requires
        builder_parents(*old(b)).len() > 0,
        builder_parents(*old(b)).last().1 <= builder_children(*old(b)).len(),
        byte_len(
            forest_text(
                builder_children(*old(b)).skip(builder_parents(*old(b)).last().1 as int),
            ),
        ) <= u32::MAX,
    ensures
        builder_parents(*final(b)) == builder_parents(*old(b)).drop_last(),
        builder_children(*final(b)) == builder_children(*old(b)).take(
            builder_parents(*old(b)).last().1 as int,
        ).push(
            Tree::Node {
                kind: builder_parents(*old(b)).last().0,
                children: builder_children(*old(b)).skip(
                    builder_parents(*old(b)).last().1 as int,
                ),
            },
        ),
{
    b.finish_node()
}

/// `GreenNodeBuilder::finish`: hands out the one finished tree. It panics
/// unless exactly one tree is finished and that tree is a node.
#[verifier::external_body]
pub(crate) fn builder_finish(b: rowan::GreenNodeBuilder) -> (n: rowan::GreenNode)
    requires
        builder_children(b).len() == 1,
        builder_children(b)[0] is Node,
    ensures
        green_tree(n) == builder_children(b)[0],
{
    b.finish()
}

/// `GreenNodeBuilder::checkpoint`: a mark behind the trees that are
/// finished now.
#[verifier::external_body]
pub(crate) fn builder_checkpoint(b: &rowan::GreenNodeBuilder) -> (c: rowan::Checkpoint)
    ensures
        checkpoint_index(c) == builder_children(*b).len(),
{
    b.checkpoint()
}

/// `GreenNodeBuilder::start_node_at`: a node of the given kind is opened,
/// whose first child is the tree that was finished first after the mark
/// was made. It panics where the mark stands behind the finished trees
/// or in front of the first child of the innermost open node.
#[verifier::external_body]
pub(crate) fn builder_start_node_at(
    b: &mut rowan::GreenNodeBuilder,
    c: rowan::Checkpoint,
    kind: u16,
)
    requires
        checkpoint_index(c) <= builder_children(*old(b)).len(),
        builder_parents(*old(b)).len() > 0 ==> builder_parents(*old(b)).last().1
            <= checkpoint_index(c),
    ensures
        builder_children(*final(b)) == builder_children(*old(b)),
        builder_parents(*final(b)) == builder_parents(*old(b)).push((kind, checkpoint_index(c))),
{
    b.start_node_at(c, rowan::SyntaxKind(kind))
}

/// `NodeCache::default`: a cache that holds nothing yet.
#[verifier::external_body]
pub(crate) fn new_node_cache() -> rowan::NodeCache {
    rowan::NodeCache::default()
}

/// `GreenNode::clone`: another handle on the same tree.
#[verifier::external_body]
pub(crate) fn green_clone(node: &rowan::GreenNode) -> (copy: rowan::GreenNode)
    ensures
        green_tree(copy) == green_tree(*node),
{
    node.clone()
}

} // verus!
