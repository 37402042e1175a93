use crate::ast::ident::Ident;
use crate::green::{tree_kind, tree_text, Tree};
use crate::kind::{NodeKind, SyntaxKind, TokenKind};
use crate::syntax::{
    children_of, node_place, syntax_token_kind, syntax_token_text, token_place, Place,
    SyntaxElement,
};
use crate::unicode::str_eq;
use rowan::cursor::{SyntaxNode, SyntaxToken};
use vstd::prelude::*;

verus! {

/// A typed view of the nodes of one kind.
pub trait AstNode: Sized {
    /// The kind of the nodes that the view is of.
    spec fn node_kind() -> NodeKind;

    /// What the view stands at.
    spec fn place(&self) -> Place;

    fn can_cast(kind: SyntaxKind) -> (b: bool)
        ensures
            b == (kind == SyntaxKind::Node(Self::node_kind())),
    ;

    /// The view of a node, if the node is of the view's kind.
    fn cast(node: SyntaxNode) -> (cast: Option<Self>)
        requires
            node_place(node).sound(),
        ensures
            cast is Some == (tree_kind(node_place(node).tree) == Self::node_kind().raw()),
            cast matches Some(view) ==> view.place() == node_place(node),
    ;

    /// The node that the view is of.
    fn syntax(&self) -> (node: &SyntaxNode)
        ensures
            node_place(*node) == self.place(),
            node_place(*node).sound(),
            node_place(*node).tree is Node,
            tree_kind(node_place(*node).tree) == Self::node_kind().raw(),
    ;
}

/// A typed view of the tokens of one kind.
pub trait AstToken: Sized {
    /// The kind of the tokens that the view is of.
    spec fn token_kind() -> TokenKind;

    /// What the view stands at.
    spec fn place(&self) -> Place;

    fn kind() -> (kind: TokenKind)
        ensures
            kind == Self::token_kind(),
    ;

    fn new(token: SyntaxToken) -> (view: Self)
        requires
            token_place(token).sound(),
            token_place(token).tree is Token,
            tree_kind(token_place(token).tree) == Self::token_kind().raw(),
        ensures
            view.place() == token_place(token),
    ;
}

/// A yes-or-no question about a token of a tree.
pub trait TokenMatch {
    spec fn accepts(&self, token: Tree) -> bool;

    fn test(&self, token: &SyntaxToken) -> (b: bool)
        requires
            token_place(*token).sound(),
        ensures
            b == self.accepts(token_place(*token).tree),
    ;
}

/// Accepts the tokens of one kind.
pub struct OfKind(pub TokenKind);

impl TokenMatch for OfKind {
    open spec fn accepts(&self, token: Tree) -> bool {
        tree_kind(token) == self.0.raw()
    }

    fn test(&self, token: &SyntaxToken) -> (b: bool) {
        syntax_token_kind(token) == self.0.to_raw()
    }
}

/// Accepts the identifiers that can be names: all but the word `struct`.
pub struct NameToken;

impl TokenMatch for NameToken {
    open spec fn accepts(&self, token: Tree) -> bool {
        tree_kind(token) == TokenKind::Ident.raw() && tree_text(token) != "struct"@
    }

    fn test(&self, token: &SyntaxToken) -> (b: bool) {
        syntax_token_kind(token) == TokenKind::Ident.to_raw() && !str_eq(
            syntax_token_text(token),
            "struct",
        )
    }
}

/// What the views of a list stand at.
pub open spec fn places<T: AstNode>(views: Seq<T>) -> Seq<Place> {
    Seq::new(views.len(), |i: int| views[i].place())
}

/// Among the first `n` children of a place, those that are nodes of the
/// given kind, in order.
pub open spec fn nodes_of_kind(parent: Place, kind: u16, n: nat) -> Seq<Place>
    decreases n,
{
    if n == 0 {
        Seq::empty()
    } else {
        let before = nodes_of_kind(parent, kind, (n - 1) as nat);
        let child = parent.child(n - 1);
        if child.tree is Node && tree_kind(child.tree) == kind {
            before.push(child)
        } else {
            before
        }
    }
}

/// Among the first `n` children of a place, the first that is a node of
/// the given kind.
pub open spec fn first_node_of_kind(parent: Place, kind: u16, n: nat) -> Option<Place>
    decreases n,
{
    if n == 0 {
        None
    } else {
        let before = first_node_of_kind(parent, kind, (n - 1) as nat);
        let child = parent.child(n - 1);
        if before is Some {
            before
        } else if child.tree is Node && tree_kind(child.tree) == kind {
            Some(child)
        } else {
            None
        }
    }
}

/// Among the first `n` children of a place, the first that is a token
/// that the test accepts.
pub open spec fn first_token_where<P: TokenMatch>(parent: Place, test: P, n: nat) -> Option<
    Place,
>
    decreases n,
{
    if n == 0 {
        None
    } else {
        let before = first_token_where(parent, test, (n - 1) as nat);
        let child = parent.child(n - 1);
        if before is Some {
            before
        } else if child.tree is Token && test.accepts(child.tree) {
            Some(child)
        } else {
            None
        }
    }
}

pub proof fn lemma_first_node_stays(parent: Place, kind: u16, i: nat, n: nat)
    requires
        i <= n,
        first_node_of_kind(parent, kind, i) is Some,
    ensures
        first_node_of_kind(parent, kind, n) == first_node_of_kind(parent, kind, i),
    decreases n,
{
    if i < n {
        lemma_first_node_stays(parent, kind, i, (n - 1) as nat);
    }
}

pub proof fn lemma_first_token_stays<P: TokenMatch>(parent: Place, test: P, i: nat, n: nat)
    requires
        i <= n,
        first_token_where(parent, test, i) is Some,
    ensures
        first_token_where(parent, test, n) == first_token_where(parent, test, i),
    decreases n,
{
    if i < n {
        lemma_first_token_stays(parent, test, i, (n - 1) as nat);
    }
}

/// The children of a node that are of the view's kind, as views, in order.
pub fn filter_all<T: AstNode>(node: &SyntaxNode) -> (views: Vec<T>)
    requires
        node_place(*node).sound(),
    ensures
        places(views@) == nodes_of_kind(
            node_place(*node),
            T::node_kind().raw(),
            node_place(*node).arity(),
        ),
{
    let kids = children_of(node);
    let ghost parent = node_place(*node);
    let ghost items = kids@;
    let mut views: Vec<T> = Vec::new();
    proof {
        assert(places(views@) =~= nodes_of_kind(parent, T::node_kind().raw(), 0));
    }
    for kid in it: kids
        invariant
            it.seq() == items,
            items.len() == parent.arity(),
            forall|i: int|
                0 <= i < items.len() ==> (#[trigger] items[i]).place() == parent.child(i)
                    && items[i].place().sound() && (items[i] is Node) == (items[i].place().tree
                    is Node),
            places(views@) == nodes_of_kind(parent, T::node_kind().raw(), it.index() as nat),
    {
        let ghost before = views@;
        assert(kid == items[it.index() as int]);
        match kid {
            SyntaxElement::Node(inner) => {
                match T::cast(inner) {
                    Some(view) => {
                        views.push(view);
                        proof {
                            assert(places(views@) =~= places(before).push(view.place()));
                        }
                    },
                    None => {},
                }
            },
            SyntaxElement::Token(_) => {},
        }
    }
    views
}

/// The first child of a node that is of the view's kind, as a view.
pub fn find_of<T: AstNode>(node: &SyntaxNode) -> (found: Option<T>)
    requires
        node_place(*node).sound(),
    ensures
        found is Some == first_node_of_kind(
            node_place(*node),
            T::node_kind().raw(),
            node_place(*node).arity(),
        ) is Some,
        found matches Some(view) ==> Some(view.place()) == first_node_of_kind(
            node_place(*node),
            T::node_kind().raw(),
            node_place(*node).arity(),
        ),
{
    let kids = children_of(node);
    let ghost parent = node_place(*node);
    let ghost items = kids@;
    for kid in it: kids
        invariant
            it.seq() == items,
            items.len() == parent.arity(),
            parent == node_place(*node),
            forall|i: int|
                0 <= i < items.len() ==> (#[trigger] items[i]).place() == parent.child(i)
                    && items[i].place().sound() && (items[i] is Node) == (items[i].place().tree
                    is Node),
            first_node_of_kind(parent, T::node_kind().raw(), it.index() as nat) is None,
    {
        assert(kid == items[it.index() as int]);
        match kid {
            SyntaxElement::Node(inner) => {
                match T::cast(inner) {
                    Some(view) => {
                        proof {
                            lemma_first_node_stays(
                                parent,
                                T::node_kind().raw(),
                                (it.index() + 1) as nat,
                                parent.arity(),
                            );
                        }
                        return Some(view);
                    },
                    None => {},
                }
            },
            SyntaxElement::Token(_) => {},
        }
    }
    None
}

/// The first child of a node that is a token that the test accepts.
pub fn first_token_matching<P: TokenMatch>(node: &SyntaxNode, predicate: &P) -> (found: Option<
    SyntaxToken,
>)
    requires
        node_place(*node).sound(),
    ensures
        found is Some == first_token_where(node_place(*node), *predicate, node_place(*node).arity())
            is Some,
        found matches Some(token) ==> Some(token_place(token)) == first_token_where(
            node_place(*node),
            *predicate,
            node_place(*node).arity(),
        ) && token_place(token).sound() && token_place(token).tree is Token
            && predicate.accepts(token_place(token).tree),
{
    let kids = children_of(node);
    let ghost parent = node_place(*node);
    let ghost items = kids@;
    for kid in it: kids
        invariant
            it.seq() == items,
            items.len() == parent.arity(),
            parent == node_place(*node),
            forall|i: int|
                0 <= i < items.len() ==> (#[trigger] items[i]).place() == parent.child(i)
                    && items[i].place().sound() && (items[i] is Node) == (items[i].place().tree
                    is Node),
            first_token_where(parent, *predicate, it.index() as nat) is None,
    {
        assert(kid == items[it.index() as int]);
        match kid {
            SyntaxElement::Node(_) => {},
            SyntaxElement::Token(token) => {
                if predicate.test(&token) {
                    proof {
                        lemma_first_token_stays(
                            parent,
                            *predicate,
                            (it.index() + 1) as nat,
                            parent.arity(),
                        );
                    }
                    return Some(token);
                }
            },
        }
    }
    None
}

/// The first child of a node that is a token of the given kind.
pub fn first_token_of_kind(node: &SyntaxNode, kind: TokenKind) -> (found: Option<SyntaxToken>)
    requires
        node_place(*node).sound(),
    ensures
        found is Some == first_token_where(
            node_place(*node),
            OfKind(kind),
            node_place(*node).arity(),
        ) is Some,
        found matches Some(token) ==> Some(token_place(token)) == first_token_where(
            node_place(*node),
            OfKind(kind),
            node_place(*node).arity(),
        ) && token_place(token).sound() && token_place(token).tree is Token && tree_kind(
            token_place(token).tree,
        ) == kind.raw(),
{
    let test = OfKind(kind);
    first_token_matching(node, &test)
}

/// The first child of a node that is a token of the view's kind, as a view.
pub fn first_token_of<T: AstToken>(node: &SyntaxNode) -> (found: Option<T>)
    requires
        node_place(*node).sound(),
    ensures
        found is Some == first_token_where(
            node_place(*node),
            OfKind(T::token_kind()),
            node_place(*node).arity(),
        ) is Some,
        found matches Some(view) ==> Some(view.place()) == first_token_where(
            node_place(*node),
            OfKind(T::token_kind()),
            node_place(*node).arity(),
        ),
{
    match first_token_of_kind(node, T::kind()) {
        Some(token) => Some(T::new(token)),
        None => None,
    }
}

/// A view of a node that has a name.
pub trait HasName: AstNode {
    /// The name: the first child that is an identifier other than the
    /// word `struct`.
    fn name(&self) -> (name: Option<Ident>)
        ensures
            name is Some == first_token_where(self.place(), NameToken, self.place().arity())
                is Some,
            name matches Some(ident) ==> Some(ident.place()) == first_token_where(
                self.place(),
                NameToken,
                self.place().arity(),
            ),
    ;
}

/// The name of a node: see `HasName::name`.
pub fn name_of(node: &SyntaxNode) -> (name: Option<Ident>)
    requires
        node_place(*node).sound(),
    ensures
        name is Some == first_token_where(node_place(*node), NameToken, node_place(*node).arity())
            is Some,
        name matches Some(ident) ==> Some(ident.place()) == first_token_where(
            node_place(*node),
            NameToken,
            node_place(*node).arity(),
        ),
{
    let test = NameToken;
    match first_token_matching(node, &test) {
        Some(token) => Some(Ident::new(token)),
        None => None,
    }
}

} // verus!
