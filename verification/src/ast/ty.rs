use crate::ast::helpers::{
    filter_all, find_of, first_node_of_kind, name_of, nodes_of_kind, places, AstNode, HasName,
};
use crate::ast::ident::Ident;
use crate::green::tree_kind;
use crate::kind::{NodeKind, SyntaxKind};
use crate::syntax::{node_place, syntax_node_kind, Place};
use rowan::cursor::SyntaxNode;
use vstd::prelude::*;

verus! {

/// A view of a type.
pub struct Type(SyntaxNode);

impl Type {
    #[verifier::type_invariant]
    spec fn inv(self) -> bool {
        &&& node_place(self.0).sound()
        &&& node_place(self.0).tree is Node
        &&& tree_kind(node_place(self.0).tree) == NodeKind::Type.raw()
    }

    /// The list of the type's arguments: its first child that is such a
    /// list, if it has one.
    pub fn type_arguments(&self) -> (list: Option<TypeArguments>)
        ensures
            list is Some == first_node_of_kind(
                self.place(),
                NodeKind::TypeArguments.raw(),
                self.place().arity(),
            ) is Some,
            list matches Some(view) ==> Some(view.place()) == first_node_of_kind(
                self.place(),
                NodeKind::TypeArguments.raw(),
                self.place().arity(),
            ),
    {
        find_of::<TypeArguments>(self.syntax())
    }
}

impl AstNode for Type {
    open spec fn node_kind() -> NodeKind {
        NodeKind::Type
    }

    closed spec fn place(&self) -> Place {
        node_place(self.0)
    }

    fn can_cast(kind: SyntaxKind) -> (b: bool) {
        kind == SyntaxKind::Node(NodeKind::Type)
    }

    fn cast(node: SyntaxNode) -> (cast: Option<Self>) {
        if syntax_node_kind(&node) == NodeKind::Type.to_raw() {
            Some(Type(node))
        } else {
            None
        }
    }

    fn syntax(&self) -> (node: &SyntaxNode) {
        proof {
            use_type_invariant(self);
        }
        &self.0
    }
}

impl HasName for Type {
    fn name(&self) -> (name: Option<Ident>) {
        name_of(self.syntax())
    }
}

/// A view of the list of a type's arguments, with its angle brackets.
pub struct TypeArguments(SyntaxNode);

impl TypeArguments {
    #[verifier::type_invariant]
    spec fn inv(self) -> bool {
        &&& node_place(self.0).sound()
        &&& node_place(self.0).tree is Node
        &&& tree_kind(node_place(self.0).tree) == NodeKind::TypeArguments.raw()
    }

    /// The arguments: the children of the list that are types, in order.
    pub fn types(&self) -> (types: Vec<Type>)
        ensures
            places(types@) == nodes_of_kind(
                self.place(),
                NodeKind::Type.raw(),
                self.place().arity(),
            ),
    {
        filter_all::<Type>(self.syntax())
    }
}

impl AstNode for TypeArguments {
    open spec fn node_kind() -> NodeKind {
        NodeKind::TypeArguments
    }

    closed spec fn place(&self) -> Place {
        node_place(self.0)
    }

    fn can_cast(kind: SyntaxKind) -> (b: bool) {
        kind == SyntaxKind::Node(NodeKind::TypeArguments)
    }

    fn cast(node: SyntaxNode) -> (cast: Option<Self>) {
        if syntax_node_kind(&node) == NodeKind::TypeArguments.to_raw() {
            Some(TypeArguments(node))
        } else {
            None
        }
    }

    fn syntax(&self) -> (node: &SyntaxNode) {
        proof {
            use_type_invariant(self);
        }
        &self.0
    }
}

} // verus!
