use crate::ast::helpers::{
    filter_all, find_of, first_node_of_kind, first_token_of_kind, first_token_where, name_of,
    nodes_of_kind, places, AstNode, AstToken, HasName, OfKind,
};
use crate::ast::ident::Ident;
use crate::ast::ty::Type;
use crate::green::tree_kind;
use crate::kind::{NodeKind, SyntaxKind, TokenKind};
use crate::syntax::{node_place, syntax_node_kind, token_place, Place};
use rowan::cursor::{SyntaxNode, SyntaxToken};
use vstd::prelude::*;

verus! {

/// A view of a struct declaration.
pub struct Struct(SyntaxNode);

impl Struct {
    #[verifier::type_invariant]
    spec fn inv(self) -> bool {
        &&& node_place(self.0).sound()
        &&& node_place(self.0).tree is Node
        &&& tree_kind(node_place(self.0).tree) == NodeKind::Struct.raw()
    }

    /// The fields of the struct: its children that are fields, in order.
    pub fn fields(&self) -> (fields: Vec<StructField>)
        ensures
            places(fields@) == nodes_of_kind(
                self.place(),
                NodeKind::StructField.raw(),
                self.place().arity(),
            ),
    {
        filter_all::<StructField>(self.syntax())
    }
}

impl AstNode for Struct {
    open spec fn node_kind() -> NodeKind {
        NodeKind::Struct
    }

    closed spec fn place(&self) -> Place {
        node_place(self.0)
    }

    fn can_cast(kind: SyntaxKind) -> (b: bool) {
        kind == SyntaxKind::Node(NodeKind::Struct)
    }

    fn cast(node: SyntaxNode) -> (cast: Option<Self>) {
        if syntax_node_kind(&node) == NodeKind::Struct.to_raw() {
            Some(Struct(node))
        } else {
            None
        }
    }

    fn syntax(&self) -> (node: &SyntaxNode) {
        proof {
            use_type_invariant(self);
        }
        &self.0
    }
}

impl HasName for Struct {
    fn name(&self) -> (name: Option<Ident>) {
        name_of(self.syntax())
    }
}

/// A view of a field of a struct.
pub struct StructField(SyntaxNode);

impl StructField {
    #[verifier::type_invariant]
    spec fn inv(self) -> bool {
        &&& node_place(self.0).sound()
        &&& node_place(self.0).tree is Node
        &&& tree_kind(node_place(self.0).tree) == NodeKind::StructField.raw()
    }

    /// The type of the field: its first child that is a type.
    pub fn ty(&self) -> (ty: Option<Type>)
        ensures
            ty is Some == first_node_of_kind(
                self.place(),
                NodeKind::Type.raw(),
                self.place().arity(),
            ) is Some,
            ty matches Some(view) ==> Some(view.place()) == first_node_of_kind(
                self.place(),
                NodeKind::Type.raw(),
                self.place().arity(),
            ),
    {
        find_of::<Type>(self.syntax())
    }

    /// The mark that makes the field optional: its first child that is a
    /// `?`, if it has one.
    pub fn is_optional(&self) -> (mark: Option<SyntaxToken>)
        ensures
            mark is Some == first_token_where(
                self.place(),
                OfKind(TokenKind::Question),
                self.place().arity(),
            ) is Some,
            mark matches Some(token) ==> Some(token_place(token)) == first_token_where(
                self.place(),
                OfKind(TokenKind::Question),
                self.place().arity(),
            ),
    {
        first_token_of_kind(self.syntax(), TokenKind::Question)
    }
}

impl AstNode for StructField {
    open spec fn node_kind() -> NodeKind {
        NodeKind::StructField
    }

    closed spec fn place(&self) -> Place {
        node_place(self.0)
    }

    fn can_cast(kind: SyntaxKind) -> (b: bool) {
        kind == SyntaxKind::Node(NodeKind::StructField)
    }

    fn cast(node: SyntaxNode) -> (cast: Option<Self>) {
        if syntax_node_kind(&node) == NodeKind::StructField.to_raw() {
            Some(StructField(node))
        } else {
            None
        }
    }

    fn syntax(&self) -> (node: &SyntaxNode) {
        proof {
            use_type_invariant(self);
        }
        &self.0
    }
}

impl HasName for StructField {
    fn name(&self) -> (name: Option<Ident>) {
        name_of(self.syntax())
    }
}

} // verus!
