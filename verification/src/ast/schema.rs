use crate::ast::helpers::{filter_all, nodes_of_kind, places, AstNode};
use crate::ast::struct_decl::Struct;
use crate::green::tree_kind;
use crate::kind::{NodeKind, SyntaxKind};
use crate::syntax::{node_place, syntax_node_kind, Place};
use rowan::cursor::SyntaxNode;
use vstd::prelude::*;

verus! {

/// A view of the root of a document.
pub struct Schema(SyntaxNode);

impl Schema {
    #[verifier::type_invariant]
    spec fn inv(self) -> bool {
        &&& node_place(self.0).sound()
        &&& node_place(self.0).tree is Node
        &&& tree_kind(node_place(self.0).tree) == NodeKind::Root.raw()
    }
}

impl AstNode for Schema {
    open spec fn node_kind() -> NodeKind {
        NodeKind::Root
    }

    closed spec fn place(&self) -> Place {
        node_place(self.0)
    }

    fn can_cast(kind: SyntaxKind) -> (b: bool) {
        kind == SyntaxKind::Node(NodeKind::Root)
    }

    fn cast(node: SyntaxNode) -> (cast: Option<Self>) {
        if syntax_node_kind(&node) == NodeKind::Root.to_raw() {
            Some(Schema(node))
        } else {
            None
        }
    }

    fn syntax(&self) -> (node: &SyntaxNode) {
        proof {
            use_type_invariant(self);
        }
        &self.0
    }
}

/// A declaration of a document.
pub enum Declaration {
    Struct(Struct),
}

impl Declaration {
    /// What the declaration stands at.
    pub open spec fn place(self) -> Place {
        match self {
            Declaration::Struct(s) => s.place(),
        }
    }
}

/// What the declarations of a list stand at.
pub open spec fn declaration_places(declarations: Seq<Declaration>) -> Seq<Place> {
    Seq::new(declarations.len(), |i: int| declarations[i].place())
}

impl Schema {
    /// The declarations of the document: its children that are structs,
    /// in order.
    pub fn declarations(&self) -> (declarations: Vec<Declaration>)
        ensures
            declaration_places(declarations@) == nodes_of_kind(
                self.place(),
                NodeKind::Struct.raw(),
                self.place().arity(),
            ),
    {
        let structs = filter_all::<Struct>(self.syntax());
        let ghost items = structs@;
        let mut declarations: Vec<Declaration> = Vec::new();
        for s in it: structs
            invariant
                it.seq() == items,
                declarations@.len() == it.index(),
                forall|i: int|
                    0 <= i < declarations@.len() ==> (#[trigger] declarations@[i]).place()
                        == items[i].place(),
        {
            declarations.push(Declaration::Struct(s));
        }
        proof {
            assert(declaration_places(declarations@) =~= places(items));
        }
        declarations
    }
}

} // verus!
