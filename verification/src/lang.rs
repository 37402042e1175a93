use crate::kind::{lemma_kind_round_trip, SyntaxKind, TokenKind};
use vstd::prelude::*;

verus! {

/// The language whose trees this library builds. It says how the kinds
/// of the language are kept in a tree, and holds nothing.
#[derive(Debug, Clone, Copy, PartialEq, Eq, PartialOrd, Ord, Hash)]
pub enum KIDL {
    Language,
}

impl KIDL {
    /// The kind that a raw tag of a tree stands for.
    pub fn kind_from_raw(raw: u16) -> (kind: SyntaxKind)
        requires
            SyntaxKind::is_raw(raw),
        ensures
            SyntaxKind::of_raw(raw) == Some(kind),
            kind.raw() == raw,
    {
        proof {
            if SyntaxKind::of_raw(raw) is Some {
                lemma_kind_round_trip(SyntaxKind::of_raw(raw)->0, raw);
            }
        }
        match SyntaxKind::from_raw(raw) {
            Some(kind) => kind,
            None => SyntaxKind::Token(TokenKind::Unknown),
        }
    }

    /// The raw tag under which a kind is kept in a tree.
    pub fn kind_to_raw(kind: SyntaxKind) -> (raw: u16)
        ensures
            raw == kind.raw(),
            SyntaxKind::is_raw(raw),
    {
        proof {
            lemma_kind_round_trip(kind, kind.raw());
        }
        kind.to_raw()
    }
}

} // verus!
