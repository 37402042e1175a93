use vstd::prelude::*;

verus! {

/// First raw tag of the node kinds. Every token kind lies below it.
pub const NODE_KIND_BASE: u16 = 1000;

/// The tag of a tree element: a leaf token or an inner node.
#[derive(Debug, Clone, Copy, PartialEq, Eq, Structural, PartialOrd, Ord, Hash)]
pub enum SyntaxKind {
    Token(TokenKind),
    Node(NodeKind),
}

#[derive(Debug, Clone, Copy, PartialEq, Eq, Structural, PartialOrd, Ord, Hash)]
pub enum TokenKind {
    CurlyOpen,
    CurlyClose,
    SquareOpen,
    SquareClose,
    AngleOpen,
    AngleClose,
    ParenOpen,
    ParenClose,
    Comment,
    Comma,
    Dot,
    Hash,
    Question,
    Eq,
    Colon,
    Semicolon,
    Space,
    NewLine,
    Ident,
    String,
    Number,
    /// A character that starts no other token.
    Unknown,
}

#[derive(Debug, Clone, Copy, PartialEq, Eq, Structural, PartialOrd, Ord, Hash)]
pub enum NodeKind {
    Root,
    Error,
    Struct,
    StructField,
    Type,
    TypeArguments,
    Path,
    Use,
}

impl TokenKind {
    /// The raw tag of a token kind: its position in the declaration.
    pub open spec fn raw(self) -> u16 {
        match self {
            TokenKind::CurlyOpen => 0,
            TokenKind::CurlyClose => 1,
            TokenKind::SquareOpen => 2,
            TokenKind::SquareClose => 3,
            TokenKind::AngleOpen => 4,
            TokenKind::AngleClose => 5,
            TokenKind::ParenOpen => 6,
            TokenKind::ParenClose => 7,
            TokenKind::Comment => 8,
            TokenKind::Comma => 9,
            TokenKind::Dot => 10,
            TokenKind::Hash => 11,
            TokenKind::Question => 12,
            TokenKind::Eq => 13,
            TokenKind::Colon => 14,
            TokenKind::Semicolon => 15,
            TokenKind::Space => 16,
            TokenKind::NewLine => 17,
            TokenKind::Ident => 18,
            TokenKind::String => 19,
            TokenKind::Number => 20,
            TokenKind::Unknown => 21,
        }
    }

    /// Whether the kind is whitespace (other than a line break) or a comment.
    pub open spec fn is_trivia(self) -> bool {
        self == TokenKind::Space || self == TokenKind::Comment
    }

    /// Whether the kind is trivia or a line break.
    pub open spec fn is_trivia_nl(self) -> bool {
        self.is_trivia() || self == TokenKind::NewLine
    }

    pub fn to_raw(self) -> (raw: u16)
        ensures
            raw == self.raw(),
            raw < NODE_KIND_BASE,
    {
        match self {
            TokenKind::CurlyOpen => 0,
            TokenKind::CurlyClose => 1,
            TokenKind::SquareOpen => 2,
            TokenKind::SquareClose => 3,
            TokenKind::AngleOpen => 4,
            TokenKind::AngleClose => 5,
            TokenKind::ParenOpen => 6,
            TokenKind::ParenClose => 7,
            TokenKind::Comment => 8,
            TokenKind::Comma => 9,
            TokenKind::Dot => 10,
            TokenKind::Hash => 11,
            TokenKind::Question => 12,
            TokenKind::Eq => 13,
            TokenKind::Colon => 14,
            TokenKind::Semicolon => 15,
            TokenKind::Space => 16,
            TokenKind::NewLine => 17,
            TokenKind::Ident => 18,
            TokenKind::String => 19,
            TokenKind::Number => 20,
            TokenKind::Unknown => 21,
        }
    }

    /// The token kind with the given raw tag, if there is one.
    pub open spec fn of_raw(raw: u16) -> Option<TokenKind> {
        if raw == 0 {
            Some(TokenKind::CurlyOpen)
        } else if raw == 1 {
            Some(TokenKind::CurlyClose)
        } else if raw == 2 {
            Some(TokenKind::SquareOpen)
        } else if raw == 3 {
            Some(TokenKind::SquareClose)
        } else if raw == 4 {
            Some(TokenKind::AngleOpen)
        } else if raw == 5 {
            Some(TokenKind::AngleClose)
        } else if raw == 6 {
            Some(TokenKind::ParenOpen)
        } else if raw == 7 {
            Some(TokenKind::ParenClose)
        } else if raw == 8 {
            Some(TokenKind::Comment)
        } else if raw == 9 {
            Some(TokenKind::Comma)
        } else if raw == 10 {
            Some(TokenKind::Dot)
        } else if raw == 11 {
            Some(TokenKind::Hash)
        } else if raw == 12 {
            Some(TokenKind::Question)
        } else if raw == 13 {
            Some(TokenKind::Eq)
        } else if raw == 14 {
            Some(TokenKind::Colon)
        } else if raw == 15 {
            Some(TokenKind::Semicolon)
        } else if raw == 16 {
            Some(TokenKind::Space)
        } else if raw == 17 {
            Some(TokenKind::NewLine)
        } else if raw == 18 {
            Some(TokenKind::Ident)
        } else if raw == 19 {
            Some(TokenKind::String)
        } else if raw == 20 {
            Some(TokenKind::Number)
        } else if raw == 21 {
            Some(TokenKind::Unknown)
        } else {
            None
        }
    }

    /// The token kind with the given raw tag, if there is one.
    pub fn from_raw(raw: u16) -> (kind: Option<TokenKind>)
        ensures
            kind == TokenKind::of_raw(raw),
    {
        match raw {
            0 => Some(TokenKind::CurlyOpen),
            1 => Some(TokenKind::CurlyClose),
            2 => Some(TokenKind::SquareOpen),
            3 => Some(TokenKind::SquareClose),
            4 => Some(TokenKind::AngleOpen),
            5 => Some(TokenKind::AngleClose),
            6 => Some(TokenKind::ParenOpen),
            7 => Some(TokenKind::ParenClose),
            8 => Some(TokenKind::Comment),
            9 => Some(TokenKind::Comma),
            10 => Some(TokenKind::Dot),
            11 => Some(TokenKind::Hash),
            12 => Some(TokenKind::Question),
            13 => Some(TokenKind::Eq),
            14 => Some(TokenKind::Colon),
            15 => Some(TokenKind::Semicolon),
            16 => Some(TokenKind::Space),
            17 => Some(TokenKind::NewLine),
            18 => Some(TokenKind::Ident),
            19 => Some(TokenKind::String),
            20 => Some(TokenKind::Number),
            21 => Some(TokenKind::Unknown),
            _ => None,
        }
    }

    /// The name of the kind, as it stands in messages.
    pub open spec fn name_text(self) -> Seq<char> {
        match self {
            TokenKind::CurlyOpen => "CurlyOpen"@,
            TokenKind::CurlyClose => "CurlyClose"@,
            TokenKind::SquareOpen => "SquareOpen"@,
            TokenKind::SquareClose => "SquareClose"@,
            TokenKind::AngleOpen => "AngleOpen"@,
            TokenKind::AngleClose => "AngleClose"@,
            TokenKind::ParenOpen => "ParenOpen"@,
            TokenKind::ParenClose => "ParenClose"@,
            TokenKind::Comment => "Comment"@,
            TokenKind::Comma => "Comma"@,
            TokenKind::Dot => "Dot"@,
            TokenKind::Hash => "Hash"@,
            TokenKind::Question => "Question"@,
            TokenKind::Eq => "Eq"@,
            TokenKind::Colon => "Colon"@,
            TokenKind::Semicolon => "Semicolon"@,
            TokenKind::Space => "Space"@,
            TokenKind::NewLine => "NewLine"@,
            TokenKind::Ident => "Ident"@,
            TokenKind::String => "String"@,
            TokenKind::Number => "Number"@,
            TokenKind::Unknown => "Unknown"@,
        }
    }

    pub fn name(self) -> (name: &'static str)
        ensures
            name@ == self.name_text(),
    {
        match self {
            TokenKind::CurlyOpen => "CurlyOpen",
            TokenKind::CurlyClose => "CurlyClose",
            TokenKind::SquareOpen => "SquareOpen",
            TokenKind::SquareClose => "SquareClose",
            TokenKind::AngleOpen => "AngleOpen",
            TokenKind::AngleClose => "AngleClose",
            TokenKind::ParenOpen => "ParenOpen",
            TokenKind::ParenClose => "ParenClose",
            TokenKind::Comment => "Comment",
            TokenKind::Comma => "Comma",
            TokenKind::Dot => "Dot",
            TokenKind::Hash => "Hash",
            TokenKind::Question => "Question",
            TokenKind::Eq => "Eq",
            TokenKind::Colon => "Colon",
            TokenKind::Semicolon => "Semicolon",
            TokenKind::Space => "Space",
            TokenKind::NewLine => "NewLine",
            TokenKind::Ident => "Ident",
            TokenKind::String => "String",
            TokenKind::Number => "Number",
            TokenKind::Unknown => "Unknown",
        }
    }

    pub fn trivia(self) -> (b: bool)
        ensures
            b == self.is_trivia(),
    {
        match self {
            TokenKind::Space | TokenKind::Comment => true,
            _ => false,
        }
    }

    pub fn trivia_with_newline(self) -> (b: bool)
        ensures
            b == self.is_trivia_nl(),
    {
        match self {
            TokenKind::Space | TokenKind::Comment | TokenKind::NewLine => true,
            _ => false,
        }
    }
}

impl NodeKind {
    /// The raw tag of a node kind: the base plus its position in the declaration.
    pub open spec fn raw(self) -> u16 {
        match self {
            NodeKind::Root => 1000,
            NodeKind::Error => 1001,
            NodeKind::Struct => 1002,
            NodeKind::StructField => 1003,
            NodeKind::Type => 1004,
            NodeKind::TypeArguments => 1005,
            NodeKind::Path => 1006,
            NodeKind::Use => 1007,
        }
    }

    pub fn to_raw(self) -> (raw: u16)
        ensures
            raw == self.raw(),
            raw >= NODE_KIND_BASE,
    {
        match self {
            NodeKind::Root => 1000,
            NodeKind::Error => 1001,
            NodeKind::Struct => 1002,
            NodeKind::StructField => 1003,
            NodeKind::Type => 1004,
            NodeKind::TypeArguments => 1005,
            NodeKind::Path => 1006,
            NodeKind::Use => 1007,
        }
    }

    /// The node kind with the given raw tag, if there is one.
    pub open spec fn of_raw(raw: u16) -> Option<NodeKind> {
        if raw == 1000 {
            Some(NodeKind::Root)
        } else if raw == 1001 {
            Some(NodeKind::Error)
        } else if raw == 1002 {
            Some(NodeKind::Struct)
        } else if raw == 1003 {
            Some(NodeKind::StructField)
        } else if raw == 1004 {
            Some(NodeKind::Type)
        } else if raw == 1005 {
            Some(NodeKind::TypeArguments)
        } else if raw == 1006 {
            Some(NodeKind::Path)
        } else if raw == 1007 {
            Some(NodeKind::Use)
        } else {
            None
        }
    }

    /// The node kind with the given raw tag, if there is one.
    pub fn from_raw(raw: u16) -> (kind: Option<NodeKind>)
        ensures
            kind == NodeKind::of_raw(raw),
    {
        match raw {
            1000 => Some(NodeKind::Root),
            1001 => Some(NodeKind::Error),
            1002 => Some(NodeKind::Struct),
            1003 => Some(NodeKind::StructField),
            1004 => Some(NodeKind::Type),
            1005 => Some(NodeKind::TypeArguments),
            1006 => Some(NodeKind::Path),
            1007 => Some(NodeKind::Use),
            _ => None,
        }
    }
}

impl SyntaxKind {
    pub open spec fn raw(self) -> u16 {
        match self {
            SyntaxKind::Token(t) => t.raw(),
            SyntaxKind::Node(n) => n.raw(),
        }
    }

    /// The kind with the given raw tag, if there is one. Tags from the
    /// base upwards are those of node kinds, tags below it those of token
    /// kinds.
    pub open spec fn of_raw(raw: u16) -> Option<SyntaxKind> {
        if raw >= NODE_KIND_BASE {
            match NodeKind::of_raw(raw) {
                Some(n) => Some(SyntaxKind::Node(n)),
                None => None,
            }
        } else {
            match TokenKind::of_raw(raw) {
                Some(t) => Some(SyntaxKind::Token(t)),
                None => None,
            }
        }
    }

    /// Whether some kind has this raw tag.
    pub open spec fn is_raw(raw: u16) -> bool {
        SyntaxKind::of_raw(raw) is Some
    }

    pub fn to_raw(self) -> (raw: u16)
        ensures
            raw == self.raw(),
            (self is Node) == (raw >= NODE_KIND_BASE),
    {
        match self {
            SyntaxKind::Token(t) => t.to_raw(),
            SyntaxKind::Node(n) => n.to_raw(),
        }
    }

    /// The kind with the given raw tag, if there is one.
    pub fn from_raw(raw: u16) -> (kind: Option<SyntaxKind>)
        ensures
            kind == SyntaxKind::of_raw(raw),
    {
        if raw >= NODE_KIND_BASE {
            match NodeKind::from_raw(raw) {
                Some(n) => Some(SyntaxKind::Node(n)),
                None => None,
            }
        } else {
            match TokenKind::from_raw(raw) {
                Some(t) => Some(SyntaxKind::Token(t)),
                None => None,
            }
        }
    }
}

/// From a kind to its raw tag and back: every kind comes back from its
/// raw tag, and a raw tag that stands for a kind is the tag of that kind.
pub proof fn lemma_kind_round_trip(kind: SyntaxKind, raw: u16)
    ensures
        SyntaxKind::of_raw(kind.raw()) == Some(kind),
        SyntaxKind::of_raw(raw) == Some(kind) ==> kind.raw() == raw,
        (kind is Node) == (kind.raw() >= NODE_KIND_BASE),
{
}

/// Two kinds with the same raw tag are the same kind.
pub proof fn lemma_raw_injective(a: SyntaxKind, b: SyntaxKind)
    requires
        a.raw() == b.raw(),
    ensures
        a == b,
{
}

} // verus!
