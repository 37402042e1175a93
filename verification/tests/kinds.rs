use kidl::helpers::ByteOffset;
use kidl::kind::{NodeKind, SyntaxKind, TokenKind, NODE_KIND_BASE};
use kidl::lang::KIDL;
use kidl::lexer::Token;
use kidl::parser::utility::combinators::{
    ident, kind, kind_in, with_trivia, with_trivia_nl, ExpectPredicate, TokenTest,
};
use kidl::parser::utility::error::SyntaxError;
use kidl::parser::utility::keyword::is_keyword;

const TOKEN_KINDS: [TokenKind; 22] = [
    TokenKind::CurlyOpen,
    TokenKind::CurlyClose,
    TokenKind::SquareOpen,
    TokenKind::SquareClose,
    TokenKind::AngleOpen,
    TokenKind::AngleClose,
    TokenKind::ParenOpen,
    TokenKind::ParenClose,
    TokenKind::Comment,
    TokenKind::Comma,
    TokenKind::Dot,
    TokenKind::Hash,
    TokenKind::Question,
    TokenKind::Eq,
    TokenKind::Colon,
    TokenKind::Semicolon,
    TokenKind::Space,
    TokenKind::NewLine,
    TokenKind::Ident,
    TokenKind::String,
    TokenKind::Number,
    TokenKind::Unknown,
];

const NODE_KINDS: [NodeKind; 8] = [
    NodeKind::Root,
    NodeKind::Error,
    NodeKind::Struct,
    NodeKind::StructField,
    NodeKind::Type,
    NodeKind::TypeArguments,
    NodeKind::Path,
    NodeKind::Use,
];

fn token(kind: TokenKind, text: &str) -> Token {
    Token::new(kind, text.to_string())
}

#[test]
fn raw_tags_come_back_as_their_kinds() {
    for (index, kind) in TOKEN_KINDS.iter().enumerate() {
        assert_eq!(kind.to_raw() as usize, index);
        assert_eq!(TokenKind::from_raw(kind.to_raw()), Some(*kind));
        assert_eq!(SyntaxKind::from_raw(kind.to_raw()), Some(SyntaxKind::Token(*kind)));
        assert_eq!(format!("{:?}", kind), kind.name());
    }
    for (index, kind) in NODE_KINDS.iter().enumerate() {
        assert_eq!(kind.to_raw() as usize, 1000 + index);
        assert_eq!(NodeKind::from_raw(kind.to_raw()), Some(*kind));
        assert_eq!(SyntaxKind::from_raw(kind.to_raw()), Some(SyntaxKind::Node(*kind)));
        assert_eq!(SyntaxKind::Node(*kind).to_raw(), kind.to_raw());
    }
    assert_eq!(NODE_KIND_BASE, 1000);
    assert_eq!(TokenKind::from_raw(22), None);
    assert_eq!(SyntaxKind::from_raw(999), None);
    assert_eq!(SyntaxKind::from_raw(1008), None);
    assert_eq!(NodeKind::from_raw(0), None);
}

#[test]
fn trivia_is_space_and_comment() {
    for kind in TOKEN_KINDS {
        assert_eq!(kind.trivia(), matches!(kind, TokenKind::Space | TokenKind::Comment));
        assert_eq!(
            kind.trivia_with_newline(),
            matches!(kind, TokenKind::Space | TokenKind::Comment | TokenKind::NewLine)
        );
    }
}

#[test]
fn byte_offsets_add() {
    assert_eq!(ByteOffset(3) + ByteOffset(4), ByteOffset(7));
    let mut offset = ByteOffset(10);
    offset += ByteOffset(5);
    assert_eq!(offset, ByteOffset(15));
}

#[test]
fn a_token_holds_its_kind_and_text() {
    let made = Token::new(TokenKind::Ident, "abc".to_string());
    assert_eq!(made.kind, TokenKind::Ident);
    assert_eq!(made.slice, "abc");
}

#[test]
fn predicates_accept_by_kind_and_text() {
    let colon = kind(TokenKind::Colon);
    assert!(colon.matches(&token(TokenKind::Colon, ":")));
    assert!(!colon.matches(&token(TokenKind::Comma, ",")));
    assert!(colon.test(&token(TokenKind::Colon, ":")));
    let word = ident("struct");
    assert!(word.matches(&token(TokenKind::Ident, "struct")));
    assert!(!word.matches(&token(TokenKind::Ident, "use")));
    assert!(!word.matches(&token(TokenKind::String, "struct")));
    assert!(kind_in(&[TokenKind::Space, TokenKind::Comment], TokenKind::Comment));
    assert!(!kind_in(&[TokenKind::Space, TokenKind::Comment], TokenKind::NewLine));
    assert!(!kind_in(&[], TokenKind::NewLine));
}

#[test]
fn predicates_complain_with_the_kinds() {
    let error = kind(TokenKind::CurlyOpen).error(&token(TokenKind::Ident, "x"), ByteOffset(9));
    assert_eq!(
        error.to_string(),
        format!("Expected {:?}, found {:?}", TokenKind::CurlyOpen, TokenKind::Ident)
    );
    assert_eq!(error.range().start, ByteOffset(9));
    assert_eq!(error.range().end, ByteOffset(9));
    let error = ident("use").error(&token(TokenKind::Number, "1"), ByteOffset(0));
    assert_eq!(error.to_string(), "Expected identifier \"use\", found Number");
}

#[test]
fn trivia_passes_a_test_with_trivia() {
    let test = with_trivia(kind(TokenKind::Comma));
    assert!(test.test(&token(TokenKind::Space, " ")));
    assert!(test.test(&token(TokenKind::Comment, "//")));
    assert!(test.test(&token(TokenKind::Comma, ",")));
    assert!(!test.test(&token(TokenKind::NewLine, "\n")));
    assert!(!test.test(&token(TokenKind::Ident, "a")));
    let test = with_trivia_nl(kind(TokenKind::Comma));
    assert!(test.test(&token(TokenKind::NewLine, "\n")));
    assert!(test.test(&token(TokenKind::Comma, ",")));
    assert!(!test.test(&token(TokenKind::Ident, "a")));
}

#[test]
fn errors_hold_a_message_and_a_range() {
    let error = SyntaxError::new("bad".to_string(), ByteOffset(1)..ByteOffset(4));
    assert_eq!(error.message(), "bad");
    assert_eq!(error.range(), ByteOffset(1)..ByteOffset(4));
    let moved = error.clone().with_range(ByteOffset(2)..ByteOffset(3));
    assert_eq!(moved.message(), "bad");
    assert_eq!(moved.range(), ByteOffset(2)..ByteOffset(3));
    assert_ne!(moved, error);
    let at = SyntaxError::new_at_offset("here".to_string(), ByteOffset(7));
    assert_eq!(at.range(), ByteOffset(7)..ByteOffset(7));
    assert_eq!(at.to_string(), "here");
}

#[test]
fn use_is_the_keyword_of_paths() {
    assert!(is_keyword(&token(TokenKind::Ident, "use")));
    assert!(!is_keyword(&token(TokenKind::Ident, "struct")));
    assert!(!is_keyword(&token(TokenKind::Ident, "used")));
    assert!(!is_keyword(&token(TokenKind::String, "use")));
}

#[test]
fn the_language_keeps_kinds_as_raw_tags() {
    for kind in TOKEN_KINDS {
        let raw = KIDL::kind_to_raw(SyntaxKind::Token(kind));
        assert!(raw < NODE_KIND_BASE);
        assert_eq!(KIDL::kind_from_raw(raw), SyntaxKind::Token(kind));
    }
    for kind in NODE_KINDS {
        let raw = KIDL::kind_to_raw(SyntaxKind::Node(kind));
        assert!(raw >= NODE_KIND_BASE);
        assert_eq!(KIDL::kind_from_raw(raw), SyntaxKind::Node(kind));
    }
}
