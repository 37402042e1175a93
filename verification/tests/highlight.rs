use kidl::db::db::Database;
use kidl::highlight::{
    semantic_tokens, SemanticToken, TokenModifier, TokenType, DECLARATION, DEFAULT_LIBRARY,
    READONLY,
};

fn told(dl: u32, ds: u32, len: u32, ty: TokenType) -> SemanticToken {
    SemanticToken {
        delta_line: dl,
        delta_start: ds,
        length: len,
        token_type: ty.to_index(),
        token_modifiers_bitset: 0,
    }
}

fn tokens_of(text: &str) -> Vec<SemanticToken> {
    let mut db = Database::new();
    db.push_file("/a.kidl".to_string(), text.to_string());
    semantic_tokens(&mut db, "/a.kidl").unwrap()
}

#[test]
fn tokens_are_told_relative_to_the_one_before() {
    assert_eq!(
        tokens_of("struct Foo {\n  a: Int,\n  b?: List<String>\n}"),
        vec![
            told(0, 0, 6, TokenType::KEYWORD),
            told(0, 7, 3, TokenType::STRUCT),
            told(1, 2, 1, TokenType::PARAMETER),
            told(0, 3, 3, TokenType::TYPE),
            told(1, 2, 1, TokenType::PARAMETER),
            told(0, 4, 4, TokenType::TYPE),
            told(0, 5, 6, TokenType::TYPE),
        ]
    );
}

#[test]
fn columns_and_lengths_count_utf16_units() {
    assert_eq!(
        tokens_of("// \u{1F600}\nstruct \u{e9}t\u{e9} { /**/ \u{1F600} x: \u{4e2d} }"),
        vec![
            told(0, 0, 6, TokenType::COMMENT),
            told(1, 0, 6, TokenType::KEYWORD),
            told(0, 7, 3, TokenType::STRUCT),
            told(0, 14, 1, TokenType::PARAMETER),
            told(0, 3, 1, TokenType::TYPE),
        ]
    );
}

#[test]
fn two_structs_follow_each_other() {
    assert_eq!(
        tokens_of("struct A {}\r\nstruct B {}"),
        vec![
            told(0, 0, 6, TokenType::KEYWORD),
            told(0, 7, 1, TokenType::STRUCT),
            told(1, 0, 6, TokenType::KEYWORD),
            told(0, 7, 1, TokenType::STRUCT),
        ]
    );
}

#[test]
fn a_document_that_is_not_open_has_no_tokens() {
    let mut db = Database::new();
    assert_eq!(semantic_tokens(&mut db, "/a.kidl"), None);
    db.push_file("/a.kidl".to_string(), "// only a comment\n".to_string());
    assert_eq!(semantic_tokens(&mut db, "/a.kidl"), Some(vec![]));
}

#[test]
fn the_legend_is_in_order() {
    assert_eq!(TokenType::NAMESPACE.to_index(), 0);
    assert_eq!(TokenType::STRUCT.to_index(), 5);
    assert_eq!(TokenType::PARAMETER.to_index(), 7);
    assert_eq!(TokenType::KEYWORD.to_index(), 15);
    assert_eq!(TokenType::COMMENT.to_index(), 17);
    assert_eq!(TokenType::OPERATOR.to_index(), 21);
    assert_eq!(TokenModifier::empty().bits(), 0);
    assert_eq!(DECLARATION, 1);
    assert_eq!(DEFAULT_LIBRARY, 512);
    assert_eq!(
        TokenModifier::from_bits(DECLARATION).union(TokenModifier::from_bits(READONLY)).bits(),
        5
    );
}
