use kidl::kind::TokenKind;
use kidl::lexer::{tokenize, Token};
use kidl::source::StrSource;

fn lex_all(text: &str) -> Vec<Token> {
    let mut lexer = tokenize(StrSource::new(text));
    let mut tokens = Vec::new();
    while let Some(token) = lexer.next() {
        tokens.push(token);
    }
    tokens
}

fn kinds(text: &str) -> Vec<TokenKind> {
    lex_all(text).into_iter().map(|t| t.kind).collect()
}

fn texts(text: &str) -> Vec<String> {
    lex_all(text).into_iter().map(|t| t.slice).collect()
}

#[test]
fn lexes_a_struct() {
    assert_eq!(
        kinds("struct Foo { a: Int }"),
        vec![
            TokenKind::Ident,
            TokenKind::Space,
            TokenKind::Ident,
            TokenKind::Space,
            TokenKind::CurlyOpen,
            TokenKind::Space,
            TokenKind::Ident,
            TokenKind::Colon,
            TokenKind::Space,
            TokenKind::Ident,
            TokenKind::Space,
            TokenKind::CurlyClose,
        ]
    );
    assert_eq!(
        texts("struct Foo { a: Int }"),
        vec!["struct", " ", "Foo", " ", "{", " ", "a", ":", " ", "Int", " ", "}"]
    );
}

#[test]
fn lexing_is_lossless_on_odd_input() {
    for text in [
        "",
        "{",
        "'unterminated",
        "\"closed\" rest",
        "// comment without end",
        "// comment\nnext",
        "a / b",
        "\u{1F600} smile \u{e9}t\u{e9} _x 12ab ab12",
        " \t\r\n  \n",
        "@$%^&*!~`|\\",
    ] {
        let joined: String = texts(text).concat();
        assert_eq!(joined, text);
    }
}

#[test]
fn tokens_are_classified() {
    assert_eq!(
        kinds("{}[]()<>:;,#.?="),
        vec![
            TokenKind::CurlyOpen,
            TokenKind::CurlyClose,
            TokenKind::SquareOpen,
            TokenKind::SquareClose,
            TokenKind::ParenOpen,
            TokenKind::ParenClose,
            TokenKind::AngleOpen,
            TokenKind::AngleClose,
            TokenKind::Colon,
            TokenKind::Semicolon,
            TokenKind::Comma,
            TokenKind::Hash,
            TokenKind::Dot,
            TokenKind::Question,
            TokenKind::Eq,
        ]
    );
    assert_eq!(kinds("'a b' \"c\""), vec![TokenKind::String, TokenKind::Space, TokenKind::String]);
    assert_eq!(texts("'a b' \"c\""), vec!["'a b'", " ", "\"c\""]);
    assert_eq!(texts("'a\"b"), vec!["'a\"b"]);
    assert_eq!(kinds("// c\nx"), vec![TokenKind::Comment, TokenKind::Ident]);
    assert_eq!(texts("// c\nx"), vec!["// c\n", "x"]);
    assert_eq!(kinds("12ab ab12 a_b"), vec![
        TokenKind::Number,
        TokenKind::Ident,
        TokenKind::Space,
        TokenKind::Ident,
        TokenKind::Space,
        TokenKind::Ident,
    ]);
    assert_eq!(texts("12ab ab12 a_b"), vec!["12", "ab", " ", "ab12", " ", "a_b"]);
}

#[test]
fn a_line_feed_ends_a_run_of_blanks() {
    assert_eq!(
        kinds(" \t\n \r\n\n"),
        vec![
            TokenKind::Space,
            TokenKind::NewLine,
            TokenKind::Space,
            TokenKind::NewLine,
            TokenKind::NewLine,
        ]
    );
    assert_eq!(texts(" \t\n \r\n\n"), vec![" \t", "\n", " \r", "\n", "\n"]);
}

#[test]
fn characters_that_start_nothing_stand_alone() {
    assert_eq!(
        kinds("a / _b @"),
        vec![
            TokenKind::Ident,
            TokenKind::Space,
            TokenKind::Unknown,
            TokenKind::Space,
            TokenKind::Unknown,
            TokenKind::Ident,
            TokenKind::Space,
            TokenKind::Unknown,
        ]
    );
    assert_eq!(texts("\u{1F600}\u{1F600}"), vec!["\u{1F600}", "\u{1F600}"]);
}

#[test]
fn identifiers_follow_unicode() {
    assert_eq!(texts("\u{e9}t\u{e9} \u{4e2d}\u{6587}1"), vec!["\u{e9}t\u{e9}", " ", "\u{4e2d}\u{6587}1"]);
    // U+2118 starts an identifier by Unicode's rule without being alphabetic.
    assert_eq!(kinds("\u{2118}x"), vec![TokenKind::Ident]);
}

#[test]
fn a_rope_lexes_like_its_text() {
    let text = "struct \u{e9} { a: List<'q'>, } // \u{1F600}\n@";
    let rope = ropey::Rope::from_str(text);
    let slice = rope.slice(..);
    let mut lexer = tokenize(kidl::source::RopeSource::new(slice));
    let mut tokens = Vec::new();
    while let Some(token) = lexer.next() {
        tokens.push(token);
    }
    assert_eq!(tokens, lex_all(text));
}

#[test]
fn tokens_have_exact_byte_ranges() {
    let text = "a\u{e9} \u{1F600}'x";
    let mut lexer = tokenize(StrSource::new(text));
    let mut ranges = Vec::new();
    loop {
        let start = lexer.offset().0;
        match lexer.next() {
            Some(token) => {
                let end = lexer.offset().0;
                assert_eq!(&text[start..end], token.slice);
                ranges.push((start, end));
            }
            None => break,
        }
    }
    assert_eq!(ranges, vec![(0, 3), (3, 4), (4, 8), (8, 10)]);
    assert_eq!(lexer.offset().0, text.len());
}
