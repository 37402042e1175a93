use kidl::kind::{NodeKind, SyntaxKind, TokenKind};
use kidl::lexer::Token;
use kidl::parser::parser::{parse, parse_str, try_parse_str, Parsed, Parser, TokenList};
use kidl::parser::utility::combinators::{kind, Always, Either, FnPredicate};
use rowan::{GreenNodeData, NodeOrToken};

fn kind_name(raw: u16) -> String {
    match SyntaxKind::from_raw(raw) {
        Some(SyntaxKind::Token(kind)) => format!("{:?}", kind),
        Some(SyntaxKind::Node(kind)) => format!("{:?}", kind),
        None => panic!("no kind has the raw tag {}", raw),
    }
}

fn render(node: &GreenNodeData) -> String {
    let mut parts = Vec::new();
    for child in node.children() {
        match child {
            NodeOrToken::Node(inner) => parts.push(render(inner)),
            NodeOrToken::Token(token) => {
                let name = kind_name(token.kind().0);
                match SyntaxKind::from_raw(token.kind().0) {
                    Some(SyntaxKind::Token(
                        TokenKind::Ident | TokenKind::Number | TokenKind::String
                        | TokenKind::Comment | TokenKind::Unknown,
                    )) => parts.push(format!("{}[{}]", name, token.text())),
                    _ => parts.push(name),
                }
            }
        }
    }
    format!("{}({})", kind_name(node.kind().0), parts.join(" "))
}

fn text_of(node: &GreenNodeData) -> String {
    let mut text = String::new();
    for child in node.children() {
        match child {
            NodeOrToken::Node(inner) => text.push_str(&text_of(inner)),
            NodeOrToken::Token(token) => text.push_str(token.text()),
        }
    }
    text
}

fn errors_of(parsed: &Parsed) -> Vec<(String, usize, usize)> {
    parsed
        .errors
        .iter()
        .map(|e| (e.to_string(), e.range().start.0, e.range().end.0))
        .collect()
}

#[test]
fn parses_a_struct_with_two_fields() {
    let parsed = parse_str("struct Foo { a: Int, b?: String }");
    assert_eq!(errors_of(&parsed), vec![]);
    assert_eq!(
        render(&parsed.schema),
        "Root(Struct(Ident[struct] Space Ident[Foo] Space CurlyOpen Space \
         StructField(Ident[a] Colon Space Type(Ident[Int]) Comma) Space \
         StructField(Ident[b] Question Colon Space Type(Ident[String]) Space) CurlyClose))"
    );
}

#[test]
fn reports_a_missing_struct_name_once() {
    let parsed = parse_str("struct { a: Int }");
    assert_eq!(
        errors_of(&parsed),
        vec![("Expected Ident, found CurlyOpen".to_string(), 7, 7)]
    );
    assert_eq!(
        render(&parsed.schema),
        "Root(Struct(Ident[struct] Space CurlyOpen Space \
         StructField(Ident[a] Colon Space Type(Ident[Int]) Space) CurlyClose))"
    );
}

#[test]
fn nests_type_arguments() {
    let parsed = parse_str("struct Foo { a: List<String> }");
    assert_eq!(errors_of(&parsed), vec![]);
    assert_eq!(
        render(&parsed.schema),
        "Root(Struct(Ident[struct] Space Ident[Foo] Space CurlyOpen Space \
         StructField(Ident[a] Colon Space \
         Type(Ident[List] TypeArguments(AngleOpen Type(Ident[String]) AngleClose)) Space) \
         CurlyClose))"
    );
}

#[test]
fn parses_several_type_arguments() {
    let parsed = parse_str("struct M { m: Map<String, List<Int>>, }");
    assert_eq!(errors_of(&parsed), vec![]);
    assert_eq!(
        render(&parsed.schema),
        "Root(Struct(Ident[struct] Space Ident[M] Space CurlyOpen Space \
         StructField(Ident[m] Colon Space \
         Type(Ident[Map] TypeArguments(AngleOpen Type(Ident[String]) Comma Space \
         Type(Ident[List] TypeArguments(AngleOpen Type(Ident[Int]) AngleClose)) AngleClose)) \
         Comma) Space CurlyClose))"
    );
}

#[test]
fn a_comment_alone_is_a_document() {
    let parsed = parse_str("// comment\n");
    assert_eq!(errors_of(&parsed), vec![]);
    assert_eq!(render(&parsed.schema), "Root(Comment[// comment\n])");
}

#[test]
fn the_empty_text_is_a_document() {
    let parsed = parse_str("");
    assert_eq!(errors_of(&parsed), vec![]);
    assert_eq!(render(&parsed.schema), "Root()");
    assert_eq!(parsed.schema.kind().0, NodeKind::Root.to_raw());
}

#[test]
fn parses_an_import() {
    let parsed = parse_str("use a::b.c;\n");
    assert_eq!(errors_of(&parsed), vec![]);
    assert_eq!(
        render(&parsed.schema),
        "Root(Use(Ident[use] Space Path(Ident[a] Colon Colon Ident[b] Dot Ident[c]) Semicolon) \
         NewLine)"
    );
}

#[test]
fn reports_an_import_without_a_path() {
    let parsed = parse_str("use ;");
    assert_eq!(
        errors_of(&parsed),
        vec![("Expected valid path, got Semicolon".to_string(), 4, 4)]
    );
    assert_eq!(render(&parsed.schema), "Root(Use(Ident[use] Space Semicolon))");
    let parsed = parse_str("use");
    assert_eq!(
        errors_of(&parsed),
        vec![("Expected valid path, got end of input".to_string(), 3, 3)]
    );
}

#[test]
fn wraps_unexpected_tokens_in_error_nodes() {
    let parsed = parse_str("@ struct A {}");
    assert_eq!(errors_of(&parsed), vec![("Unexpected Unknown".to_string(), 0, 1)]);
    assert_eq!(
        render(&parsed.schema),
        "Root(Struct(Error(Unknown[@]) Space Ident[struct] Space Ident[A] Space CurlyOpen \
         CurlyClose))"
    );
}

#[test]
fn reports_one_error_for_a_run_of_unexpected_tokens() {
    let parsed = parse_str("struct A ((( { }");
    assert_eq!(
        errors_of(&parsed),
        vec![("Expected CurlyOpen, found ParenOpen".to_string(), 9, 9)]
    );
    assert_eq!(
        render(&parsed.schema),
        "Root(Struct(Ident[struct] Space Ident[A] Space Error(ParenOpen) Error(ParenOpen) \
         Error(ParenOpen) Space CurlyOpen Space CurlyClose))"
    );
}

#[test]
fn the_tree_keeps_every_byte() {
    for text in [
        "",
        "}",
        "struct",
        "struct {",
        "struct Foo { a: List<",
        "struct Foo { a List<String, }",
        "use 'x'::",
        "use a:b struct",
        "\u{1F600} // \u{e9}\nstruct \u{e9}t\u{e9} { \u{4e2d}: \u{6587}<'q> }",
        ">>> , : ? struct ? { ? }",
        "'unterminated string",
    ] {
        let parsed = parse_str(text);
        assert_eq!(text_of(&parsed.schema), text);
        assert_eq!(parsed.schema.kind().0, NodeKind::Root.to_raw());
        assert_eq!(usize::from(parsed.schema.text_len()), text.len());
    }
}

#[test]
fn parses_a_list_of_tokens() {
    let tokens = vec![
        Token::new(TokenKind::Ident, "struct".to_string()),
        Token::new(TokenKind::Ident, "A".to_string()),
        Token::new(TokenKind::CurlyOpen, "{".to_string()),
        Token::new(TokenKind::Number, "7".to_string()),
        Token::new(TokenKind::CurlyClose, "}".to_string()),
        Token::new(TokenKind::CurlyClose, "}".to_string()),
    ];
    let mut cache = rowan::NodeCache::default();
    let parsed = parse(TokenList::new(tokens), &mut cache);
    assert_eq!(
        render(&parsed.schema),
        "Root(Struct(Ident[struct] Ident[A] CurlyOpen Error(Number[7]) CurlyClose) \
         Error(CurlyClose))"
    );
    assert_eq!(
        errors_of(&parsed),
        vec![
            ("Unexpected Number".to_string(), 8, 9),
            ("Unexpected CurlyClose".to_string(), 10, 11)
        ]
    );
}

#[test]
fn a_field_may_lack_its_parts() {
    let parsed = parse_str("struct A { a, b: , c? d }");
    assert_eq!(
        errors_of(&parsed),
        vec![
            ("Expected Colon, found Comma".to_string(), 12, 12),
            ("Expected Colon, found Ident".to_string(), 22, 22),
        ]
    );
    assert_eq!(
        render(&parsed.schema),
        "Root(Struct(Ident[struct] Space Ident[A] Space CurlyOpen Space \
         StructField(Ident[a] Comma) Space StructField(Ident[b] Colon Space Comma) Space \
         StructField(Ident[c] Question Space Error(Ident[d]) Space) CurlyClose))"
    );
}

#[test]
fn a_type_waits_for_its_closing_bracket() {
    let parsed = parse_str("struct A { a: List<Int, b: Int }");
    // `b` is read as a second argument; the `:` ends the list early and
    // stays for the struct, which takes `Int` for the next field.
    assert_eq!(
        errors_of(&parsed),
        vec![
            ("Expected AngleClose, found Colon".to_string(), 25, 25),
            ("Unexpected Colon".to_string(), 25, 26),
            ("Expected Colon, found CurlyClose".to_string(), 31, 31),
        ]
    );
    assert_eq!(
        render(&parsed.schema),
        "Root(Struct(Ident[struct] Space Ident[A] Space CurlyOpen Space \
         StructField(Ident[a] Colon Space \
         Type(Ident[List] TypeArguments(AngleOpen Type(Ident[Int]) Comma Space Type(Ident[b])))) \
         Error(Colon) Space StructField(Ident[Int] Space) CurlyClose))"
    );
    assert_eq!(errors_of(&parse_str("struct A { a: List<Int")), vec![]);
}

fn tokens_of(parts: &[(TokenKind, &str)]) -> TokenList {
    TokenList::new(parts.iter().map(|(kind, text)| Token::new(*kind, text.to_string())).collect())
}

#[test]
fn a_parser_can_be_driven_by_hand() {
    let stream = tokens_of(&[
        (TokenKind::Space, " "),
        (TokenKind::Space, "\t"),
        (TokenKind::Ident, "a"),
        (TokenKind::Comma, ","),
        (TokenKind::Ident, "b"),
        (TokenKind::Semicolon, ";"),
        (TokenKind::Ident, "c"),
    ]);
    let mut parser = Parser::new(rowan::GreenNodeBuilder::new(), stream);
    parser.start_node(NodeKind::Root);
    parser.consume_while(kind(TokenKind::Space));
    assert_eq!(parser.peek().map(|t| t.slice.as_str()), Some("a"));
    let mark = parser.checkpoint();
    parser.consume_until_true_including(kind(TokenKind::Semicolon));
    parser.start_node_at(mark, NodeKind::Path);
    parser.finish_node();
    parser.expected(&[TokenKind::Comma, TokenKind::Dot], TokenKind::Ident);
    parser.expected(&[], TokenKind::Ident);
    assert_eq!(parser.maybe(TokenKind::Comma), None);
    assert!(!parser.consume_maybe(TokenKind::Comma));
    assert!(parser.consume_maybe(TokenKind::Ident));
    assert_eq!(parser.next_token(), None);
    parser.finish_node();
    let parsed = parser.finish();
    assert_eq!(
        render(&parsed.schema),
        "Root(Space Space Path(Ident[a] Comma Ident[b] Semicolon) Ident[c])"
    );
    assert_eq!(
        errors_of(&parsed),
        vec![
            ("Expected [Comma, Dot], got Ident".to_string(), 6, 6),
            ("Expected [], got Ident".to_string(), 6, 6),
        ]
    );
}

#[test]
fn a_wait_stops_skips_and_wraps() {
    let stream = tokens_of(&[
        (TokenKind::NewLine, "\n"),
        (TokenKind::Hash, "#"),
        (TokenKind::Space, " "),
        (TokenKind::Hash, "#"),
        (TokenKind::Colon, ":"),
        (TokenKind::Comma, ","),
        (TokenKind::Eq, "="),
    ]);
    let mut parser = Parser::new(rowan::GreenNodeBuilder::new(), stream);
    parser.start_node(NodeKind::Root);
    let skip = [TokenKind::Space, TokenKind::NewLine];
    let stop = Either(kind(TokenKind::Comma), kind(TokenKind::CurlyClose));
    assert!(parser.expect(kind(TokenKind::Colon), &skip, stop));
    let stop = Either(kind(TokenKind::Comma), kind(TokenKind::CurlyClose));
    assert!(!parser.expect(kind(TokenKind::Colon), &skip, stop));
    assert!(parser.consume_maybe(TokenKind::Comma));
    assert!(!parser.expect(FnPredicate(kind(TokenKind::Dot), "a dot, please"), &skip, Always));
    assert!(!parser.expect_token(TokenKind::Dot));
    parser.consume_next();
    assert!(!parser.expect_token(TokenKind::Dot));
    parser.finish_node();
    let parsed = parser.finish();
    assert_eq!(
        render(&parsed.schema),
        "Root(NewLine Error(Hash) Space Error(Hash) Colon Comma Eq)"
    );
    assert_eq!(
        errors_of(&parsed),
        vec![
            ("Expected Colon, found Hash".to_string(), 1, 1),
            ("Expected Colon, found Comma".to_string(), 5, 5),
            ("a dot, please".to_string(), 6, 6),
            ("Expected Dot, found Eq".to_string(), 6, 6),
        ]
    );
}

#[test]
fn a_text_of_ordinary_length_is_parsed() {
    let parsed = try_parse_str("struct A { a: Int }").unwrap();
    assert_eq!(parsed.schema, parse_str("struct A { a: Int }").schema);
    assert_eq!(parsed.errors, parse_str("struct A { a: Int }").errors);
}
