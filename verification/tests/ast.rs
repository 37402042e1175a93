use kidl::ast::helpers::{AstNode, HasName};
use kidl::ast::schema::{Declaration, Schema};
use kidl::ast::struct_decl::Struct;
use kidl::kind::{NodeKind, SyntaxKind};
use kidl::parser::parser::parse_str;

fn schema_of(text: &str) -> Schema {
    let parsed = parse_str(text);
    Schema::cast(parsed.syntax()).expect("the root of a parse is a document")
}

fn structs_of(text: &str) -> Vec<Struct> {
    schema_of(text)
        .declarations()
        .into_iter()
        .map(|d| match d {
            Declaration::Struct(s) => s,
        })
        .collect()
}

fn name_text<T: HasName>(node: &T) -> Option<String> {
    node.name().map(|ident| ident.text().to_string())
}

#[test]
fn views_a_struct_with_two_fields() {
    let parsed = parse_str("struct Foo { a: Int, b?: String }");
    assert_eq!(parsed.errors.len(), 0);
    let structs = structs_of("struct Foo { a: Int, b?: String }");
    assert_eq!(structs.len(), 1);
    assert_eq!(name_text(&structs[0]), Some("Foo".to_string()));
    let fields = structs[0].fields();
    assert_eq!(fields.len(), 2);
    assert_eq!(name_text(&fields[0]), Some("a".to_string()));
    assert!(fields[0].is_optional().is_none());
    assert_eq!(name_text(&fields[0].ty().unwrap()), Some("Int".to_string()));
    assert_eq!(name_text(&fields[1]), Some("b".to_string()));
    assert!(fields[1].is_optional().is_some());
    assert_eq!(fields[1].is_optional().unwrap().text(), "?");
    assert_eq!(name_text(&fields[1].ty().unwrap()), Some("String".to_string()));
}

#[test]
fn views_a_struct_without_a_name() {
    let parsed = parse_str("struct { a: Int }");
    assert_eq!(parsed.errors.len(), 1);
    assert_eq!(parsed.errors[0].range().start.0, 7);
    let structs = structs_of("struct { a: Int }");
    assert_eq!(structs.len(), 1);
    assert_eq!(name_text(&structs[0]), None);
    assert_eq!(structs[0].fields().len(), 1);
}

#[test]
fn views_a_nested_type_argument() {
    let structs = structs_of("struct Foo { a: List<String> }");
    let fields = structs[0].fields();
    let list = fields[0].ty().unwrap();
    assert_eq!(name_text(&list), Some("List".to_string()));
    let arguments = list.type_arguments().unwrap().types();
    assert_eq!(arguments.len(), 1);
    assert_eq!(name_text(&arguments[0]), Some("String".to_string()));
    assert!(arguments[0].type_arguments().is_none());
}

#[test]
fn a_comment_has_no_declarations() {
    let parsed = parse_str("// comment\n");
    assert_eq!(parsed.errors.len(), 0);
    assert_eq!(structs_of("// comment\n").len(), 0);
}

#[test]
fn imports_are_no_declarations() {
    assert_eq!(structs_of("use a::b;\nstruct A {}\nuse c;\nstruct B {}").len(), 2);
}

#[test]
fn casts_by_kind() {
    assert!(Schema::can_cast(SyntaxKind::Node(NodeKind::Root)));
    assert!(!Schema::can_cast(SyntaxKind::Node(NodeKind::Struct)));
    assert!(Struct::can_cast(SyntaxKind::Node(NodeKind::Struct)));
    let parsed = parse_str("struct A {}");
    assert!(Struct::cast(parsed.syntax()).is_none());
    let schema = Schema::cast(parsed.syntax()).unwrap();
    assert_eq!(schema.syntax().kind().0, NodeKind::Root.to_raw());
    assert_eq!(usize::from(schema.syntax().text_range().end()), 11);
}

#[test]
fn a_field_named_like_the_keyword_has_no_name() {
    let structs = structs_of("struct A { struct: Int, use: Int }");
    let fields = structs[0].fields();
    assert_eq!(fields.len(), 2);
    assert_eq!(name_text(&fields[0]), None);
    assert_eq!(name_text(&fields[1]), Some("use".to_string()));
}
