use kidl::db::db::Database;
use kidl::position::Position;
use ropey::Rope;
use kidl::text::{apply_change, apply_changes, edit, open, ContentChange, EditError, Span};

fn span(l0: u32, c0: u32, l1: u32, c1: u32) -> Span {
    Span {
        start: Position { line: l0, character: c0 },
        end: Position { line: l1, character: c1 },
    }
}

fn replace(l0: u32, c0: u32, l1: u32, c1: u32, text: &str) -> ContentChange {
    ContentChange { range: Some(span(l0, c0, l1, c1)), text: text.to_string() }
}

fn whole(text: &str) -> ContentChange {
    ContentChange { range: None, text: text.to_string() }
}

fn text_of(db: &Database, path: &str) -> String {
    let file = db.schema_file(path).unwrap();
    db.text(file).to_string()
}

#[test]
fn a_full_replace_leaves_the_replacement() {
    let mut rope = Rope::from_str("old text\nmore");
    assert!(apply_change(&mut rope, &whole("new \u{1F600} text")));
    assert_eq!(rope.to_string(), "new \u{1F600} text");
}

#[test]
fn a_range_replace_keeps_what_is_around_the_range() {
    let source = "struct Foo { a: Int, b?: String }";
    let mut rope = Rope::from_str(source);
    assert!(apply_change(&mut rope, &replace(0, 16, 0, 19, "Long")));
    assert_eq!(rope.to_string(), "struct Foo { a: Long, b?: String }");
    assert_eq!(rope.to_string(), format!("{}{}{}", &source[..16], "Long", &source[19..]));
}

#[test]
fn a_range_replace_counts_utf16_units() {
    let mut rope = Rope::from_str("x\n\u{1F600}ab\ny");
    assert!(apply_change(&mut rope, &replace(1, 2, 1, 3, "Z")));
    assert_eq!(rope.to_string(), "x\n\u{1F600}Zb\ny");
    assert!(apply_change(&mut rope, &replace(0, 1, 2, 0, "")));
    assert_eq!(rope.to_string(), "xy");
    assert!(apply_change(&mut rope, &replace(0, 1, 0, 1, " + ")));
    assert_eq!(rope.to_string(), "x + y");
}

#[test]
fn a_change_outside_the_text_is_not_made() {
    let mut rope = Rope::from_str("ab\ncd");
    assert!(!apply_change(&mut rope, &replace(0, 0, 5, 0, "x")));
    assert!(!apply_change(&mut rope, &replace(1, 0, 1, 9, "x")));
    assert!(!apply_change(&mut rope, &replace(1, 1, 0, 1, "x")));
    assert_eq!(rope.to_string(), "ab\ncd");
}

#[test]
fn changes_are_made_in_the_order_given() {
    let mut rope = Rope::from_str("abc");
    let edits = vec![replace(0, 0, 0, 1, "xy"), replace(0, 2, 0, 3, ""), whole("q"), replace(0, 1, 0, 1, "r")];
    assert_eq!(apply_changes(&mut rope, &edits), 4);
    assert_eq!(rope.to_string(), "qr");
    let mut rope = Rope::from_str("abc");
    let edits = vec![replace(0, 0, 0, 1, ""), replace(0, 3, 0, 3, "x"), whole("q")];
    assert_eq!(apply_changes(&mut rope, &edits), 1);
}

#[test]
fn editing_an_open_document_changes_its_text() {
    let mut db = Database::new();
    open(&mut db, "/a.kidl", "struct Foo { a: Int }".to_string());
    assert_eq!(edit(&mut db, "/a.kidl", vec![replace(0, 16, 0, 19, "Long")]), Ok(()));
    assert_eq!(text_of(&db, "/a.kidl"), "struct Foo { a: Long }");
    assert_eq!(edit(&mut db, "/a.kidl", vec![whole("use x;"), replace(0, 4, 0, 5, "y")]), Ok(()));
    assert_eq!(text_of(&db, "/a.kidl"), "use y;");
    assert_eq!(edit(&mut db, "/a.kidl", vec![]), Ok(()));
    assert_eq!(text_of(&db, "/a.kidl"), "use y;");
}

#[test]
fn a_request_that_cannot_be_carried_out_changes_nothing() {
    let mut db = Database::new();
    open(&mut db, "/a.kidl", "abc".to_string());
    assert_eq!(
        edit(&mut db, "/a.kidl", vec![replace(0, 0, 0, 1, "x"), replace(4, 0, 4, 0, "y")]),
        Err(EditError::OutOfRange(1))
    );
    assert_eq!(text_of(&db, "/a.kidl"), "abc");
    assert_eq!(edit(&mut db, "/b.kidl", vec![replace(0, 0, 0, 0, "x")]), Err(EditError::NotOpen));
    assert_eq!(edit(&mut db, "/b.kidl", vec![whole("x"), whole("y")]), Err(EditError::NotOpen));
    assert_eq!(edit(&mut db, "/b.kidl", vec![]), Err(EditError::NotOpen));
    assert!(db.schema_file("/b.kidl").is_none());
}

#[test]
fn a_full_text_change_opens_a_document() {
    let mut db = Database::new();
    assert_eq!(edit(&mut db, "/b.kidl", vec![whole("struct B {}")]), Ok(()));
    assert_eq!(text_of(&db, "/b.kidl"), "struct B {}");
}

#[test]
fn opening_again_replaces_the_text() {
    let mut db = Database::new();
    open(&mut db, "/a.kidl", "one".to_string());
    open(&mut db, "/b.kidl", "two".to_string());
    open(&mut db, "/a.kidl", "three".to_string());
    assert_eq!(text_of(&db, "/a.kidl"), "three");
    assert_eq!(text_of(&db, "/b.kidl"), "two");
    assert_eq!(db.schema_file("/a.kidl").unwrap().id, 0);
    assert_eq!(db.schema_file("/b.kidl").unwrap().id, 1);
}
