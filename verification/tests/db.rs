use kidl::db::cache::Cache;
use kidl::db::db::{Database, Db};
use kidl::db::source::parse;
use kidl::parser::parser::parse_str;
use ropey::Rope;
use kidl::text::{edit, ContentChange, Span};
use kidl::position::Position;
use rowan::{GreenNodeData, GreenTokenData, NodeOrToken};

fn same_node(a: &GreenNodeData, b: &GreenNodeData) -> bool {
    std::ptr::eq(a, b)
}

fn same_token(a: &GreenTokenData, b: &GreenTokenData) -> bool {
    std::ptr::eq(a, b)
}

fn child_node(node: &GreenNodeData, index: usize) -> &GreenNodeData {
    match node.children().nth(index) {
        Some(NodeOrToken::Node(child)) => child,
        _ => panic!("child {} is no node", index),
    }
}

fn child_token(node: &GreenNodeData, index: usize) -> &GreenTokenData {
    match node.children().nth(index) {
        Some(NodeOrToken::Token(child)) => child,
        _ => panic!("child {} is no token", index),
    }
}

#[test]
fn a_second_parse_is_the_remembered_one() {
    let mut db = Database::new();
    db.push_file("/a.kidl".to_string(), "struct { a: Int }".to_string());
    let file = db.schema_file("/a.kidl").unwrap();
    assert!(db.parsable(file));
    assert!(db.recall(file).is_none());
    let first = parse(&mut db, file);
    let second = parse(&mut db, file);
    assert!(same_node(&first.schema, &second.schema));
    assert_eq!(first.errors, second.errors);
    assert_eq!(first.errors.len(), 1);
    assert!(db.recall(file).is_some());
}

#[test]
fn a_parse_after_a_change_is_of_the_new_text() {
    let mut db = Database::new();
    db.push_file("/a.kidl".to_string(), "struct A {}".to_string());
    let file = db.schema_file("/a.kidl").unwrap();
    let old = parse(&mut db, file);
    db.set_text(file, Rope::from_str("struct { }"));
    assert!(db.recall(file).is_none());
    let new = parse(&mut db, file);
    assert_eq!(new.schema.to_string(), "struct { }");
    assert_eq!(new.errors.len(), 1);
    // What was handed out before the change is still the old parse.
    assert_eq!(old.schema.to_string(), "struct A {}");
    assert_eq!(old.errors.len(), 0);
    assert_eq!(new.schema, parse_str("struct { }").schema);
}

#[test]
fn files_are_kept_apart() {
    let mut db = Database::new();
    db.push_files(vec![
        ("/a.kidl".to_string(), "struct A {}".to_string()),
        ("/b.kidl".to_string(), "struct B {}".to_string()),
        ("/a.kidl".to_string(), "struct C {}".to_string()),
    ]);
    let a = db.schema_file("/a.kidl").unwrap();
    let b = db.schema_file("/b.kidl").unwrap();
    assert!(db.schema_file("/c.kidl").is_none());
    assert_eq!(db.path(a), "/a.kidl");
    assert_eq!(db.text(a).to_string(), "struct C {}");
    assert_eq!(db.text(b).to_string(), "struct B {}");
    let parsed_b = parse(&mut db, b);
    db.set_text(a, Rope::from_str("struct D {}"));
    // A change of one file leaves what is remembered of another.
    assert!(same_node(&parse(&mut db, b).schema, &parsed_b.schema));
    assert_eq!(parse(&mut db, a).schema.to_string(), "struct D {}");
}

#[test]
fn a_snapshot_does_not_see_later_changes() {
    let mut db = Database::new();
    db.push_file("/a.kidl".to_string(), "struct A {}".to_string());
    let file = db.schema_file("/a.kidl").unwrap();
    let parsed = parse(&mut db, file);
    let mut snapshot = db.snapshot();
    db.set_text(file, Rope::from_str("struct B {}"));
    db.push_file("/b.kidl".to_string(), "".to_string());
    assert_eq!(snapshot.text(file).to_string(), "struct A {}");
    assert!(snapshot.schema_file("/b.kidl").is_none());
    // The snapshot remembers what the database remembered.
    assert!(same_node(&parse(&mut snapshot, file).schema, &parsed.schema));
    assert_eq!(parse(&mut db, file).schema.to_string(), "struct B {}");
}

#[test]
fn parses_share_storage_through_the_cache() {
    let mut db = Database::new();
    db.push_file("/a.kidl".to_string(), "struct Foo { a: Int, b?: String }".to_string());
    let file = db.schema_file("/a.kidl").unwrap();
    let before = parse(&mut db, file);
    let change = ContentChange {
        range: Some(Span {
            start: Position { line: 0, character: 16 },
            end: Position { line: 0, character: 19 },
        }),
        text: "Long".to_string(),
    };
    assert_eq!(edit(&mut db, "/a.kidl", vec![change]), Ok(()));
    let after = parse(&mut db, file);
    assert_eq!(after.errors.len(), 0);
    assert_eq!(after.schema.to_string(), "struct Foo { a: Long, b?: String }");
    assert!(!same_node(&before.schema, &after.schema));

    // Root > Struct > [struct, ' ', Foo, ' ', '{', ' ', field a, ' ', field b, '}']
    let old_struct = child_node(&before.schema, 0);
    let new_struct = child_node(&after.schema, 0);
    let (old_a, new_a) = (child_node(old_struct, 6), child_node(new_struct, 6));
    let (old_b, new_b) = (child_node(old_struct, 8), child_node(new_struct, 8));

    // Only the type of the edited field differs.
    assert_ne!(old_a, new_a);
    assert_eq!(child_node(old_a, 3).to_string(), "Int");
    assert_eq!(child_node(new_a, 3).to_string(), "Long");
    assert!(same_token(child_token(old_a, 0), child_token(new_a, 0)));
    assert!(same_token(child_token(old_a, 1), child_token(new_a, 1)));

    // The sibling field is the same by value, and its parts are the
    // same storage: the tokens, and the type node that holds one.
    assert_eq!(old_b, new_b);
    for index in [0, 1, 2, 3, 5] {
        assert!(same_token(child_token(old_b, index), child_token(new_b, index)));
    }
    assert!(same_node(child_node(old_b, 4), child_node(new_b, 4)));
    assert!(same_token(child_token(old_struct, 2), child_token(new_struct, 2)));
}

#[test]
fn parsing_twice_through_one_cache_shares_storage() {
    let mut db = Database::new();
    let text = "struct A { x: List<Int> }";
    db.push_file("/a.kidl".to_string(), text.to_string());
    db.push_file("/b.kidl".to_string(), text.to_string());
    let file_a = db.schema_file("/a.kidl").unwrap();
    let file_b = db.schema_file("/b.kidl").unwrap();
    let a = parse(&mut db, file_a);
    let b = parse(&mut db, file_b);
    assert_eq!(a.schema, b.schema);
    let field_a = child_node(child_node(&a.schema, 0), 6);
    let field_b = child_node(child_node(&b.schema, 0), 6);
    // Type(List TypeArguments(< Type(Int) >)): small nodes are shared.
    assert!(same_node(child_node(field_a, 3), child_node(field_b, 3)));
    // Trees from separate caches are equal and not shared.
    let c = parse_str(text);
    assert_eq!(a.schema, c.schema);
    assert!(!same_node(&a.schema, &c.schema));
    let cache = db.cache();
    drop(cache.node());
}

fn leaf_through(cache: &Cache) -> rowan::GreenNode {
    let mut guard = cache.node();
    let mut builder = rowan::GreenNodeBuilder::with_cache(&mut guard);
    builder.start_node(rowan::SyntaxKind(1000));
    builder.token(rowan::SyntaxKind(18), "shared");
    builder.finish_node();
    builder.finish()
}

#[test]
fn handles_are_handles_on_one_store() {
    let cache = Cache::new();
    let copy = cache.clone();
    let first = leaf_through(&cache);
    let second = leaf_through(&copy);
    assert!(same_node(&first, &second));
    // Another store holds equal trees in storage of its own.
    let other = leaf_through(&Cache::new());
    assert_eq!(first, other);
    assert!(!same_node(&first, &other));
}

#[test]
fn a_database_hands_out_its_store() {
    let mut db = Database::new();
    let before = leaf_through(&db.cache());
    db.push_file("/a.kidl".to_string(), "struct A {}".to_string());
    let file = db.schema_file("/a.kidl").unwrap();
    parse(&mut db, file);
    let after = leaf_through(&db.cache());
    let snapshot = leaf_through(&db.snapshot().cache());
    assert!(same_node(&before, &after));
    assert!(same_node(&before, &snapshot));
    assert!(!same_node(&before, &leaf_through(&Database::new().cache())));
}
