use qa_store::table::Table;

fn text(s: &str) -> String {
    s.to_string()
}

#[test]
fn new_table_is_empty() {
    let table: Table<String> = Table::new();
    assert!(table.is_empty());
    assert_eq!(table.len(), 0);
    assert!(!table.contains_key(&text("a")));
    assert_eq!(table.get(&text("a")), None);
}

#[test]
fn insert_appends_new_keys_in_order() {
    let mut table: Table<String> = Table::new();
    table.insert(text("b"), text("first"));
    table.insert(text("a"), text("second"));
    table.insert(text("c"), text("third"));
    assert_eq!(table.len(), 3);
    assert!(!table.is_empty());
    assert_eq!(table.key_at(0), &text("b"));
    assert_eq!(table.key_at(1), &text("a"));
    assert_eq!(table.key_at(2), &text("c"));
    assert_eq!(table.value_at(0), &text("first"));
    assert_eq!(table.value_at(1), &text("second"));
    assert_eq!(table.value_at(2), &text("third"));
}

#[test]
fn insert_on_a_present_key_replaces_in_place() {
    let mut table: Table<String> = Table::new();
    table.insert(text("a"), text("one"));
    table.insert(text("b"), text("two"));
    table.insert(text("a"), text("uno"));
    assert_eq!(table.len(), 2);
    assert_eq!(table.key_at(0), &text("a"));
    assert_eq!(table.value_at(0), &text("uno"));
    assert_eq!(table.key_at(1), &text("b"));
    assert_eq!(table.value_at(1), &text("two"));
    assert_eq!(table.get(&text("a")), Some(&text("uno")));
}

#[test]
fn get_and_contains_key_tell_present_from_absent() {
    let mut table: Table<String> = Table::new();
    table.insert(text("a"), text("one"));
    assert!(table.contains_key(&text("a")));
    assert!(!table.contains_key(&text("A")));
    assert!(!table.contains_key(&text("")));
    assert_eq!(table.get(&text("a")), Some(&text("one")));
    assert_eq!(table.get(&text("aa")), None);
}

#[test]
fn the_empty_text_is_a_key_like_any_other() {
    let mut table: Table<String> = Table::new();
    table.insert(text(""), text("nameless"));
    assert!(table.contains_key(&text("")));
    assert_eq!(table.get(&text("")), Some(&text("nameless")));
    assert_eq!(table.len(), 1);
}

#[test]
fn replace_changes_only_a_present_key() {
    let mut table: Table<String> = Table::new();
    table.insert(text("a"), text("one"));
    table.insert(text("b"), text("two"));
    assert!(table.replace(&text("b"), text("deux")));
    assert_eq!(table.len(), 2);
    assert_eq!(table.key_at(1), &text("b"));
    assert_eq!(table.value_at(1), &text("deux"));
    assert_eq!(table.value_at(0), &text("one"));
    assert!(!table.replace(&text("c"), text("trois")));
    assert_eq!(table.len(), 2);
    assert!(!table.contains_key(&text("c")));
    assert_eq!(table.value_at(0), &text("one"));
    assert_eq!(table.value_at(1), &text("deux"));
}

#[test]
fn remove_hands_back_the_value_and_closes_the_gap() {
    let mut table: Table<String> = Table::new();
    table.insert(text("a"), text("one"));
    table.insert(text("b"), text("two"));
    table.insert(text("c"), text("three"));
    assert_eq!(table.remove(&text("b")), Some(text("two")));
    assert_eq!(table.len(), 2);
    assert_eq!(table.key_at(0), &text("a"));
    assert_eq!(table.key_at(1), &text("c"));
    assert_eq!(table.value_at(1), &text("three"));
    assert!(!table.contains_key(&text("b")));
    assert_eq!(table.remove(&text("b")), None);
    assert_eq!(table.len(), 2);
}

#[test]
fn a_removed_key_comes_back_as_the_last_entry() {
    let mut table: Table<String> = Table::new();
    table.insert(text("a"), text("one"));
    table.insert(text("b"), text("two"));
    assert_eq!(table.remove(&text("a")), Some(text("one")));
    table.insert(text("a"), text("again"));
    assert_eq!(table.len(), 2);
    assert_eq!(table.key_at(0), &text("b"));
    assert_eq!(table.key_at(1), &text("a"));
    assert_eq!(table.value_at(1), &text("again"));
}
