use odd::model::digest::sha256_hex;
use odd::model::entries::Entries;
use odd::model::id::ObjectId;
use odd::model::order::{compare_names, Rank};

fn id(s: &str) -> ObjectId {
    ObjectId(sha256_hex(s.as_bytes()))
}

fn names(e: &Entries) -> Vec<String> {
    (0..e.len()).map(|i| e.name_at(i).clone()).collect()
}

#[test]
fn entries_stay_sorted_by_name() {
    let mut e = Entries::new();
    e.insert("b".to_string(), id("b"));
    e.insert("a".to_string(), id("a"));
    e.insert("c".to_string(), id("c"));
    e.insert("ab".to_string(), id("ab"));
    assert_eq!(names(&e), vec!["a", "ab", "b", "c"]);
    assert_eq!(e.len(), 4);
    assert_eq!(e.id_at(1), &id("ab"));
}

#[test]
fn insert_replaces_an_existing_name() {
    let mut e = Entries::new();
    e.insert("a".to_string(), id("1"));
    e.insert("a".to_string(), id("2"));
    assert_eq!(e.len(), 1);
    assert_eq!(e.get("a"), Some(&id("2")));
}

#[test]
fn get_finds_only_bound_names() {
    let mut e = Entries::new();
    e.insert("x".to_string(), id("x"));
    assert_eq!(e.get("x"), Some(&id("x")));
    assert_eq!(e.get("y"), None);
    assert_eq!(Entries::new().get("x"), None);
}

#[test]
fn remove_gives_back_the_id_and_unbinds() {
    let mut e = Entries::new();
    e.insert("a".to_string(), id("a"));
    e.insert("b".to_string(), id("b"));
    assert_eq!(e.remove("a"), Some(id("a")));
    assert_eq!(e.get("a"), None);
    assert_eq!(names(&e), vec!["b"]);
    assert_eq!(e.remove("a"), None);
    assert_eq!(e.len(), 1);
}

#[test]
fn from_pairs_lets_a_later_pair_win() {
    let pairs = vec![
        ("b".to_string(), id("1")),
        ("a".to_string(), id("2")),
        ("b".to_string(), id("3")),
    ];
    let e = Entries::from_pairs(&pairs);
    assert_eq!(names(&e), vec!["a", "b"]);
    assert_eq!(e.get("b"), Some(&id("3")));
}

#[test]
fn insert_pairs_extends_existing_entries() {
    let mut e = Entries::new();
    e.insert("a".to_string(), id("a"));
    e.insert_pairs(&vec![("b".to_string(), id("b")), ("a".to_string(), id("z"))]);
    assert_eq!(names(&e), vec!["a", "b"]);
    assert_eq!(e.get("a"), Some(&id("z")));
}

#[test]
fn clone_keeps_every_entry() {
    let mut e = Entries::new();
    e.insert("a".to_string(), id("a"));
    e.insert("b".to_string(), id("b"));
    let c = e.clone();
    assert_eq!(names(&c), names(&e));
    assert_eq!(c.get("b"), Some(&id("b")));
}

#[test]
fn names_compare_character_by_character() {
    assert_eq!(compare_names("a", "b"), Rank::Before);
    assert_eq!(compare_names("b", "a"), Rank::After);
    assert_eq!(compare_names("abc", "abc"), Rank::Same);
    assert_eq!(compare_names("ab", "abc"), Rank::Before);
    assert_eq!(compare_names("", "a"), Rank::Before);
    assert_eq!(compare_names("", ""), Rank::Same);
    assert_eq!(compare_names("B", "a"), Rank::Before);
    // Code-point order is byte order for UTF-8, as String's Ord has it.
    assert_eq!(compare_names("z", "é"), Rank::Before);
    assert_eq!(
        compare_names("z", "é") == Rank::Before,
        "z".to_string() < "é".to_string()
    );
}
