use odd::model::digest::sha256_hex;
use odd::model::entries::Entries;
use odd::model::id::ObjectId;
use odd::error::OddError;
use odd::model::object::{
    created_from_stored, creation_time, stored_time_or_refused,
    structural_id, time_text_at, ContentRef, Object, ObjectKind,
};

#[test]
fn identical_file_content_dedupes() {
    let a = Object::new_file(sha256_hex(b"hello")).unwrap();
    let b = Object::new_file(sha256_hex(b"hello")).unwrap();
    assert_eq!(
        a.id, b.id,
        "identical blob content must produce the same id"
    );
}

#[test]
fn different_file_content_differs() {
    let a = Object::new_file(sha256_hex(b"hello")).unwrap();
    let b = Object::new_file(sha256_hex(b"world")).unwrap();
    assert_ne!(a.id, b.id);
}

#[test]
fn directory_id_ignores_insertion_order() {
    let a_id = ObjectId(sha256_hex(b"a"));
    let b_id = ObjectId(sha256_hex(b"b"));

    let mut entries1 = Entries::new();
    entries1.insert("a.txt".to_string(), a_id.clone());
    entries1.insert("b.txt".to_string(), b_id.clone());

    let mut entries2 = Entries::new();
    entries2.insert("b.txt".to_string(), b_id);
    entries2.insert("a.txt".to_string(), a_id);

    let dir1 = Object::new_directory(entries1).unwrap();
    let dir2 = Object::new_directory(entries2).unwrap();
    assert_eq!(
        dir1.id, dir2.id,
        "entries are kept sorted by name, so insertion order must not matter"
    );
}

#[test]
fn empty_directory_is_a_stable_id() {
    let d1 = Object::new_directory(Entries::new()).unwrap();
    let d2 = Object::new_directory(Entries::new()).unwrap();
    assert_eq!(d1.id, d2.id);
}

#[test]
fn directory_and_file_never_collide_by_construction() {
    let f = Object::new_file(sha256_hex(b"same-bytes")).unwrap();
    let mut entries = Entries::new();
    entries.insert("x".to_string(), f.id.clone());
    let d = Object::new_directory(entries).unwrap();
    assert_ne!(f.id, d.id);
}

#[test]
fn sha256_hex_matches_known_digest() {
    assert_eq!(
        sha256_hex(b"hello"),
        "2cf24dba5fb0a30e26e83b2ac5b9e29e1b161e5c1fa7425e73043362938b9824"
    );
    assert_eq!(
        sha256_hex(b""),
        "e3b0c44298fc1c149afbf4c8996fb92427ae41e4649b934ca495991b7852b855"
    );
}

#[test]
fn empty_directory_id_is_hash_of_its_kind_line() {
    let d = Object::new_directory(Entries::new()).unwrap();
    assert_eq!(d.id.as_str(), sha256_hex(b"directory\n"));
    assert_eq!(d.kind, ObjectKind::Directory);
    assert!(d.parents.is_empty());
}

#[test]
fn structural_id_is_hash_of_sorted_entry_lines() {
    let a_id = ObjectId(sha256_hex(b"a"));
    let b_id = ObjectId(sha256_hex(b"b"));
    let mut entries = Entries::new();
    entries.insert("b.txt".to_string(), b_id.clone());
    entries.insert("a.txt".to_string(), a_id.clone());
    let expected = format!(
        "directory\na.txt\0{}\nb.txt\0{}\n",
        a_id.as_str(),
        b_id.as_str()
    );
    let id = structural_id(ObjectKind::Directory, &entries);
    assert_eq!(id.as_str(), sha256_hex(expected.as_bytes()));
}

#[test]
fn composed_and_directory_with_same_entries_differ() {
    let a_id = ObjectId(sha256_hex(b"a"));
    let mut e1 = Entries::new();
    e1.insert("a".to_string(), a_id.clone());
    let mut e2 = Entries::new();
    e2.insert("a".to_string(), a_id);
    let d = Object::new_directory(e1).unwrap();
    let c = Object::new_composed(e2).unwrap();
    assert_ne!(d.id, c.id);
    assert_eq!(c.kind, ObjectKind::Composed);
    let expected = format!("composed\na\0{}\n", sha256_hex(b"a"));
    assert_eq!(c.id.as_str(), sha256_hex(expected.as_bytes()));
}

#[test]
fn new_file_is_addressed_by_its_hash() {
    let h = sha256_hex(b"content");
    let f = Object::new_file(h.clone()).unwrap();
    assert_eq!(f.id.as_str(), h);
    assert_eq!(f.kind, ObjectKind::File);
    match &f.content {
        ContentRef::Blob { hash } => assert_eq!(hash, &h),
        ContentRef::Directory { .. } => panic!("a file holds a blob"),
    }
}

#[test]
fn looks_like_id_is_exact_length_hex() {
    let h = sha256_hex(b"x");
    assert!(ObjectId::looks_like_id(&h));
    assert!(ObjectId::looks_like_id(&h.to_uppercase()));
    assert!(!ObjectId::looks_like_id(&h[..63]));
    assert!(!ObjectId::looks_like_id(&format!("{h}0")));
    assert!(!ObjectId::looks_like_id("nonexistent-file"));
    let mut bad = h.clone();
    bad.replace_range(0..1, "g");
    assert!(!ObjectId::looks_like_id(&bad));
    assert!(!ObjectId::looks_like_id(""));
}

#[test]
fn kind_names_round_trip() {
    for k in [ObjectKind::File, ObjectKind::Directory, ObjectKind::Composed] {
        assert_eq!(ObjectKind::parse(k.name()).unwrap(), k);
    }
    assert_eq!(ObjectKind::File.name(), "file");
    assert_eq!(ObjectKind::Directory.name(), "directory");
    assert_eq!(ObjectKind::Composed.name(), "composed");
    match ObjectKind::parse("symlink") {
        Err(odd::error::OddError::UnknownKind { name }) => assert_eq!(name, "symlink"),
        other => panic!("expected an unknown kind, got {other:?}"),
    }
}

#[test]
fn hex_text_is_lower_case_two_digits_per_byte() {
    assert_eq!(odd::model::digest::hex_text(&[0x00, 0x0f, 0xa0, 0xff]), "000fa0ff");
    assert_eq!(odd::model::digest::hex_text(&[]), "");
}

#[test]
fn structural_preimage_lists_entries_in_name_order() {
    let mut e = Entries::new();
    e.insert("z".to_string(), ObjectId("1".to_string()));
    e.insert("a".to_string(), ObjectId("2".to_string()));
    assert_eq!(
        odd::model::object::structural_preimage_text(ObjectKind::Composed, &e),
        "composed\na\u{0}2\nz\u{0}1\n"
    );
    assert_eq!(
        odd::model::object::structural_preimage_text(ObjectKind::Directory, &Entries::new()),
        "directory\n"
    );
}

#[test]
fn stored_times_are_read_back_in_utc() {
    assert_eq!(
        created_from_stored("2024-01-02T03:04:05+02:00").unwrap(),
        "2024-01-02T01:04:05+00:00"
    );
    assert_eq!(
        created_from_stored("2024-01-02T01:04:05.5+00:00").unwrap(),
        "2024-01-02T01:04:05.500+00:00"
    );
    match created_from_stored("yesterday") {
        Err(e) => {
            assert_eq!(e.message(), "premature end of input");
            assert!(matches!(e, OddError::BadTimestamp { ref text, .. } if text == "yesterday"));
        }
        Ok(t) => panic!("expected a refusal, got {t}"),
    }
    match created_from_stored("yesterday at 10:00 a.m.") {
        Err(e) => assert_eq!(e.message(), "input contains invalid characters"),
        Ok(t) => panic!("expected a refusal, got {t}"),
    }
    assert_eq!(stored_time_or_refused("x", Ok("y".to_string())).unwrap(), "y");
    match stored_time_or_refused("x", Err("bad".to_string())) {
        Err(OddError::BadTimestamp { text, reason }) => {
            assert_eq!(text, "x");
            assert_eq!(reason, "bad");
        }
        other => panic!("expected a refusal, got {other:?}"),
    }
}

#[test]
fn new_objects_carry_a_readable_creation_time() {
    let f = Object::new_file(sha256_hex(b"t")).unwrap();
    assert_eq!(created_from_stored(&f.created).unwrap(), f.created);
    let now = creation_time().unwrap();
    assert_eq!(created_from_stored(&now).unwrap(), now);
}

#[test]
fn clock_instants_are_written_in_utc() {
    assert_eq!(time_text_at(0, 0).unwrap(), "1970-01-01T00:00:00+00:00");
    assert_eq!(
        time_text_at(1_700_000_000, 500_000_000).unwrap(),
        "2023-11-14T22:13:20.500+00:00"
    );
    // Seconds are taken as `i64`, wrapping as a cast does.
    assert_eq!(time_text_at(u64::MAX, 0).unwrap(), "1969-12-31T23:59:59+00:00");
    assert!(matches!(
        time_text_at(i64::MAX as u64, 0),
        Err(OddError::ClockUnreadable)
    ));
    // Past the year 9999 the year is written with a sign.
    assert_eq!(
        time_text_at(300_000_000_000, 0).unwrap(),
        "+11476-08-15T05:20:00+00:00"
    );
}

#[test]
fn different_entries_hash_different_preimages() {
    let mut a = Entries::new();
    a.insert("a".to_string(), ObjectId("bc".to_string()));
    let mut b = Entries::new();
    b.insert("ab".to_string(), ObjectId("c".to_string()));
    let pa = odd::model::object::structural_preimage_text(ObjectKind::Directory, &a);
    let pb = odd::model::object::structural_preimage_text(ObjectKind::Directory, &b);
    assert_ne!(pa, pb);
    assert_ne!(
        structural_id(ObjectKind::Directory, &a),
        structural_id(ObjectKind::Directory, &b)
    );
    assert_ne!(
        structural_id(ObjectKind::Directory, &a),
        structural_id(ObjectKind::Composed, &a)
    );
}
