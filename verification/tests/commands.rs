use odd::commands::graft::{check_graft_entries, graft, graft_base, parse_graft_entry, shape_is_consistent};
use odd::commands::namespace::namespace_or_default;
use odd::commands::remember::{
    capture_kind, child_capture, child_name, remember_name, Capture, ChildCapture,
};
use odd::commands::resurrect::{check_destination, resurrect_destination};
use odd::commands::ungraft::{ungraft, ungraft_target_name};
use odd::error::OddError;
use odd::model::digest::sha256_hex;
use odd::model::entries::Entries;
use odd::model::id::ObjectId;
use odd::model::object::{ContentRef, Object, ObjectKind};
use odd::resolve::resolve;
use odd::storage::binding::Binding;
use odd::storage::path::join_path;

fn id(s: &str) -> ObjectId {
    ObjectId(sha256_hex(s.as_bytes()))
}

fn binding(name: &str, object: &ObjectId, path: Option<&str>) -> Binding {
    Binding {
        namespace_id: "manual:default".to_string(),
        name: name.to_string(),
        object_id: object.clone(),
        original_path: path.map(|p| p.to_string()),
        mode: None,
        mtime: None,
    }
}

fn entry_names(obj: &Object) -> Vec<String> {
    match &obj.content {
        ContentRef::Directory { entries } => (0..entries.len()).map(|i| entries.name_at(i).clone()).collect(),
        ContentRef::Blob { .. } => panic!("expected entries"),
    }
}

#[test]
fn identical_content_dedupes_to_one_object() {
    let a = Object::new_file(sha256_hex(b"same bytes")).unwrap();
    let b = Object::new_file(sha256_hex(b"same bytes")).unwrap();
    assert_eq!(
        a.id, b.id,
        "identical content must produce the same object id"
    );
}

#[test]
fn error_messages_name_what_went_wrong() {
    assert_eq!(OddError::NoGraftEntries.message(), "graft needs at least one entry=source pair");
    assert_eq!(
        OddError::IntoNotComposed { kind: ObjectKind::Directory, target: "app".to_string() }.message(),
        "--into target must be a composed object (it's a Directory): app"
    );
    assert_eq!(
        OddError::NoSuchEntry { entry: "B".to_string(), composed: "bundle".to_string() }.message(),
        "no such entry 'B' in bundle"
    );
    assert_eq!(
        OddError::DestinationExists { dest: "f".to_string() }.message(),
        "destination exists: f (use --force)"
    );
    assert_eq!(OddError::HomeNotSet.message(), "HOME not set");
}

#[test]
fn default_namespace_is_manual_default() {
    assert_eq!(namespace_or_default(None), "manual:default");
    assert_eq!(namespace_or_default(Some("x".to_string())), "x");
}

#[test]
fn show_rejects_a_name_that_was_never_remembered() {
    let err = resolve("manual:default", "nonexistent-file", None).unwrap_err();
    let stderr = err.message();
    assert!(
        stderr.contains("not remembered"),
        "expected a clear 'not remembered' error, got: {stderr}"
    );
    assert_eq!(stderr, "not remembered in namespace manual:default: nonexistent-file");
}

#[test]
fn nested_file_has_its_own_independent_binding() {
    let name = child_name(&child_name("app", "src"), "main.rs");
    assert_eq!(name, "app/src/main.rs");
    let file = id("fn main() {}");
    let (got, b) = resolve("manual:default", &name, Some(binding(&name, &file, Some("app/src/main.rs")))).unwrap();
    assert_eq!(got, file);
    assert_eq!(b.unwrap().name, "app/src/main.rs");
}

#[test]
fn resolve_uses_exact_length_rule() {
    let h = sha256_hex(b"a");
    let (got, b) = resolve("ns", &h, Some(binding("other", &id("z"), None))).unwrap();
    assert_eq!(got.as_str(), h);
    assert!(b.is_none());

    let target = id("t");
    let (got, b) = resolve("ns", "note.txt", Some(binding("note.txt", &target, Some("/p")))).unwrap();
    assert_eq!(got, target);
    assert_eq!(b.unwrap().original_path.as_deref(), Some("/p"));

    match resolve("ns", "nonexistent-file", None) {
        Err(OddError::NotRemembered { namespace_id, target }) => {
            assert_eq!(namespace_id, "ns");
            assert_eq!(target, "nonexistent-file");
        }
        other => panic!("expected not remembered, got {other:?}"),
    }
}

#[test]
fn graft_entries_split_at_the_first_equals() {
    assert_eq!(
        parse_graft_entry("README=readme.txt").unwrap(),
        ("README".to_string(), "readme.txt".to_string())
    );
    assert_eq!(
        parse_graft_entry("k=a=b").unwrap(),
        ("k".to_string(), "a=b".to_string())
    );
    assert_eq!(
        parse_graft_entry("k=").unwrap(),
        ("k".to_string(), "".to_string())
    );
    assert!(matches!(parse_graft_entry("noequals"), Err(OddError::MalformedGraftEntry { .. })));
    assert!(matches!(parse_graft_entry("=src"), Err(OddError::EmptyEntryName { .. })));
    assert!(matches!(check_graft_entries(&vec![]), Err(OddError::NoGraftEntries)));
    assert!(check_graft_entries(&vec!["a=b".to_string()]).is_ok());
}

#[test]
fn graft_composes_without_touching_disk_then_resurrects() {
    let sources = vec![
        ("README".to_string(), id("hi")),
        ("LICENSE".to_string(), id("mit")),
    ];
    let obj = graft(Entries::new(), &sources).unwrap();
    assert_eq!(obj.kind, ObjectKind::Composed);
    assert_eq!(entry_names(&obj), vec!["LICENSE", "README"]);
    let expected = format!(
        "composed\nLICENSE\0{}\nREADME\0{}\n",
        id("mit").as_str(),
        id("hi").as_str()
    );
    assert_eq!(obj.id.as_str(), sha256_hex(expected.as_bytes()));
    let dest = resurrect_destination("bundle", Some("out".to_string()), None).unwrap();
    assert_eq!(join_path(&dest, "README"), "out/README");
    assert_eq!(join_path(&dest, "LICENSE"), "out/LICENSE");
}

#[test]
fn graft_into_does_not_mutate_the_original() {
    let first = graft(Entries::new(), &vec![("A".to_string(), id("a"))]).unwrap();
    let before = first.id.clone();
    let base = graft_base(&first, "bundle").unwrap();
    let second = graft(base, &vec![("B".to_string(), id("b"))]).unwrap();
    assert_eq!(first.id, before);
    assert_eq!(entry_names(&first), vec!["A"]);
    assert_eq!(entry_names(&second), vec!["A", "B"]);
    assert_ne!(first.id, second.id);
}

#[test]
fn graft_into_rejects_a_non_composed_target() {
    let mut e = Entries::new();
    e.insert("f.txt".to_string(), id("x"));
    let dir = Object::new_directory(e).unwrap();
    assert!(shape_is_consistent(&dir));
    match graft_base(&dir, "app") {
        Err(e) => {
            let message = e.message();
            assert!(
                message.contains("composed"),
                "expected a clear error naming the kind mismatch, got: {message}"
            );
            match e {
                OddError::IntoNotComposed { kind, target } => {
                    assert_eq!(kind, ObjectKind::Directory);
                    assert_eq!(target, "app");
                }
                other => panic!("expected a kind refusal, got {other:?}"),
            }
        }
        other => panic!("expected a kind refusal, got {other:?}"),
    }
}

#[test]
fn shape_check_catches_a_composed_blob() {
    let mut obj = Object::new_file(sha256_hex(b"x")).unwrap();
    obj.kind = ObjectKind::Composed;
    assert!(!shape_is_consistent(&obj));
}

#[test]
fn ungraft_rebinds_the_same_name_by_default() {
    let bundle = graft(
        Entries::new(),
        &vec![("A".to_string(), id("a")), ("B".to_string(), id("b"))],
    )
    .unwrap();
    let after = ungraft(&bundle, "bundle", "B").unwrap();
    assert_eq!(entry_names(&after), vec!["A"]);
    assert_eq!(ungraft_target_name("bundle", None), "bundle");
}

#[test]
fn ungraft_as_leaves_the_original_binding_untouched() {
    let bundle = graft(
        Entries::new(),
        &vec![("A".to_string(), id("a")), ("B".to_string(), id("b"))],
    )
    .unwrap();
    let before = bundle.id.clone();
    let after = ungraft(&bundle, "bundle", "B").unwrap();
    assert_eq!(
        ungraft_target_name("bundle", Some("bundle-without-b".to_string())),
        "bundle-without-b"
    );
    assert_eq!(bundle.id, before);
    assert_eq!(entry_names(&bundle), vec!["A", "B"]);
    assert_eq!(entry_names(&after), vec!["A"]);
}

#[test]
fn ungraft_undoes_a_graft() {
    let base = graft(Entries::new(), &vec![("A".to_string(), id("a"))]).unwrap();
    let grown = graft(
        graft_base(&base, "bundle").unwrap(),
        &vec![("B".to_string(), id("b"))],
    )
    .unwrap();
    let back = ungraft(&grown, "bundle2", "B").unwrap();
    assert_eq!(back.id, base.id);
}

#[test]
fn ungraft_rejects_a_non_composed_target() {
    let file = Object::new_file(sha256_hex(b"a")).unwrap();
    let err = ungraft(&file, "a.txt", "whatever").unwrap_err();
    let message = err.message();
    assert!(message.contains("composed"), "got: {message}");
    match err {
        OddError::UngraftNotComposed { kind, target } => {
            assert_eq!(kind, ObjectKind::File);
            assert_eq!(target, "a.txt");
        }
        other => panic!("expected a kind refusal, got {other:?}"),
    }
}

#[test]
fn ungraft_rejects_an_entry_that_does_not_exist() {
    let bundle = graft(Entries::new(), &vec![("A".to_string(), id("a"))]).unwrap();
    let err = ungraft(&bundle, "bundle", "does-not-exist").unwrap_err();
    let message = err.message();
    assert!(message.contains("no such entry"), "got: {message}");
    match err {
        OddError::NoSuchEntry { entry, composed } => {
            assert_eq!(entry, "does-not-exist");
            assert_eq!(composed, "bundle");
        }
        other => panic!("expected no such entry, got {other:?}"),
    }
}

#[test]
fn deduped_object_resurrects_each_binding_to_its_own_path() {
    let shared = id("hello from odd");
    let a = binding("note.txt", &shared, Some("/p/note.txt"));
    let b = binding("note-copy.txt", &shared, Some("/p/note-copy.txt"));
    assert_eq!(resurrect_destination("note.txt", None, Some(a)).unwrap(), "/p/note.txt");
    assert_eq!(
        resurrect_destination("note-copy.txt", None, Some(b)).unwrap(),
        "/p/note-copy.txt"
    );
    let c = binding("x", &shared, Some("/p/x"));
    assert_eq!(
        resurrect_destination("x", Some("out".to_string()), Some(c)).unwrap(),
        "out"
    );
    match resurrect_destination("bundle", None, Some(binding("bundle", &shared, None))) {
        Err(OddError::NoDestination { target }) => assert_eq!(target, "bundle"),
        other => panic!("expected no destination, got {other:?}"),
    }
    assert!(matches!(
        resurrect_destination(&sha256_hex(b"q"), None, None),
        Err(OddError::NoDestination { .. })
    ));
}

#[test]
fn destinations_are_guarded() {
    let blob = ContentRef::Blob { hash: sha256_hex(b"x") };
    assert!(check_destination(&blob, "f", false, false, false).is_ok());
    assert!(matches!(
        check_destination(&blob, "f", true, false, false),
        Err(OddError::DestinationExists { .. })
    ));
    assert!(check_destination(&blob, "f", true, false, true).is_ok());
    let dir = ContentRef::Directory { entries: Entries::new() };
    assert!(check_destination(&dir, "d", true, true, false).is_ok());
    assert!(check_destination(&dir, "d", false, false, false).is_ok());
    assert!(matches!(
        check_destination(&dir, "d", true, false, true),
        Err(OddError::DestinationNotDirectory { .. })
    ));
}

#[test]
fn directory_without_recursive_flag_is_refused() {
    assert_eq!(capture_kind("app", true, false, true).unwrap(), Capture::Directory);
    let err = capture_kind("app", true, false, false).unwrap_err();
    let stderr = err.message();
    assert!(stderr.contains("recursive"), "expected a clear error, got: {stderr}");
    assert_eq!(stderr, "app is a directory; pass -r/--recursive to remember it");
    match err {
        OddError::NeedsRecursive { path } => assert_eq!(path, "app"),
        other => panic!("expected a refusal, got {other:?}"),
    }
    assert_eq!(capture_kind("a.txt", false, true, false).unwrap(), Capture::File);
    assert!(matches!(
        capture_kind("fifo", false, false, true),
        Err(OddError::NotFileOrDirectory { .. })
    ));
}

#[test]
fn capture_names() {
    assert_eq!(remember_name(Some("n".to_string()), "p/f"), "n");
    assert_eq!(remember_name(None, "p/f"), "f");
    assert_eq!(remember_name(None, "note.txt"), "note.txt");
    assert_eq!(remember_name(None, ".."), "..");
    assert_eq!(remember_name(None, "app/"), "app");
    assert_eq!(child_name("app", "src"), "app/src");
    assert_eq!(child_name(&child_name("app", "src"), "main.rs"), "app/src/main.rs");
}

#[test]
fn directory_round_trips_including_nested_subdir() {
    let readme = Object::new_file(sha256_hex(b"hello app")).unwrap();
    let main = Object::new_file(sha256_hex(b"fn main() {}")).unwrap();
    let src = Object::new_directory(Entries::from_pairs(&vec![(
        "main.rs".to_string(),
        main.id.clone(),
    )]))
    .unwrap();
    let app = Object::new_directory(Entries::from_pairs(&vec![
        ("src".to_string(), src.id.clone()),
        ("README.md".to_string(), readme.id.clone()),
    ]))
    .unwrap();
    assert_eq!(entry_names(&app), vec!["README.md", "src"]);
    match &app.content {
        ContentRef::Directory { entries } => {
            assert_eq!(entries.get("README.md"), Some(&readme.id));
            assert_eq!(entries.get("src"), Some(&src.id));
        }
        ContentRef::Blob { .. } => panic!("a directory holds entries"),
    }
    let dest = resurrect_destination(
        "app",
        None,
        Some(binding("app", &app.id, Some("/p/app"))),
    )
    .unwrap();
    assert_eq!(join_path(&join_path(&dest, "src"), "main.rs"), "/p/app/src/main.rs");
    assert!(check_destination(&app.content, &dest, false, false, false).is_ok());
}

#[test]
fn directory_walk_skips_symlinks_and_special_files() {
    assert_eq!(child_capture(false, true, false), ChildCapture::Directory);
    assert_eq!(child_capture(false, false, true), ChildCapture::File);
    assert_eq!(child_capture(true, false, false), ChildCapture::Skipped);
    assert_eq!(child_capture(false, false, false), ChildCapture::Skipped);
}
