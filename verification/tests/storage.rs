use odd::error::OddError;
use odd::model::digest::sha256_hex;
use odd::model::id::ObjectId;
use odd::storage::binding::Binding;
use odd::storage::blobs::BlobStore;
use odd::storage::path::join_path;
use odd::storage::root::{
    is_hyphenated_uuid, odd_home, FindStep, parse_store_locator, slugify, Store, Workspace,
};
use odd::text::{string_of_chars, trim_white_space};

#[test]
fn join_follows_path_join_on_unix() {
    assert_eq!(join_path("/a", "b"), "/a/b");
    assert_eq!(join_path("/a/", "b"), "/a/b");
    assert_eq!(join_path("", "b"), "b");
    assert_eq!(join_path("/a", "/b"), "/b");
    assert_eq!(join_path("a", ""), "a/");
}

#[test]
fn slugify_makes_readable_store_names() {
    assert_eq!(slugify("My Project"), "my-project");
    assert_eq!(slugify("  --Hello,  World!!  "), "hello-world");
    assert_eq!(slugify("tmp.AbC123"), "tmp-abc123");
    assert_eq!(slugify("***"), "");
    assert_eq!(slugify(""), "");
    assert_eq!(slugify("über"), "ber");
    assert_eq!(slugify("a--b"), "a-b");
}

#[test]
fn odd_home_prefers_its_own_variable() {
    assert_eq!(
        odd_home(Some("/x".to_string()), Some("/home/u".to_string())).unwrap(),
        "/x"
    );
    assert_eq!(
        odd_home(None, Some("/home/u".to_string())).unwrap(),
        "/home/u/.local/share/odd"
    );
    assert!(matches!(odd_home(None, None), Err(OddError::HomeNotSet)));
}

#[test]
fn store_paths_live_under_the_data_home() {
    assert_eq!(Store::path_for_id("/h", "proj"), "/h/stores/proj");
    let s = Store::open("/h", "proj", true).unwrap();
    assert_eq!(s.id, "proj");
    assert_eq!(s.path, "/h/stores/proj");
    assert_eq!(s.db_path(), "/h/stores/proj/metadata.db");
    assert_eq!(s.objects_dir(), "/h/stores/proj/objects");
    match Store::open("/h", "gone", false) {
        Err(OddError::StoreNotFound { id }) => assert_eq!(id, "gone"),
        other => panic!("expected a missing store, got {other:?}"),
    }
}

#[test]
fn store_create_defaults_to_a_slug_of_the_hint() {
    let s = Store::create("/h", None, "My Project", "").unwrap();
    assert_eq!(s.id, "my-project");
    assert_eq!(s.path, "/h/stores/my-project");
    let named = Store::create("/h", Some("chosen".to_string()), "My Project", "").unwrap();
    assert_eq!(named.id, "chosen");
    assert!(!Store::needs_generated_id(&None, "My Project"));
    assert!(!Store::needs_generated_id(&Some("x".to_string()), "!!!"));
}

#[test]
fn store_create_falls_back_to_a_uuid_for_an_empty_slug() {
    assert!(Store::needs_generated_id(&None, "!!!"));
    let fresh = uuid::Uuid::now_v7().to_string();
    let s = Store::create("/h", None, "!!!", &fresh).unwrap();
    assert_eq!(s.id, fresh);
    assert_eq!(s.id.len(), 36);
    assert_eq!(s.id.matches('-').count(), 4);
    assert_eq!(s.path, format!("/h/stores/{}", s.id));
}

#[test]
fn store_create_refuses_a_generated_id_of_the_wrong_shape() {
    match Store::create("/h", None, "!!!", "not-a-uuid") {
        Err(e) => {
            assert!(matches!(e, OddError::BadGeneratedId { ref id } if id == "not-a-uuid"));
            assert_eq!(e.message(), "generated store id is not a UUID: not-a-uuid");
        }
        Ok(s) => panic!("expected a refusal, got {s:?}"),
    }
    assert!(Store::create("/h", None, "!!!", "").is_err());
    assert!(is_hyphenated_uuid("0190a5b2-3c4d-7e8f-9a0b-1c2d3e4f5a6b"));
    assert!(!is_hyphenated_uuid("0190A5B2-3C4D-7E8F-9A0B-1C2D3E4F5A6B"));
    assert!(!is_hyphenated_uuid("0190a5b23c4d7e8f9a0b1c2d3e4f5a6b"));
}

#[test]
fn init_creates_workspace_and_readable_store_name() {
    let ws = Workspace::init(Ok("/h".to_string()), "/work/Cool App", None, "", false)
        .unwrap();
    assert_eq!(ws.odd_dir, "/work/Cool App/.odd");
    assert_eq!(ws.store.id, "cool-app");
    assert_eq!(ws.store.path, "/h/stores/cool-app");
    let home = odd_home(None, Some("/u".to_string()));
    let ws2 = Workspace::init(home, "/tmp/project", None, "", false).unwrap();
    assert!(
        !ws2.store.id.contains('-') || ws2.store.id.len() != 36,
        "expected a readable slug, got what looks like a raw UUID: {}",
        ws2.store.id
    );
    assert_eq!(ws2.store.objects_dir(), "/u/.local/share/odd/stores/project/objects");

    let nameless = Workspace::init(Ok("/h".to_string()), "/", None, "", false).unwrap();
    assert_eq!(nameless.store.id, "workspace");

    match Workspace::init(Ok("/h".to_string()), "/work", None, "", true) {
        Err(OddError::WorkspaceExists { at }) => assert_eq!(at, "/work"),
        other => panic!("expected a refusal, got {other:?}"),
    }
}

#[test]
fn init_checks_for_a_workspace_before_the_data_directory() {
    match Workspace::init(odd_home(None, None), "/work", None, "", true) {
        Err(OddError::WorkspaceExists { at }) => assert_eq!(at, "/work"),
        other => panic!("expected a refusal, got {other:?}"),
    }
    match Workspace::init(odd_home(None, None), "/work", None, "", false) {
        Err(e) => assert_eq!(e.message(), "HOME not set"),
        other => panic!("expected a refusal, got {other:?}"),
    }
    assert_eq!(Workspace::store_hint("/work/Cool App"), "Cool App");
    assert_eq!(Workspace::store_hint("/"), "workspace");
    let fresh = uuid::Uuid::now_v7().to_string();
    let ws = Workspace::init(Ok("/h".to_string()), "/work/!!!", None, &fresh, false).unwrap();
    assert_eq!(ws.store.id, fresh);
    assert!(matches!(
        Workspace::init(Ok("/h".to_string()), "/work/!!!", None, "", false),
        Err(OddError::BadGeneratedId { .. })
    ));
}

#[test]
fn store_locator_is_trimmed() {
    assert_eq!(parse_store_locator("  my-store\n"), "my-store");
    assert_eq!(parse_store_locator("\t\u{3000}id\u{a0}"), "id");
    assert_eq!(parse_store_locator(" \n "), "");
    assert_eq!(trim_white_space("a b"), "a b");
}

#[test]
fn string_of_chars_keeps_every_character() {
    assert_eq!(string_of_chars(&vec!['o', 'd', 'é']), "odé");
    assert_eq!(string_of_chars(&vec![]), "");
}

#[test]
fn blobs_are_sharded_by_their_first_two_bytes() {
    let blobs = BlobStore::new("/s/objects".to_string());
    let h = sha256_hex(b"hello");
    assert_eq!(
        blobs.path_for_hash(&h),
        format!("/s/objects/2c/{h}")
    );
    assert_eq!(blobs.path_for_hash("a"), "/s/objects/a");
    assert_eq!(blobs.path_for_hash(""), "/s/objects/");
    assert_eq!(blobs.path_for_hash("éx"), "/s/objects/é/éx");
}

#[test]
fn unplaced_bindings_record_no_metadata() {
    let b = Binding::unplaced(
        "ns".to_string(),
        "bundle".to_string(),
        ObjectId(sha256_hex(b"x")),
    );
    assert_eq!(b.namespace_id, "ns");
    assert_eq!(b.name, "bundle");
    assert!(b.original_path.is_none() && b.mode.is_none() && b.mtime.is_none());
    let c = b.clone();
    assert_eq!(c.object_id, b.object_id);
}

#[test]
fn parent_dir_drops_the_last_name() {
    use_parent("/a/b", Some("/a"));
    use_parent("/a/b/", Some("/a"));
    use_parent("/a//b", Some("/a"));
    use_parent("/a", Some("/"));
    use_parent("/", None);
    use_parent("", None);
    use_parent("a", Some(""));
    use_parent("a/b", Some("a"));
}

fn use_parent(p: &str, expected: Option<&str>) {
    let got = odd::storage::path::parent_dir(p);
    assert_eq!(got.as_deref(), expected, "parent of {p:?}");
    let std_parent = std::path::Path::new(p)
        .parent()
        .map(|q| q.to_string_lossy().to_string());
    assert_eq!(got, std_parent, "std agrees on {p:?}");
}

#[test]
fn file_name_follows_std() {
    for p in [
        "a", "/a/b", "/a/b/", "a/.", "a/./", ".", "..", "a/..", "/", "", "./note.txt",
        ".///.", "x/./.", "/work/Cool App", "dir//", "a/.b",
    ] {
        let got = odd::storage::path::file_name(p);
        let std_name = std::path::Path::new(p)
            .file_name()
            .map(|n| n.to_string_lossy().to_string());
        assert_eq!(got, std_name, "file name of {p:?}");
    }
}

#[test]
fn finding_a_workspace_walks_up_to_the_root() {
    match Workspace::find_step("/work/app/src", true) {
        Ok(FindStep::Found { odd_dir }) => assert_eq!(odd_dir, "/work/app/src/.odd"),
        other => panic!("expected the workspace, got {other:?}"),
    }
    match Workspace::find_step("/work/app/src", false) {
        Ok(FindStep::Up { dir }) => assert_eq!(dir, "/work/app"),
        other => panic!("expected a step up, got {other:?}"),
    }
    match Workspace::find_step("/", false) {
        Err(e) => assert_eq!(e.message(), "not inside an odd workspace (no .odd found)"),
        other => panic!("expected a refusal, got {other:?}"),
    }
}
