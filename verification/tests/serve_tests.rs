use packuwus::codec::{decode_autorefresh, decode_download};
use packuwus::serve::{DownloadableUpdate, TryServeError};
use packuwus::store::PackUwUs;
use sha2::Digest;

fn store_with_foo() -> PackUwUs {
    let mut store = PackUwUs::new();
    store.add_file("autorun/foo.lua", String::from("print('hi')")).unwrap();
    store
}

#[test]
fn try_serve_without_changes_is_a_no_op() {
    let store = PackUwUs::new();
    let plan = store.try_serve(&Vec::new(), &Vec::new()).unwrap();
    assert!(plan.is_none());
}

#[test]
fn try_serve_without_marker_fails_and_leaves_store_unchanged() {
    let store = store_with_foo();
    let client_files = vec![Some(String::from("autorun/foo.lua"))];
    let err = store.try_serve(&client_files, &Vec::new()).unwrap_err();
    assert_eq!(err, TryServeError::PackedContentsNotSet);
    // Tracked files are untouched by the failed attempt.
    assert!(store.is_packed("autorun/foo.lua"));
    assert_eq!(store.file_content("autorun/foo.lua").unwrap(), "print('hi')");
}

#[test]
fn try_serve_plans_writes_hashes_and_advertisement() {
    let mut store = store_with_foo();
    store.set_packed_contents(String::from("marker"));

    let client_files = vec![
        Some(String::from("autorun/foo.lua")),
        Some(String::from("untracked.lua")),
        None,
        Some(String::from("autorun/foo.lua")),
    ];
    let downloadables = vec![
        String::from("maps/some_map.bsp"),
        String::from("data/serve_packuwus/old.bsp"),
        String::from("data/serve_packuwus/older.bsp"),
    ];

    let plan = store.try_serve(&client_files, &downloadables).unwrap().unwrap();

    // Fresh identifier: 32 lowercase hex characters, woven into the path.
    assert_eq!(plan.archive_id.len(), 32);
    assert!(plan.archive_id.chars().all(|c| c.is_ascii_hexdigit() && !c.is_ascii_uppercase()));
    assert_eq!(plan.out_path, format!("data/serve_packuwus/{}.bsp", plan.archive_id));

    // The archive equals what the store builds.
    assert_eq!(plan.archive, store.build_archive().unwrap());

    // Exactly the registry entries naming tracked files get the digest.
    assert_eq!(plan.hash_updates, vec![0, 3]);
    let expected = sha2::Sha256::digest(b"marker\0");
    assert_eq!(plan.user_data.as_slice(), expected.as_slice());

    // The first previously advertised archive entry is patched in place.
    assert_eq!(plan.downloadable, DownloadableUpdate::Patch(1));
}

#[test]
fn try_serve_appends_when_nothing_is_advertised() {
    let mut store = store_with_foo();
    store.set_packed_contents(String::from("m"));
    let downloadables = vec![String::from("maps/a.bsp"), String::from("sound/b.wav")];
    let plan = store.try_serve(&Vec::new(), &downloadables).unwrap().unwrap();
    assert_eq!(plan.downloadable, DownloadableUpdate::Append);
    assert!(plan.hash_updates.is_empty());
}

#[test]
fn two_serves_use_distinct_identifiers() {
    let mut store = store_with_foo();
    store.set_packed_contents(String::from("m"));
    let a = store.try_serve(&Vec::new(), &Vec::new()).unwrap().unwrap();
    let b = store.try_serve(&Vec::new(), &Vec::new()).unwrap().unwrap();
    assert_ne!(a.archive_id, b.archive_id);
}

#[test]
fn download_rewrite_builds_packet_for_tracked_file() {
    let mut store = store_with_foo();
    store.set_packed_contents(String::from("-- packed marker"));

    let path = String::from("autorun/foo.lua");
    let packet = store.download_rewrite(0x0042, Some(&path)).unwrap();
    let decoded = decode_download(&packet).unwrap();
    assert_eq!(decoded.file_id, 0x0042);
    // The rewritten download carries the pack marker, not the file content.
    assert_eq!(gmod_lzma::decompress(&decoded.compressed).unwrap(), b"-- packed marker\0");
    let expected = sha2::Sha256::digest(b"-- packed marker\0");
    assert_eq!(decoded.hash.as_slice(), expected.as_slice());
}

#[test]
fn download_rewrite_passes_through_when_not_applicable() {
    let mut store = store_with_foo();
    let path = String::from("autorun/foo.lua");
    // No pack marker set.
    assert!(store.download_rewrite(1, Some(&path)).is_none());
    store.set_packed_contents(String::from("m"));
    // Registry did not name a file.
    assert!(store.download_rewrite(1, None).is_none());
    // The named file is not tracked.
    let other = String::from("other.lua");
    assert!(store.download_rewrite(1, Some(&other)).is_none());
}

#[test]
fn handle_autorefresh_saves_rewrite_and_rebuilds_packet() {
    let mut store = store_with_foo();
    let (edited, packet) = store.handle_autorefresh(
        "autorun/foo.lua",
        String::from("print('hi')"),
        true,
        Some(String::from("print('rewritten')")),
    );
    assert!(edited);
    assert_eq!(store.file_content("autorun/foo.lua").unwrap(), "print('rewritten')");

    let packet = packet.unwrap();
    let decoded = decode_autorefresh(&packet).unwrap();
    assert_eq!(decoded.path, b"autorun/foo.lua");
    assert_eq!(gmod_lzma::decompress(&decoded.compressed).unwrap(), b"print('rewritten')\0");
}

#[test]
fn handle_autorefresh_without_rewrite_saves_original_only() {
    let mut store = store_with_foo();
    let (edited, packet) = store.handle_autorefresh(
        "autorun/foo.lua",
        String::from("print('reloaded')"),
        true,
        None,
    );
    assert!(edited);
    assert!(packet.is_none());
    assert_eq!(store.file_content("autorun/foo.lua").unwrap(), "print('reloaded')");
}

#[test]
fn handle_autorefresh_on_untracked_file_changes_nothing() {
    let mut store = store_with_foo();
    let (edited, packet) = store.handle_autorefresh(
        "other.lua",
        String::from("x"),
        false,
        None,
    );
    assert!(!edited);
    assert!(packet.is_none());
    assert!(!store.is_packed("other.lua"));
}
