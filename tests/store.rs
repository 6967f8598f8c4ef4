use minicdn::{EmbeddedMiniCdn, FilesystemMiniCdn, Lookup, MiniCdn, MiniCdnFile};
use std::borrow::Cow;

fn record(path: &str, contents: &[u8]) -> MiniCdnFile {
    MiniCdnFile::plain(path, contents.to_vec(), Some(1_600_000_000), 1_700_000_000)
}

fn tree_listing() -> Vec<(String, MiniCdnFile)> {
    vec![
        ("index.html".to_string(), record("index.html", b"<html></html>")),
        (
            "subtree/some_binary.bin".to_string(),
            record("subtree/some_binary.bin", &[0, 1, 2, 3]),
        ),
    ]
}

fn is_present(lookup: Lookup<'_>) -> bool {
    !matches!(lookup, Lookup::Absent)
}

#[test]
fn simple() {
    simple_tests(MiniCdn::new_filesystem_from_path(Cow::Borrowed("examples/tree")));
    simple_tests(MiniCdn::Embedded(EmbeddedMiniCdn::from_entries(tree_listing())));

    fn simple_tests(cdn: MiniCdn) {
        assert!(is_present(cdn.get("index.html")));
        assert!(!is_present(cdn.get("/index.html")));
        assert!(is_present(cdn.get("subtree/some_binary.bin")));
        assert!(!is_present(cdn.get("../include.rs")));
    }
}

#[test]
fn filesystem_lookup_names_path_under_root() {
    let cdn = MiniCdn::new_filesystem_from_path(Cow::Borrowed("examples/tree"));
    match cdn.get("subtree/some_binary.bin") {
        Lookup::ReadFrom(p) => assert_eq!(p, "examples/tree/subtree/some_binary.bin"),
        other => panic!("unexpected lookup {:?}", other),
    }
    let fs = FilesystemMiniCdn::new(Cow::Owned("/srv/www/".to_string()));
    assert_eq!(fs.root_path(), "/srv/www/");
    assert_eq!(fs.request("index.html"), Some("/srv/www/index.html".to_string()));
    assert_eq!(fs.request("a/../../etc/passwd"), None);
    assert_eq!(fs.request("logo.minicdn"), None);
}

#[test]
fn escaping_paths_absent_in_both_modes() {
    let fs = MiniCdn::new_filesystem_from_path(Cow::Borrowed("root"));
    let mut listing = tree_listing();
    listing.push(("a/../index.html".to_string(), record("index.html", b"x")));
    let embedded = MiniCdn::Embedded(EmbeddedMiniCdn::from_entries(listing));
    for path in ["..", "../x", "a/..", "subtree/../index.html", "a/../index.html"] {
        assert!(matches!(fs.get(path), Lookup::Absent), "{}", path);
        assert!(matches!(embedded.get(path), Lookup::Absent), "{}", path);
    }
}

#[test]
fn embedded_agrees_with_filesystem_records() {
    let listing = tree_listing();
    let expected = listing.clone();
    let embedded = EmbeddedMiniCdn::from_entries(listing);
    for (path, file) in &expected {
        let got = embedded.get(path).expect("present");
        assert_eq!(got.contents, file.contents);
        assert_eq!(got, file);
    }
}

#[test]
fn embedded_insert_get_remove() {
    let mut e = EmbeddedMiniCdn::default();
    assert!(e.get("a.txt").is_none());
    e.insert("a.txt".to_string(), record("a.txt", b"one"));
    assert_eq!(e.get("a.txt").unwrap().contents.as_slice(), b"one");
    e.insert("a.txt".to_string(), record("a.txt", b"two"));
    assert_eq!(e.get("a.txt").unwrap().contents.as_slice(), b"two");
    assert_eq!(e.iter().len(), 1);
    e.insert("b.txt".to_string(), record("b.txt", b"three"));
    assert_eq!(e.iter().len(), 2);
    e.remove("a.txt");
    assert!(e.get("a.txt").is_none());
    assert_eq!(e.iter().len(), 1);
    assert_eq!(e.iter()[0].0, "b.txt");
    e.remove("missing");
    assert_eq!(e.iter().len(), 1);
}

#[test]
fn from_entries_later_entry_wins() {
    let e = EmbeddedMiniCdn::from_entries(vec![
        ("a".to_string(), record("a", b"first")),
        ("a".to_string(), record("a", b"second")),
    ]);
    assert_eq!(e.iter().len(), 1);
    assert_eq!(e.get("a").unwrap().contents.as_slice(), b"second");
}

#[test]
fn insert_into_filesystem_store_materializes() {
    let mut cdn = MiniCdn::new_filesystem_from_path(Cow::Borrowed("examples/tree"));
    cdn.insert("new.txt".to_string(), record("new.txt", b"new"), tree_listing());
    assert!(matches!(cdn, MiniCdn::Embedded(_)));
    for p in ["index.html", "subtree/some_binary.bin", "new.txt"] {
        assert!(matches!(cdn.get(p), Lookup::Found(_)), "{}", p);
    }
    match cdn.get("new.txt") {
        Lookup::Found(f) => assert_eq!(f.contents.as_slice(), b"new"),
        other => panic!("unexpected lookup {:?}", other),
    }
    match cdn.get("index.html") {
        Lookup::Found(f) => assert_eq!(f.contents.as_slice(), b"<html></html>"),
        other => panic!("unexpected lookup {:?}", other),
    }
    cdn.insert("index.html".to_string(), record("index.html", b"v2"), Vec::new());
    assert!(matches!(cdn, MiniCdn::Embedded(_)));
    match cdn.get("index.html") {
        Lookup::Found(f) => assert_eq!(f.contents.as_slice(), b"v2"),
        other => panic!("unexpected lookup {:?}", other),
    }
}

#[test]
fn insert_into_embedded_store_ignores_listing() {
    let mut cdn = MiniCdn::default();
    cdn.insert("x".to_string(), record("x", b"x"), tree_listing());
    assert!(matches!(cdn.get("x"), Lookup::Found(_)));
    assert!(matches!(cdn.get("index.html"), Lookup::Absent));
}

#[test]
fn serve_only_inside_root() {
    let inside = FilesystemMiniCdn::serve("/srv/www/a.css", "/srv/www", b"body{}".to_vec(), Some(3), 4);
    let f = inside.expect("inside the root");
    assert_eq!(f.mime, "text/css");
    assert_eq!(f.contents.as_slice(), b"body{}");
    assert_eq!(f.last_modified, "3");
    assert!(FilesystemMiniCdn::serve("/etc/passwd", "/srv/www", b"x".to_vec(), None, 4).is_none());
}

#[test]
fn plain_record_metadata() {
    let f = MiniCdnFile::plain("/srv/www/index.html", b"hello".to_vec(), Some(1_600_000_000), 5);
    assert_eq!(f.mime, "text/html");
    assert_eq!(f.etag, "2cf24dba5fb0a30e26e83b2ac5b9e29e");
    assert_eq!(f.last_modified, "1600000000");
    assert_eq!(f.contents.as_slice(), b"hello");
    assert!(f.contents_brotli.is_none());
    assert!(f.contents_gzip.is_none());
    assert!(f.contents_webp.is_none());
    let g = MiniCdnFile::plain("logo.png", Vec::new(), None, 42);
    assert_eq!(g.mime, "image/png");
    assert_eq!(g.last_modified, "42");
    assert_eq!(g.etag, "e3b0c44298fc1c149afbf4c8996fb924");
    let h = MiniCdnFile::plain("blob.unknownext", Vec::new(), None, 0);
    assert_eq!(h.mime, "application/octet-stream");
}
