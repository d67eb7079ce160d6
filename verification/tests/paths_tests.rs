use instruckt::paths::{extension, join_os, os_extension};

#[test]
fn join_like_pathbuf_push() {
    assert_eq!(join_os(b"a", "b"), b"a/b");
    assert_eq!(join_os(b"a/", "b"), b"a/b");
    assert_eq!(join_os(b"", "b"), b"b");
    assert_eq!(join_os(b"a", "/b"), b"/b");
    assert_eq!(join_os(b"a", ""), b"a/");
    assert_eq!(join_os(b"a", "\u{e9}"), "a/\u{e9}".as_bytes());
    // A directory whose bytes are not UTF-8 is kept as it is.
    assert_eq!(join_os(b"/d\xff\xfe", "instruckt"), b"/d\xff\xfe/instruckt");
}

#[test]
fn extension_like_path_extension() {
    assert_eq!(extension("screenshots/abc.png").as_deref(), Some("png"));
    assert_eq!(extension("a/b.tar.gz").as_deref(), Some("gz"));
    assert_eq!(extension("a/.bashrc"), None);
    assert_eq!(extension("a/b."), Some(String::new()));
    assert_eq!(extension("noext"), None);
    assert_eq!(extension("x.md/"), Some("md".to_string()));
    assert_eq!(extension("x.md/."), Some("md".to_string()));
    assert_eq!(extension("a/.."), None);
    assert_eq!(extension("/"), None);
    assert_eq!(extension(""), None);
    assert_eq!(extension("dir.d/file"), None);
    assert_eq!(extension("..x"), Some("x".to_string()));
}

#[test]
fn extension_agrees_with_std() {
    for p in ["a.b", "a/b.c", ".x", "a..", "a/b/", "a/./", "./a.ts", "x/y.z/w", "é.ü"] {
        let ours = extension(p);
        let std_ext = std::path::Path::new(p).extension().map(|e| e.to_string_lossy().into_owned());
        assert_eq!(ours, std_ext, "path {p}");
    }
}

#[test]
fn os_extension_like_path_extension() {
    assert_eq!(os_extension(b"/data/screenshots/a.png"), Some(b"png".to_vec()));
    assert_eq!(os_extension(b"/d\xff/screenshots/a.webp"), Some(b"webp".to_vec()));
    assert_eq!(os_extension(b"/data/a.\xff"), Some(vec![0xff]));
    assert_eq!(os_extension(b"/data/.hidden"), None);
    assert_eq!(os_extension(b"/data/a.tar.gz/"), Some(b"gz".to_vec()));
    assert_eq!(os_extension(b"/data/a.png/.."), None);
    assert_eq!(os_extension(b"noext"), None);
}
