use rfs::path::{join, parent, starts_with};
use std::path::{Path, PathBuf};

#[test]
fn join_like_pathbuf() {
    for (base, rel) in [("/", "a"), ("/a", "b"), ("/a/", "b"), ("", "b"), ("/a", "/c"), ("/a", ""), ("a", "b/c")] {
        let expected = PathBuf::from(base).join(rel);
        assert_eq!(join(base, rel), expected.to_str().unwrap(), "{} + {}", base, rel);
    }
}

#[test]
fn starts_with_like_path() {
    let cases = [
        ("/tmp/rfs_storage/a", "/tmp/rfs_storage"),
        ("/tmp/rfs_storage", "/tmp/rfs_storage"),
        ("/tmp/rfs_storage2", "/tmp/rfs_storage"),
        ("/tmp//rfs_storage/./a", "/tmp/rfs_storage/"),
        ("/tmp/rfs_storage/../x", "/tmp/rfs_storage"),
        ("tmp/a", "/tmp"),
        ("./a/b", "./a"),
        ("./a/b", "a"),
        ("a/b", "a"),
        ("/", "/"),
        ("", ""),
        ("/a", ""),
    ];
    for (p, b) in cases {
        assert_eq!(starts_with(p, b), Path::new(p).starts_with(b), "{} starts with {}", p, b);
    }
}

#[test]
fn parent_like_path() {
    for p in ["/tmp/a", "/tmp/a/", "/a", "/", "", "a", "a/b", "/tmp/../x", "./a", "."] {
        let expected = Path::new(p).parent().map(|q| q.to_str().unwrap().to_string());
        assert_eq!(parent(p), expected, "parent of {}", p);
    }
}
