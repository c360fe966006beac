use rfs::flags::OpenFlags;
use rfs::range::{content_range, parse_range, range_length, RangeError};
use rfs::server::{partial_read, rename_target, SafePath, PathError, ROOT_DIR};
use rfs::text::{format_u64, parse_u64};

fn chars(s: &str) -> Vec<char> {
    s.chars().collect()
}

#[test]
fn from_flags_read_only() {
    let f = OpenFlags::from_flags(libc::O_RDONLY).unwrap();
    assert!(f.is_read());
    assert!(!f.is_write());
    assert!(!f.is_create());
}

#[test]
fn from_flags_write_only_with_create() {
    let f = OpenFlags::from_flags(libc::O_WRONLY | libc::O_CREAT).unwrap();
    assert!(!f.is_read());
    assert!(f.is_write());
    assert!(f.is_create());
    assert!(!f.contains(OpenFlags::trunc()));
}

#[test]
fn from_flags_read_write_trunc_append() {
    let f = OpenFlags::from_flags(libc::O_RDWR | libc::O_TRUNC | libc::O_APPEND).unwrap();
    assert!(f.is_read());
    assert!(f.is_write());
    assert!(!f.is_create());
    assert!(f.contains(OpenFlags::trunc()));
    assert!(f.contains(OpenFlags::append()));
    assert_eq!(f, OpenFlags::read() | OpenFlags::write() | OpenFlags::trunc() | OpenFlags::append());
}

#[test]
fn from_flags_invalid_mode() {
    assert_eq!(OpenFlags::from_flags(3), None);
    assert_eq!(OpenFlags::from_flags(3 | libc::O_CREAT), None);
}

#[test]
fn from_flags_ignores_other_bits() {
    // O_LARGEFILE (0o100000 on x86_64) and other bits are dropped.
    let f = OpenFlags::from_flags(0o100000 | libc::O_RDONLY).unwrap();
    assert_eq!(f, OpenFlags::read());
}

#[test]
fn union_contains_either() {
    let u = OpenFlags::read() | OpenFlags::create();
    assert!(u.contains(OpenFlags::read()));
    assert!(u.contains(OpenFlags::create()));
    assert!(!u.contains(OpenFlags::write()));
    assert!(!OpenFlags::empty().contains(OpenFlags::read()));
}

#[test]
fn parse_u64_like_from_str() {
    assert_eq!(parse_u64(&chars("0")), Some(0));
    assert_eq!(parse_u64(&chars("+17")), Some(17));
    assert_eq!(parse_u64(&chars("18446744073709551615")), Some(u64::MAX));
    assert_eq!(parse_u64(&chars("18446744073709551616")), None);
    assert_eq!(parse_u64(&chars("")), None);
    assert_eq!(parse_u64(&chars("+")), None);
    assert_eq!(parse_u64(&chars("-1")), None);
    assert_eq!(parse_u64(&chars("12a")), None);
    for n in [0u64, 7, 10, 99, 123456789, u64::MAX] {
        assert_eq!(parse_u64(&chars(&format_u64(n))), Some(n));
        assert_eq!(format_u64(n), n.to_string());
    }
}

#[test]
fn parse_range_full_range() {
    assert_eq!(parse_range(Some("bytes=0-9"), 100), Ok((0, 9)));
    assert_eq!(parse_range(Some("bytes=10-"), 100), Ok((10, 99)));
    assert_eq!(parse_range(Some("bytes=10"), 100), Ok((10, 99)));
    assert_eq!(parse_range(Some("bytes=90-200"), 100), Ok((90, 99)));
    assert_eq!(parse_range(Some("bytes=5-x"), 100), Ok((5, 99)));
    assert_eq!(parse_range(Some("bytes=5-7-9"), 100), Ok((5, 7)));
}

#[test]
fn parse_range_errors() {
    assert_eq!(parse_range(None, 100), Err(RangeError::MissingHeader));
    assert_eq!(parse_range(Some("items=0-9"), 100), Err(RangeError::InvalidUnit));
    assert_eq!(parse_range(Some("bytes=-9"), 100), Err(RangeError::InvalidStart));
    assert_eq!(parse_range(Some("bytes=x-9"), 100), Err(RangeError::InvalidStart));
    assert_eq!(parse_range(Some("bytes=50-10"), 100), Err(RangeError::InvalidBounds));
    assert_eq!(parse_range(Some("bytes=100-"), 100), Err(RangeError::InvalidBounds));
}

#[test]
fn parse_range_empty_file() {
    assert_eq!(parse_range(Some("bytes=0-0"), 0), Ok((0, 0)));
    assert_eq!(parse_range(Some("bytes=40-50"), 0), Ok((0, 0)));
    assert_eq!(parse_range(Some("bytes=a-0"), 0), Err(RangeError::InvalidStart));
}

#[test]
fn content_range_and_length() {
    assert_eq!(content_range(0, 9, 100), "bytes 0-9/100");
    assert_eq!(range_length(0, 9), 10);
    assert_eq!(range_length(5, 5), 1);
    let p = partial_read(Some("bytes=10-19"), 15).unwrap();
    assert_eq!((p.start, p.end, p.length), (10, 14, 5));
    assert_eq!(p.content_range, "bytes 10-14/15");
    assert_eq!(partial_read(None, 15).unwrap_err(), RangeError::MissingHeader);
}

#[test]
fn safe_path_within_root() {
    let p = SafePath::from_canonical("/tmp/rfs_storage/a/b".to_string(), "/tmp/rfs_storage").unwrap();
    assert_eq!(p.into_inner(), "/tmp/rfs_storage/a/b");
    let root = SafePath::from_canonical("/tmp/rfs_storage".to_string(), "/tmp/rfs_storage").unwrap();
    assert_eq!(root.as_str(), "/tmp/rfs_storage");
}

#[test]
fn safe_path_refuses_traversal() {
    assert_eq!(
        SafePath::from_canonical("/tmp/rfs_storage2/x".to_string(), "/tmp/rfs_storage").err(),
        Some(PathError::Traversal)
    );
    assert_eq!(
        SafePath::from_canonical("/etc/passwd".to_string(), "/tmp/rfs_storage").err(),
        Some(PathError::Traversal)
    );
    assert_eq!(SafePath::from_canonical("/tmp".to_string(), "/tmp/rfs_storage").err(), Some(PathError::Traversal));
}

#[test]
fn safe_path_candidate() {
    assert_eq!(ROOT_DIR, "/tmp/rfs_storage");
    assert_eq!(SafePath::candidate("docs/a.txt"), "/tmp/rfs_storage/docs/a.txt");
    assert_eq!(SafePath::candidate(""), "/tmp/rfs_storage/");
    assert_eq!(SafePath::candidate("/etc"), "/etc");
}

#[test]
fn rename_target_in_parent() {
    assert_eq!(rename_target("/tmp/rfs_storage/a/old.txt", "new.txt"), Some("/tmp/rfs_storage/a/new.txt".to_string()));
    assert_eq!(rename_target("/x", "y"), Some("/y".to_string()));
    assert_eq!(rename_target("/", "y"), None);
    assert_eq!(rename_target("", "y"), None);
    assert_eq!(rename_target("a", "b"), Some("b".to_string()));
}
