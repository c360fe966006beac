use rfs::api::{Api, IoErrorKind, ReadPlan};
use rfs::cache::Cache;
use rfs::flags::OpenFlags;
use rfs::listing::directory_items;
use rfs::model::{CachedFile, FileAttributes, FileEntry, FileKind, FileMetadata, Fd, Inode, Pid, RenameRequest, RfsFile, Timestamp};
use rfs::remote_fs::{FsError, Release, RemoteFs, Unlink};

fn entry(ino: u64, name: &str, is_dir: bool, size: u64) -> FileEntry {
    FileEntry {
        ino,
        name: name.to_string(),
        is_dir,
        size,
        modified_at: Timestamp { secs: 1_700_000_000, nanos: 5 },
        permissions: 0o644,
    }
}

#[test]
fn api_addresses() {
    let api = Api::new();
    assert_eq!(api.base_url, "http://127.0.0.1:8080/api/");
    assert_eq!(api.list_dir_url("/docs"), "http://127.0.0.1:8080/api/list/docs");
    assert_eq!(api.list_dir_url("/"), "http://127.0.0.1:8080/api/list/");
    assert_eq!(api.write_file_contents_url("/a.txt"), "http://127.0.0.1:8080/api/files/a.txt");
    assert_eq!(api.delete_file_url("/a.txt"), "http://127.0.0.1:8080/api/files/a.txt");
    assert_eq!(api.create_directory_url("//new/dir"), "http://127.0.0.1:8080/api/mkdir/new/dir");
}

#[test]
fn api_read_request() {
    let api = Api::new();
    match api.read_file_contents_request("/docs/a.txt", 100, 50) {
        ReadPlan::Fetch { url, range } => {
            assert_eq!(url, "http://127.0.0.1:8080/api/files/docs/a.txt");
            assert_eq!(range, "bytes=100-149");
        }
        ReadPlan::Nothing => panic!("a read of 50 bytes asks the server"),
    }
    assert!(matches!(api.read_file_contents_request("/a", 7, 0), ReadPlan::Nothing));
}

#[test]
fn read_request_is_what_server_grants() {
    let api = Api::new();
    let range = match api.read_file_contents_request("/a", 10, 100) {
        ReadPlan::Fetch { range, .. } => range,
        ReadPlan::Nothing => unreachable!(),
    };
    assert_eq!(rfs::range::parse_range(Some(&range), 1000), Ok((10, 109)));
    assert_eq!(rfs::range::parse_range(Some(&range), 50), Ok((10, 49)));
    assert_eq!(rfs::range::parse_range(Some(&range), 5), Err(rfs::range::RangeError::InvalidBounds));
}

#[test]
fn api_outcomes() {
    assert_eq!(Api::read_file_contents_outcome(206, Some(vec![1, 2, 3])), Ok(vec![1, 2, 3]));
    assert_eq!(Api::read_file_contents_outcome(206, None), Err(IoErrorKind::Other));
    assert_eq!(Api::read_file_contents_outcome(404, Some(vec![])), Err(IoErrorKind::NotFound));
    assert_eq!(Api::read_file_contents_outcome(200, Some(vec![1])), Err(IoErrorKind::Other));
    assert_eq!(Api::write_file_contents_outcome(201), Ok(()));
    assert_eq!(Api::write_file_contents_outcome(500), Err(IoErrorKind::PermissionDenied));
    assert_eq!(Api::status_outcome(204), Ok(()));
    assert_eq!(Api::status_outcome(404), Err(404));
}

#[test]
fn api_rename_request() {
    let api = Api::new();
    let plan = api.rename_entry_request("/dir/old.txt", "new \"name\".txt").unwrap();
    assert_eq!(plan.url, "http://127.0.0.1:8080/api/files/dir/old.txt");
    assert_eq!(plan.body, "{\"new_name\":\"new \\\"name\\\".txt\"}");
    let v: serde_json::Value = serde_json::from_str(&plan.body).unwrap();
    assert_eq!(v["new_name"], "new \"name\".txt");
}

#[test]
fn cache_starts_with_root() {
    let cache = Cache::new();
    let root = cache.get_file_by_ino(Inode(1)).unwrap();
    assert_eq!(root.file_path, "/");
    assert_eq!(root.file_entry.ino, 1);
    assert!(root.file_entry.is_dir);
    assert_eq!(root.file_entry.permissions, 0o755);
    assert!(cache.get_file_by_ino(Inode(2)).is_none());
}

#[test]
fn cache_records_listing() {
    let mut cache = Cache::new();
    cache.record_listing("/", &vec![entry(5, "a.txt", false, 10), entry(6, "sub", true, 4096)]);
    cache.record_listing("/sub", &vec![entry(7, "b.txt", false, 3), entry(7, "b2.txt", false, 4)]);
    assert_eq!(cache.get_file_by_ino(Inode(5)).unwrap().file_path, "/a.txt");
    assert_eq!(cache.get_file_by_ino(Inode(6)).unwrap().file_path, "/sub");
    let b = cache.get_file_by_ino(Inode(7)).unwrap();
    assert_eq!(b.file_path, "/sub/b2.txt");
    assert_eq!(b.file_entry.size, 4);
    assert!(cache.contains(Inode(1)));
}

#[test]
fn cache_content_requests() {
    let api = Api::new();
    let mut cache = Cache::new();
    cache.add_to_cache("/docs/a.txt".to_string(), entry(9, "a.txt", false, 100));
    match cache.get_file_content(&api, Inode(9), 0, 10).unwrap() {
        ReadPlan::Fetch { url, range } => {
            assert_eq!(url, "http://127.0.0.1:8080/api/files/docs/a.txt");
            assert_eq!(range, "bytes=0-9");
        }
        ReadPlan::Nothing => panic!(),
    }
    assert_eq!(cache.get_file_content(&api, Inode(10), 0, 10).unwrap_err(), IoErrorKind::Other);
    assert_eq!(cache.write_file_content(&api, Inode(9)).unwrap(), "http://127.0.0.1:8080/api/files/docs/a.txt");
    assert_eq!(cache.write_file_content(&api, Inode(10)).unwrap_err(), IoErrorKind::NotFound);
    cache.remove(Inode(9));
    assert!(cache.get_file_by_ino(Inode(9)).is_none());
}

#[test]
fn rfs_file_from_cached() {
    let f = RfsFile::from(CachedFile { file_entry: entry(3, "x", false, 1), file_path: "/x".to_string() });
    assert_eq!(f.hard_link, 1);
    assert!(f.fds.is_empty());
    assert_eq!(f.file_path, "/x");
}

#[test]
fn attributes_of_entry() {
    let a = FileAttributes::from(entry(5, "a", false, 100));
    assert_eq!(a.ino, 5);
    assert_eq!(a.blocks, 5);
    assert_eq!(a.kind, FileKind::RegularFile);
    assert_eq!(a.perm, 0o644);
    assert_eq!((a.uid, a.gid, a.nlink, a.blksize), (1000, 1000, 0, 512));
    assert_eq!(a.mtime, Timestamp { secs: 1_700_000_000, nanos: 5 });
    let mut e = entry(6, "d", true, 4096);
    e.permissions = 0o40755;
    let d = FileAttributes::from(e);
    assert_eq!(d.kind, FileKind::Directory);
    assert_eq!(d.blocks, 0);
    assert_eq!(d.perm, 0o40755);
}

#[test]
fn entry_from_metadata() {
    let e = FileEntry::from_metadata(
        "f".to_string(),
        FileMetadata { ino: 4, is_dir: false, len: 12, modified: None, mode: 0o100644 },
    );
    assert_eq!(e.modified_at, Timestamp { secs: 0, nanos: 0 });
    assert_eq!((e.ino, e.size, e.permissions, e.is_dir), (4, 12, 0o100644, false));
    assert_eq!(e.name, "f");
}

#[test]
fn listing_sorted_and_offset() {
    let es = vec![entry(9, "c", false, 1), entry(3, "a", true, 1), entry(5, "b", false, 1), entry(3, "a2", false, 1)];
    let all = directory_items(&es, 0);
    let inos: Vec<u64> = all.iter().map(|i| i.ino).collect();
    assert_eq!(inos, vec![3, 3, 5, 9]);
    assert_eq!(all[0].name, "a");
    assert_eq!(all[1].name, "a2");
    assert_eq!(all[0].kind, FileKind::Directory);
    let offsets: Vec<i64> = all.iter().map(|i| i.offset).collect();
    assert_eq!(offsets, vec![1, 2, 3, 4]);
    let rest = directory_items(&es, 2);
    assert_eq!(rest.len(), 2);
    assert_eq!((rest[0].ino, rest[0].offset), (5, 3));
    assert!(directory_items(&es, 4).is_empty());
    assert!(directory_items(&es, -1).is_empty());
}

#[test]
fn errno_values() {
    assert_eq!(FsError::InvalidArgument.errno(), libc::EINVAL);
    assert_eq!(FsError::BadDescriptor.errno(), libc::EBADF);
    assert_eq!(FsError::NotFound.errno(), libc::ENOENT);
    assert_eq!(FsError::NoData.errno(), libc::ENODATA);
    assert_eq!(FsError::AccessDenied.errno(), libc::EACCES);
}

#[test]
fn plain_ids() {
    assert_eq!(Fd(3), Fd(3));
    assert_ne!(Pid(1), Pid(2));
    assert_eq!(Inode(7).0, 7);
    let r = RenameRequest::new("x".to_string());
    assert_eq!(r.new_name(), "x");
}

fn fs_with_file() -> RemoteFs {
    let mut fs = RemoteFs::new();
    let listing = vec![entry(5, "a.txt", false, 10)];
    let found = fs.get_file_in_dir("/", &listing, "a.txt").unwrap();
    assert_eq!(found.ino, 5);
    fs
}

#[test]
fn open_hands_out_new_descriptors() {
    let mut fs = fs_with_file();
    let a = fs.open(Inode(5), OpenFlags::read());
    let b = fs.open(Inode(5), OpenFlags::write());
    assert_eq!(a.fd, Fd(4));
    assert_eq!(b.fd, Fd(5));
    assert_eq!(a.ino, Inode(5));
    assert_eq!(fs.last_fd(), 5);
    assert_eq!(fs.open_with_flags(5, libc::O_RDWR), Ok(Fd(6)));
    assert_eq!(fs.open_with_flags(5, 3), Err(FsError::InvalidArgument));
    assert_eq!(fs.open_with_flags(99, 3), Err(FsError::InvalidArgument));
}

#[test]
fn release_closes_once() {
    let mut fs = fs_with_file();
    let a = fs.open(Inode(5), OpenFlags::read());
    assert!(matches!(fs.release(Inode(5), a.fd), Release::Released));
    assert!(matches!(fs.release(Inode(5), a.fd), Release::NotOpen));
    assert!(matches!(fs.release(Inode(5), Fd(77)), Release::NotOpen));
}

#[test]
fn unlink_then_release_deletes() {
    let mut fs = fs_with_file();
    let a = fs.open(Inode(5), OpenFlags::read());
    assert!(matches!(fs.unlink(Inode(5)), Unlink::Unlinked));
    assert!(matches!(fs.unlink(Inode(5)), Unlink::NoLinks));
    match fs.release(Inode(5), a.fd) {
        Release::DeleteRemote { path, opened } => {
            assert_eq!(path, "/a.txt");
            assert_eq!(opened, a);
            assert!(fs.finish_release(Inode(5), opened, true));
        }
        _ => panic!("the last release of an unlinked file deletes it"),
    }
    assert!(!fs.is_cached(Inode(5)));
    assert!(matches!(fs.unlink(Inode(5)), Unlink::NotFound));
}

#[test]
fn failed_delete_keeps_descriptor() {
    let mut fs = fs_with_file();
    let a = fs.open(Inode(5), OpenFlags::read());
    assert!(matches!(fs.unlink(Inode(5)), Unlink::Unlinked));
    let opened = match fs.release(Inode(5), a.fd) {
        Release::DeleteRemote { opened, .. } => opened,
        _ => panic!(),
    };
    assert!(!fs.finish_release(Inode(5), opened, false));
    assert!(matches!(fs.release(Inode(5), a.fd), Release::Released));
}

#[test]
fn unlink_without_descriptors_deletes() {
    let mut fs = fs_with_file();
    match fs.unlink(Inode(5)) {
        Unlink::DeleteRemote { path } => assert_eq!(path, "/a.txt"),
        _ => panic!(),
    }
    assert!(!fs.finish_unlink(Inode(5), false));
    assert!(fs.is_cached(Inode(5)));
    assert!(fs.finish_unlink(Inode(5), true));
    assert!(!fs.is_cached(Inode(5)));
}

#[test]
fn lookup_and_getattr() {
    let mut fs = RemoteFs::new();
    assert_eq!(fs.lookup_dir(Inode(1)), Some("/".to_string()));
    assert_eq!(fs.lookup_dir(Inode(2)), None);
    let listing = vec![entry(5, "a.txt", false, 10), entry(6, "b.txt", false, 20)];
    assert!(fs.get_file_in_dir("/", &listing, "zzz").is_none());
    assert_eq!(fs.get_file_in_dir("/", &listing, "b.txt").unwrap().size, 20);
    assert_eq!(fs.getattr(Inode(6)).unwrap().name, "b.txt");
    assert!(fs.getattr(Inode(42)).is_none());
    // Once a file has lost its last link, the lookup no longer finds it.
    let _ = fs.open(Inode(6), OpenFlags::read());
    assert!(matches!(fs.unlink(Inode(6)), Unlink::Unlinked));
    assert!(fs.get_file_in_dir("/", &listing, "b.txt").is_none());
}

#[test]
fn access_checks_permissions() {
    let mut fs = RemoteFs::new();
    let mut e = entry(5, "a", false, 1);
    e.permissions = 0o640;
    fs.get_file_in_dir("/", &vec![e], "a").unwrap();
    assert_eq!(fs.access(Inode(5), libc::R_OK | libc::W_OK), Ok(()));
    assert_eq!(fs.access(Inode(5), libc::X_OK), Err(FsError::AccessDenied));
    assert_eq!(fs.access(Inode(5), libc::F_OK), Ok(()));
    assert_eq!(fs.access(Inode(1), libc::X_OK), Ok(()));
    assert_eq!(fs.access(Inode(9), libc::R_OK), Err(FsError::NotFound));
}

#[test]
fn readdir_records_and_orders() {
    let mut fs = RemoteFs::new();
    assert_eq!(fs.readdir_path(Inode(1)), Some("/".to_string()));
    assert_eq!(fs.readdir_path(Inode(3)), None);
    let items = fs.readdir_entries("/", vec![entry(8, "z", false, 1), entry(2, "y", true, 1)], 0);
    assert_eq!(items.iter().map(|i| i.ino).collect::<Vec<_>>(), vec![2, 8]);
    assert!(fs.is_cached(Inode(8)));
    assert_eq!(fs.cache().get_file_by_ino(Inode(2)).unwrap().file_path, "/y");
}

#[test]
fn listing_read_in_two_calls() {
    let es = vec![entry(4, "d", false, 1), entry(1, "a", false, 1), entry(3, "c", false, 1), entry(2, "b", false, 1)];
    let first = directory_items(&es, 0);
    let j = 1;
    let rest = directory_items(&es, first[j].offset);
    assert_eq!(rest.len(), first.len() - j - 1);
    for (q, item) in rest.iter().enumerate() {
        assert_eq!(item.ino, first[j + 1 + q].ino);
        assert_eq!(item.offset, first[j + 1 + q].offset);
        assert_eq!(item.name, first[j + 1 + q].name);
    }
}

#[test]
fn lookups_act_on_no_file() {
    let mut fs = fs_with_file();
    let a = fs.open(Inode(5), OpenFlags::read());
    assert!(fs.getattr(Inode(5)).is_some());
    assert_eq!(fs.access(Inode(5), libc::R_OK), Ok(()));
    assert_eq!(fs.readdir_path(Inode(5)), Some("/a.txt".to_string()));
    // The descriptor is still open and the link still there.
    assert!(matches!(fs.release(Inode(5), a.fd), Release::Released));
    match fs.unlink(Inode(5)) {
        Unlink::DeleteRemote { path } => assert_eq!(path, "/a.txt"),
        _ => panic!("the file kept its one link"),
    }
}

#[test]
fn api_rename_plan_from_json_name() {
    let api = Api::new();
    assert!(api.rename_entry_plan("/a", None).is_none());
    let plan = api.rename_entry_plan("//dir/a", Some("\"b\"".to_string())).unwrap();
    assert_eq!(plan.url, "http://127.0.0.1:8080/api/files/dir/a");
    assert_eq!(plan.body, "{\"new_name\":\"b\"}");
}

#[test]
fn api_rename_body_escapes_like_serde_json() {
    let api = Api::new();
    let name = "a\\b\u{1}\u{1f}\t\n\r\u{8}\u{c}\u{7f}é/\"";
    let plan = api.rename_entry_request("x", name).unwrap();
    let expected = format!("{{\"new_name\":{}}}", serde_json::to_string(name).unwrap());
    assert_eq!(plan.body, expected);
    assert_eq!(plan.body, "{\"new_name\":\"a\\\\b\\u0001\\u001f\\t\\n\\r\\b\\f\u{7f}é/\\\"\"}");
}
