//! The client's file system: which files are open on which descriptors, how
//! many links each file has, and the decisions that the kernel's requests
//! come to. Where a decision needs the server (a listing, a deletion), the
//! request is split in two steps and the caller does the exchange between.

use std::collections::HashMap;
use vstd::prelude::*;
use crate::cache::{Cache, entry_views, record_entries};
use crate::flags::{OpenFlags, mode_bits, option_bits};
use crate::listing::{directory_items, lists_from, stable_sort_by_ino, DirItem};
use crate::model::{
    CachedFileView, FileEntry, FileEntryView, Fd, Inode, OpenedFile, RfsFile, RfsFileView,
    fresh_file,
};
use crate::sys::{self, EACCES_VALUE, EBADF_VALUE, EINVAL_VALUE, ENODATA_VALUE, ENOENT_VALUE};
use crate::text::{chars_of, same_chars};

verus! {

broadcast use vstd::std_specs::hash::group_hash_axioms;

/// Why a request of the kernel fails.
#[derive(Debug, Clone, Copy, PartialEq, Eq, Structural)]
pub enum FsError {
    /// `EINVAL`.
    InvalidArgument,
    /// `EBADF`.
    BadDescriptor,
    /// `ENOENT`.
    NotFound,
    /// `ENODATA`.
    NoData,
    /// `EACCES`.
    AccessDenied,
}

/// The C error number of a failure.
pub open spec fn errno_of(e: FsError) -> i32 {
    match e {
        FsError::InvalidArgument => EINVAL_VALUE,
        FsError::BadDescriptor => EBADF_VALUE,
        FsError::NotFound => ENOENT_VALUE,
        FsError::NoData => ENODATA_VALUE,
        FsError::AccessDenied => EACCES_VALUE,
    }
}

impl FsError {
    /// The C error number of the failure, as the kernel is told.
    pub fn errno(self) -> (r: i32)
        ensures
            r == errno_of(self),
    {
        match self {
            FsError::InvalidArgument => sys::einval(),
            FsError::BadDescriptor => sys::ebadf(),
            FsError::NotFound => sys::enoent(),
            FsError::NoData => sys::enodata(),
            FsError::AccessDenied => sys::eacces(),
        }
    }
}

/// The state of the file system as a value: the cache, the client's record
/// of each file it has met, and the last descriptor number handed out.
pub struct RemoteFsView {
    pub cache: Map<u64, CachedFileView>,
    pub files: Map<u64, RfsFileView>,
    pub last_fd: u64,
}

/// Every open descriptor is kept under its own number, on the file it was
/// opened on, and no descriptor is above the last one handed out.
pub open spec fn descriptors_consistent(v: RemoteFsView) -> bool {
    forall|ino: u64, fd: u64|
        v.files.contains_key(ino) && #[trigger] v.files[ino].fds.contains_key(fd) ==> {
            &&& fd <= v.last_fd
            &&& v.files[ino].fds[fd].fd.0 == fd
            &&& v.files[ino].fds[fd].ino.0 == ino
        }
}

/// The client's records once the file `ino` of the cache has been looked
/// up: a file met for the first time gets a fresh record; a known one keeps
/// its links, descriptors and path, and takes the cache's description.
pub open spec fn synced(files: Map<u64, RfsFileView>, cache: Map<u64, CachedFileView>, ino: u64) -> Map<
    u64,
    RfsFileView,
> {
    if files.contains_key(ino) {
        files.insert(
            ino,
            RfsFileView {
                entry: cache[ino].entry,
                path: files[ino].path,
                hard_link: files[ino].hard_link,
                fds: files[ino].fds,
            },
        )
    } else {
        files.insert(ino, fresh_file(cache[ino]))
    }
}

/// The state with the file `ino` looked up in the cache.
pub open spec fn synced_state(v: RemoteFsView, ino: u64) -> RemoteFsView {
    RemoteFsView { cache: v.cache, files: synced(v.files, v.cache, ino), last_fd: v.last_fd }
}

/// A file's record with the descriptor `o` open on it.
pub open spec fn with_fd(f: RfsFileView, o: OpenedFile) -> RfsFileView {
    RfsFileView { entry: f.entry, path: f.path, hard_link: f.hard_link, fds: f.fds.insert(o.fd.0, o) }
}

/// A file's record without the descriptor `fd`.
pub open spec fn without_fd(f: RfsFileView, fd: u64) -> RfsFileView {
    RfsFileView { entry: f.entry, path: f.path, hard_link: f.hard_link, fds: f.fds.remove(fd) }
}

/// A file's record with one hard link less.
pub open spec fn with_one_link_less(f: RfsFileView) -> RfsFileView {
    RfsFileView { entry: f.entry, path: f.path, hard_link: (f.hard_link - 1) as u32, fds: f.fds }
}

/// Whether a file is gone: no hard link is left and no descriptor is open.
pub open spec fn unreachable(f: RfsFileView) -> bool {
    f.fds.is_empty() && f.hard_link == 0
}

/// Opening the cached file `ino`: a new descriptor, one above the last one,
/// is open on the file.
pub open spec fn open_spec(v: RemoteFsView, ino: u64, flags: OpenFlags) -> (RemoteFsView, OpenedFile) {
    let s = synced(v.files, v.cache, ino);
    let o = OpenedFile { fd: Fd((v.last_fd + 1) as u64), ino: Inode(ino), flags };
    (RemoteFsView { cache: v.cache, files: s.insert(ino, with_fd(s[ino], o)), last_fd: o.fd.0 }, o)
}

/// What releasing a descriptor comes to.
pub enum ReleaseOutcome {
    /// The descriptor is not open on the file.
    NotOpen,
    /// The descriptor is closed.
    Released,
    /// The descriptor was the file's last and the file has no link left: the
    /// client's record is dropped, and the file at `path` is to be deleted on
    /// the server.
    DeleteRemote { path: Seq<char>, opened: OpenedFile },
}

/// Releasing the descriptor `fd` of the cached file `ino`.
pub open spec fn release_spec(v: RemoteFsView, ino: u64, fd: u64) -> (RemoteFsView, ReleaseOutcome) {
    let s = synced(v.files, v.cache, ino);
    let f = s[ino];
    if !f.fds.contains_key(fd) {
        (RemoteFsView { cache: v.cache, files: s, last_fd: v.last_fd }, ReleaseOutcome::NotOpen)
    } else if unreachable(without_fd(f, fd)) {
        (
            RemoteFsView { cache: v.cache, files: s.remove(ino), last_fd: v.last_fd },
            ReleaseOutcome::DeleteRemote { path: f.path, opened: f.fds[fd] },
        )
    } else {
        (
            RemoteFsView { cache: v.cache, files: s.insert(ino, without_fd(f, fd)), last_fd: v.last_fd },
            ReleaseOutcome::Released,
        )
    }
}

/// The end of a release that asked for a deletion: a deletion done on the
/// server removes the file from the cache and closes the descriptor; a
/// failed one opens the descriptor again on a fresh record of the file.
pub open spec fn finish_release_spec(v: RemoteFsView, ino: u64, opened: OpenedFile, deleted: bool) -> (
    RemoteFsView,
    bool,
) {
    if deleted {
        (RemoteFsView { cache: v.cache.remove(ino), files: v.files, last_fd: v.last_fd }, true)
    } else {
        let s = synced(v.files, v.cache, ino);
        (
            RemoteFsView { cache: v.cache, files: s.insert(ino, with_fd(s[ino], opened)), last_fd: v.last_fd },
            false,
        )
    }
}

/// What removing a link to a file comes to.
pub enum UnlinkOutcome {
    /// The cache does not know the file.
    NotFound,
    /// The file has no link left to remove.
    NoLinks,
    /// One link less.
    Unlinked,
    /// The last link is gone and no descriptor is open: the client's record
    /// is dropped, and the file at `path` is to be deleted on the server.
    DeleteRemote { path: Seq<char> },
}

/// Removing a link to the file `ino`.
pub open spec fn unlink_spec(v: RemoteFsView, ino: u64) -> (RemoteFsView, UnlinkOutcome) {
    if !v.cache.contains_key(ino) {
        (v, UnlinkOutcome::NotFound)
    } else {
        let s = synced(v.files, v.cache, ino);
        let f = s[ino];
        if f.hard_link == 0 {
            (RemoteFsView { cache: v.cache, files: s, last_fd: v.last_fd }, UnlinkOutcome::NoLinks)
        } else if unreachable(with_one_link_less(f)) {
            (
                RemoteFsView { cache: v.cache, files: s.remove(ino), last_fd: v.last_fd },
                UnlinkOutcome::DeleteRemote { path: f.path },
            )
        } else {
            (
                RemoteFsView {
                    cache: v.cache,
                    files: s.insert(ino, with_one_link_less(f)),
                    last_fd: v.last_fd,
                },
                UnlinkOutcome::Unlinked,
            )
        }
    }
}

/// The first position at or after `from` in `es` of a file named `name`, or
/// the length of `es`.
pub open spec fn find_by_name(es: Seq<FileEntryView>, name: Seq<char>, from: int) -> int
    decreases es.len() - from,
{
    if from < 0 || from >= es.len() {
        es.len() as int
    } else if es[from].name == name {
        from
    } else {
        find_by_name(es, name, from + 1)
    }
}

/// Whether the cached file `ino` may be accessed as `mask` asks
/// (`R_OK`, `W_OK`, `X_OK`): each asked access needs one of the matching
/// permission bits, for any of owner, group and others.
pub open spec fn access_allowed(perm: u32, mask: i32) -> bool {
    &&& !(mask & 4 != 0 && perm & 0o444 == 0)
    &&& !(mask & 2 != 0 && perm & 0o222 == 0)
    &&& !(mask & 1 != 0 && perm & 0o111 == 0)
}

/// A release, as the caller is told: to finish a release that asks for a
/// deletion, the caller deletes the file on the server and calls
/// `finish_release`.
#[derive(Debug)]
pub enum Release {
    NotOpen,
    Released,
    DeleteRemote { path: String, opened: OpenedFile },
}

impl View for Release {
    type V = ReleaseOutcome;

    open spec fn view(&self) -> ReleaseOutcome {
        match self {
            Release::NotOpen => ReleaseOutcome::NotOpen,
            Release::Released => ReleaseOutcome::Released,
            Release::DeleteRemote { path, opened } => ReleaseOutcome::DeleteRemote {
                path: path@,
                opened: *opened,
            },
        }
    }
}

/// An unlink, as the caller is told: to finish one that asks for a
/// deletion, the caller deletes the file on the server and calls
/// `finish_unlink`.
#[derive(Debug)]
pub enum Unlink {
    NotFound,
    NoLinks,
    Unlinked,
    DeleteRemote { path: String },
}

impl View for Unlink {
    type V = UnlinkOutcome;

    open spec fn view(&self) -> UnlinkOutcome {
        match self {
            Unlink::NotFound => UnlinkOutcome::NotFound,
            Unlink::NoLinks => UnlinkOutcome::NoLinks,
            Unlink::Unlinked => UnlinkOutcome::Unlinked,
            Unlink::DeleteRemote { path } => UnlinkOutcome::DeleteRemote { path: path@ },
        }
    }
}

/// The records of the files as values.
pub open spec fn file_views(m: Map<u64, RfsFile>) -> Map<u64, RfsFileView> {
    m.map_values(|f: RfsFile| f@)
}

/// The descriptors of the records `m` are consistent, with `last` the last
/// descriptor handed out.
pub open spec fn descriptors_within(m: Map<u64, RfsFile>, last: u64) -> bool {
    forall|ino: u64, fd: u64|
        m.contains_key(ino) && #[trigger] m[ino].fds@.contains_key(fd) ==> {
            &&& fd <= last
            &&& m[ino].fds@[fd].fd.0 == fd
            &&& m[ino].fds@[fd].ino.0 == ino
        }
}

/// The views of the records hold the same files as the records.
pub proof fn lemma_file_views(m: Map<u64, RfsFile>)
    ensures
        forall|k: u64| #[trigger] file_views(m).contains_key(k) == m.contains_key(k),
        forall|k: u64| m.contains_key(k) ==> #[trigger] file_views(m)[k] == m[k]@,
{
}

/// Consistency of the records is consistency of their views.
pub proof fn lemma_descriptors_within(c: Map<u64, CachedFileView>, m: Map<u64, RfsFile>, last: u64)
    ensures
        descriptors_within(m, last) == descriptors_consistent(
            RemoteFsView { cache: c, files: file_views(m), last_fd: last },
        ),
{
    lemma_file_views(m);
    let v = RemoteFsView { cache: c, files: file_views(m), last_fd: last };
    if descriptors_within(m, last) {
        assert forall|ino: u64, fd: u64|
            v.files.contains_key(ino) && #[trigger] v.files[ino].fds.contains_key(fd) implies {
            &&& fd <= v.last_fd
            &&& v.files[ino].fds[fd].fd.0 == fd
            &&& v.files[ino].fds[fd].ino.0 == ino
        } by {
            assert(m[ino].fds@.contains_key(fd));
        }
    }
    if descriptors_consistent(v) {
        assert forall|ino: u64, fd: u64|
            m.contains_key(ino) && #[trigger] m[ino].fds@.contains_key(fd) implies {
            &&& fd <= last
            &&& m[ino].fds@[fd].fd.0 == fd
            &&& m[ino].fds@[fd].ino.0 == ino
        } by {
            assert(v.files[ino].fds.contains_key(fd));
        }
    }
}

/// The client's file system.
#[derive(Debug)]
pub struct RemoteFs {
    cache: Cache,
    rfs_files: HashMap<u64, RfsFile>,
    last_fd: u64,
}

impl View for RemoteFs {
    type V = RemoteFsView;

    closed spec fn view(&self) -> RemoteFsView {
        RemoteFsView {
            cache: self.cache@,
            files: file_views(self.rfs_files@),
            last_fd: self.last_fd,
        }
    }
}

/// Opening a cached file and releasing the new descriptor gives back the
/// records as the lookup of the file left them; only where nothing else
/// holds the file (no link, no other descriptor) is its deletion asked for.
pub proof fn lemma_open_then_release(v: RemoteFsView, ino: u64, flags: OpenFlags)
    requires
        v.cache.contains_key(ino),
        v.last_fd < u64::MAX,
        descriptors_consistent(v),
    ensures
        ({
            let (v1, o) = open_spec(v, ino, flags);
            let (v2, out) = release_spec(v1, ino, o.fd.0);
            let s = synced(v.files, v.cache, ino);
            &&& v2.cache == v.cache
            &&& v2.last_fd == v.last_fd + 1
            &&& if unreachable(s[ino]) {
                out == ReleaseOutcome::DeleteRemote { path: s[ino].path, opened: o }
                    && v2.files == s.remove(ino)
            } else {
                out == ReleaseOutcome::Released && v2.files == s
            }
        }),
{
    let (v1, o) = open_spec(v, ino, flags);
    let s = synced(v.files, v.cache, ino);
    let f = s[ino];
    let fd = o.fd.0;
    assert(!f.fds.contains_key(fd)) by {
        if v.files.contains_key(ino) {
            assert(f.fds == v.files[ino].fds);
            if f.fds.contains_key(fd) {
                assert(v.files[ino].fds.contains_key(fd));
            }
        }
    }
    let s1 = synced(v1.files, v1.cache, ino);
    assert(s1[ino].fds == f.fds.insert(fd, o));
    assert(without_fd(s1[ino], fd).fds =~= f.fds);
    assert(without_fd(s1[ino], fd) == f);
    assert(s1.insert(ino, f) =~= s);
    assert(s1.remove(ino) =~= s.remove(ino));
}

/// Looking a file up acts on no file: every file that the client knew keeps
/// its links and its open descriptors, a file met for the first time has
/// one link and none open, and the other records are untouched.
pub proof fn lemma_lookup_acts_on_no_file(v: RemoteFsView, ino: u64)
    requires
        v.cache.contains_key(ino),
    ensures
        ({
            let s = synced(v.files, v.cache, ino);
            &&& s.dom() == v.files.dom().insert(ino)
            &&& forall|k: u64|
                #[trigger] v.files.contains_key(k) ==> s[k].hard_link == v.files[k].hard_link
                    && s[k].fds == v.files[k].fds && s[k].path == v.files[k].path
            &&& forall|k: u64| v.files.contains_key(k) && k != ino ==> #[trigger] s[k] == v.files[k]
            &&& !v.files.contains_key(ino) ==> s[ino].hard_link == 1 && s[ino].fds.is_empty()
        }),
{
    let s = synced(v.files, v.cache, ino);
    assert(s.dom() =~= v.files.dom().insert(ino));
    if !v.files.contains_key(ino) {
        assert(s[ino].fds.dom() =~= Set::<u64>::empty());
    }
}

/// No operation lowers the last descriptor handed out: an open raises it by
/// one, and every other step that changes the records keeps it.
pub proof fn lemma_operations_keep_or_raise_last_fd(
    v: RemoteFsView,
    ino: u64,
    fd: u64,
    flags: OpenFlags,
    opened: OpenedFile,
    deleted: bool,
)
    requires
        v.last_fd < u64::MAX,
    ensures
        open_spec(v, ino, flags).0.last_fd == v.last_fd + 1,
        release_spec(v, ino, fd).0.last_fd == v.last_fd,
        finish_release_spec(v, ino, opened, deleted).0.last_fd == v.last_fd,
        unlink_spec(v, ino).0.last_fd == v.last_fd,
        synced_state(v, ino).last_fd == v.last_fd,
{
}

/// Along a run of states in which no step lowers the last descriptor handed
/// out, the last descriptor of a later state is at least that of an earlier
/// one.
proof fn lemma_run_last_fd(run: Seq<RemoteFsView>, a: int, b: int)
    requires
        forall|k: int| 0 <= k < run.len() - 1 ==> #[trigger] run[k].last_fd <= run[k + 1].last_fd,
        0 <= a <= b < run.len(),
    ensures
        run[a].last_fd <= run[b].last_fd,
    decreases b - a,
{
    if a < b {
        lemma_run_last_fd(run, a + 1, b);
        assert(run[a].last_fd <= run[a + 1].last_fd);
    }
}

/// The descriptors that opens hand out rise strictly over the whole history
/// of the file system: along a run of states in which no step lowers the last
/// descriptor (none does), an open at step `i` gets a smaller number than an
/// open at a later step `j`; from a new file system, whose last descriptor is
/// 3, every number handed out is at least 4.
pub proof fn lemma_descriptors_rise(
    run: Seq<RemoteFsView>,
    i: int,
    ino_i: u64,
    flags_i: OpenFlags,
    j: int,
    ino_j: u64,
    flags_j: OpenFlags,
)
    requires
        forall|k: int| 0 <= k < run.len() - 1 ==> #[trigger] run[k].last_fd <= run[k + 1].last_fd,
        0 <= i < j < run.len(),
        run[i].last_fd < u64::MAX,
        run[j].last_fd < u64::MAX,
        run[i + 1] == open_spec(run[i], ino_i, flags_i).0,
    ensures
        open_spec(run[i], ino_i, flags_i).1.fd.0 < open_spec(run[j], ino_j, flags_j).1.fd.0,
        run[0].last_fd >= 3 ==> open_spec(run[i], ino_i, flags_i).1.fd.0 >= 4,
{
    lemma_run_last_fd(run, i + 1, j);
    lemma_run_last_fd(run, 0, i);
}

/// Releasing one descriptor of a file on which another descriptor stays open
/// never asks for a deletion: the release is done, the released descriptor
/// is closed, and every other descriptor of the file stays open as it was.
pub proof fn lemma_release_keeps_other_descriptors(v: RemoteFsView, ino: u64, fd: u64, other: u64)
    requires
        v.cache.contains_key(ino),
        v.files.contains_key(ino),
        v.files[ino].fds.contains_key(fd),
        v.files[ino].fds.contains_key(other),
        other != fd,
    ensures
        ({
            let (w, out) = release_spec(v, ino, fd);
            &&& out == ReleaseOutcome::Released
            &&& w.files.contains_key(ino)
            &&& !w.files[ino].fds.contains_key(fd)
            &&& forall|k: u64|
                k != fd && #[trigger] v.files[ino].fds.contains_key(k) ==> w.files[ino].fds.contains_key(k)
                    && w.files[ino].fds[k] == v.files[ino].fds[k]
            &&& w.files[ino].hard_link == v.files[ino].hard_link
        }),
{
    let f = synced(v.files, v.cache, ino)[ino];
    assert(f.fds == v.files[ino].fds);
    assert(without_fd(f, fd).fds.contains_key(other));
    assert(!without_fd(f, fd).fds.is_empty()) by {
        assert(without_fd(f, fd).fds.dom().contains(other));
    }
}

/// The file that a lookup finds in a listing carries exactly the name asked
/// for, and it is the first file of that name; where no listed file has the
/// name, nothing is found.
pub proof fn lemma_find_by_name_meaning(es: Seq<FileEntryView>, name: Seq<char>)
    ensures
        ({
            let i = find_by_name(es, name, 0);
            &&& 0 <= i <= es.len()
            &&& i < es.len() ==> es[i].name == name
            &&& forall|k: int| 0 <= k < i ==> #[trigger] es[k].name != name
            &&& (i == es.len()) == (forall|k: int| 0 <= k < es.len() ==> #[trigger] es[k].name != name)
        }),
{
    lemma_find_by_name_from(es, name, 0);
}

/// The search for a name from `from` stops at the first file of that name,
/// or at the end.
proof fn lemma_find_by_name_from(es: Seq<FileEntryView>, name: Seq<char>, from: int)
    requires
        0 <= from <= es.len(),
    ensures
        from <= find_by_name(es, name, from) <= es.len(),
        find_by_name(es, name, from) < es.len() ==> es[find_by_name(es, name, from)].name == name,
        forall|k: int| from <= k < find_by_name(es, name, from) ==> #[trigger] es[k].name != name,
    decreases es.len() - from,
{
    if from < es.len() && es[from].name != name {
        lemma_find_by_name_from(es, name, from + 1);
    }
}

/// Access is granted exactly where every asked access has a permission bit:
/// reading (`R_OK`) needs a read bit of owner, group or others (`0o400`,
/// `0o040`, `0o004`), writing (`W_OK`) a write bit (`0o200`, `0o020`,
/// `0o002`), executing (`X_OK`) an execute bit (`0o100`, `0o010`, `0o001`).
pub proof fn lemma_access_meaning(perm: u32, mask: i32)
    ensures
        access_allowed(perm, mask) == ((mask & 4 == 0 || perm & 0o400 != 0 || perm & 0o040 != 0
            || perm & 0o004 != 0) && (mask & 2 == 0 || perm & 0o200 != 0 || perm & 0o020 != 0 || perm
            & 0o002 != 0) && (mask & 1 == 0 || perm & 0o100 != 0 || perm & 0o010 != 0 || perm & 0o001
            != 0)),
{
    assert((perm & 0o444 == 0) == (perm & 0o400 == 0 && perm & 0o040 == 0 && perm & 0o004 == 0))
        by (bit_vector);
    assert((perm & 0o222 == 0) == (perm & 0o200 == 0 && perm & 0o020 == 0 && perm & 0o002 == 0))
        by (bit_vector);
    assert((perm & 0o111 == 0) == (perm & 0o100 == 0 && perm & 0o010 == 0 && perm & 0o001 == 0))
        by (bit_vector);
}

/// A descriptor that has been released is no longer open: releasing it
/// again is refused.
pub proof fn lemma_release_twice(v: RemoteFsView, ino: u64, fd: u64)
    requires
        v.cache.contains_key(ino),
    ensures
        ({
            let (v1, out) = release_spec(v, ino, fd);
            out == ReleaseOutcome::Released ==> release_spec(v1, ino, fd).1 == ReleaseOutcome::NotOpen
        }),
{
}

/// A file whose last link is removed while a descriptor is open on it stays
/// known, with no link, until that descriptor is released; releasing the
/// file's only descriptor then asks for its deletion on the server.
pub proof fn lemma_unlink_while_open(v: RemoteFsView, ino: u64, o: OpenedFile)
    requires
        v.cache.contains_key(ino),
        synced(v.files, v.cache, ino)[ino].hard_link == 1,
        synced(v.files, v.cache, ino)[ino].fds == map![o.fd.0 => o],
    ensures
        ({
            let (v1, out) = unlink_spec(v, ino);
            &&& out == UnlinkOutcome::Unlinked
            &&& v1.files.contains_key(ino)
            &&& v1.files[ino].hard_link == 0
            &&& release_spec(v1, ino, o.fd.0).1 == ReleaseOutcome::DeleteRemote {
                path: synced(v.files, v.cache, ino)[ino].path,
                opened: o,
            }
        }),
{
    let s = synced(v.files, v.cache, ino);
    let f = s[ino];
    assert(f.fds.contains_key(o.fd.0));
    assert(!f.fds.is_empty()) by {
        assert(f.fds.dom().contains(o.fd.0));
    }
    let (v1, out) = unlink_spec(v, ino);
    let f1 = with_one_link_less(f);
    assert(!unreachable(f1));
    let s1 = synced(v1.files, v1.cache, ino);
    assert(s1[ino].fds == f.fds);
    assert(without_fd(s1[ino], o.fd.0).fds =~= Map::<u64, OpenedFile>::empty());
}

impl RemoteFs {
    /// The descriptors are kept consistently.
    #[verifier::type_invariant]
    closed spec fn consistent(self) -> bool {
        &&& descriptors_within(self.rfs_files@, self.last_fd)
        &&& self.last_fd >= 3
    }

    /// A file system that knows the root directory alone, with no file open;
    /// descriptor numbers start above 3.
    pub fn new() -> (r: RemoteFs)
        ensures
            r@.cache == map![1u64 => crate::cache::root_file()],
            r@.files == Map::<u64, RfsFileView>::empty(),
            r@.last_fd == 3,
    {
        let r = RemoteFs { cache: Cache::new(), rfs_files: HashMap::new(), last_fd: 3 };
        assert(r@.files =~= Map::<u64, RfsFileView>::empty());
        r
    }

    /// The open descriptors of the file system are consistent.
    pub fn check_consistent(&self)
        ensures
            descriptors_consistent(self@),
            self@.last_fd >= 3,
    {
        proof {
            use_type_invariant(self);
            lemma_descriptors_within(self.cache@, self.rfs_files@, self.last_fd);
        }
    }

    /// The cache of the file system.
    pub fn cache(&self) -> (r: &Cache)
        ensures
            r@ == self@.cache,
    {
        &self.cache
    }

    /// Whether the cache knows the file `ino`.
    pub fn is_cached(&self, ino: Inode) -> (r: bool)
        ensures
            r == self@.cache.contains_key(ino.0),
    {
        self.cache.contains(ino)
    }

    /// The last descriptor number handed out.
    pub fn last_fd(&self) -> (r: u64)
        ensures
            r == self@.last_fd,
    {
        self.last_fd
    }

    /// Replaces the client's records.
    fn set_files(&mut self, files: HashMap<u64, RfsFile>)
        requires
            descriptors_consistent(
                RemoteFsView {
                    cache: old(self)@.cache,
                    files: file_views(files@),
                    last_fd: old(self)@.last_fd,
                },
            ),
        ensures
            final(self)@ == (RemoteFsView {
                cache: old(self)@.cache,
                files: file_views(files@),
                last_fd: old(self)@.last_fd,
            }),
    {
        proof {
            use_type_invariant(&*self);
            lemma_descriptors_within(old(self)@.cache, files@, old(self)@.last_fd);
        }
        self.rfs_files = files;
    }

    /// Takes the client's records out, leaving none.
    fn take_files(&mut self) -> (r: HashMap<u64, RfsFile>)
        ensures
            file_views(r@) == old(self)@.files,
            forall|k: u64| #[trigger] r@.contains_key(k) == old(self)@.files.contains_key(k),
            forall|k: u64| r@.contains_key(k) ==> #[trigger] r@[k]@ == old(self)@.files[k],
            final(self)@.cache == old(self)@.cache,
            final(self)@.last_fd == old(self)@.last_fd,
            descriptors_consistent(old(self)@),
    {
        proof {
            use_type_invariant(&*self);
            lemma_descriptors_within(self.cache@, self.rfs_files@, self.last_fd);
        }
        let mut files: HashMap<u64, RfsFile> = HashMap::new();
        std::mem::swap(&mut files, &mut self.rfs_files);
        proof {
            lemma_file_views(files@);
        }
        files
    }

    /// Takes the cache out, leaving one that knows the root alone.
    fn take_cache(&mut self) -> (r: Cache)
        ensures
            r@ == old(self)@.cache,
            final(self)@.files == old(self)@.files,
            final(self)@.last_fd == old(self)@.last_fd,
    {
        proof {
            use_type_invariant(&*self);
            lemma_descriptors_within(self.cache@, self.rfs_files@, self.last_fd);
        }
        let mut cache = Cache::new();
        std::mem::swap(&mut cache, &mut self.cache);
        cache
    }

    /// Puts a cache in.
    fn set_cache(&mut self, cache: Cache)
        ensures
            final(self)@ == (RemoteFsView {
                cache: cache@,
                files: old(self)@.files,
                last_fd: old(self)@.last_fd,
            }),
    {
        proof {
            use_type_invariant(&*self);
            lemma_descriptors_within(self.cache@, self.rfs_files@, self.last_fd);
        }
        self.cache = cache;
    }

    /// Looks the file `ino` up in the cache and brings the client's record of
    /// it up to date; `false` where the cache does not know it.
    fn sync_file(&mut self, ino: u64) -> (found: bool)
        ensures
            found == old(self)@.cache.contains_key(ino),
            found ==> final(self)@ == synced_state(old(self)@, ino),
            !found ==> final(self)@ == old(self)@,
    {
        let cached = match self.cache.get_file_by_ino(Inode(ino)) {
            Some(c) => c,
            None => {
                return false;
            },
        };
        let ghost v = self@;
        let mut files = self.take_files();
        match files.remove(&ino) {
            Some(mut f) => {
                f.file_entry = cached.file_entry;
                files.insert(ino, f);
            },
            None => {
                files.insert(ino, RfsFile::from(cached));
            },
        }
        proof {
            lemma_file_views(files@);
            let m = file_views(files@);
            assert(m =~= synced(v.files, v.cache, ino));
        }
        self.set_files(files);
        true
    }

    /// Hands out a new descriptor number, one above the last.
    fn alloc_new_fd(&mut self) -> (r: Fd)
        requires
            old(self)@.last_fd < u64::MAX,
        ensures
            r.0 == old(self)@.last_fd + 1,
            final(self)@ == (RemoteFsView {
                cache: old(self)@.cache,
                files: old(self)@.files,
                last_fd: r.0,
            }),
    {
        proof {
            use_type_invariant(&*self);
            lemma_descriptors_within(self.cache@, self.rfs_files@, self.last_fd);
        }
        self.last_fd = self.last_fd + 1;
        Fd(self.last_fd)
    }

    /// Opens the cached file `inode` with `flags` on a new descriptor, one
    /// above the last one handed out, so above every descriptor open on any
    /// file.
    pub fn open(&mut self, inode: Inode, flags: OpenFlags) -> (r: OpenedFile)
        requires
            old(self)@.cache.contains_key(inode.0),
            old(self)@.last_fd < u64::MAX,
        ensures
            (final(self)@, r) == open_spec(old(self)@, inode.0, flags),
            forall|ino: u64, fd: u64|
                old(self)@.files.contains_key(ino) && #[trigger] old(self)@.files[ino].fds.contains_key(
                    fd,
                ) ==> fd < r.fd.0,
            r.fd.0 >= 4,
            descriptors_consistent(final(self)@),
    {
        proof {
            use_type_invariant(&*self);
            lemma_descriptors_within(self.cache@, self.rfs_files@, self.last_fd);
        }
        let fd = self.alloc_new_fd();
        let entry = OpenedFile { fd, ino: inode, flags };
        let ghost v = self@;
        self.sync_file(inode.0);
        let ghost s = self@;
        let mut files = self.take_files();
        let mut f = files.remove(&inode.0).unwrap();
        f.fds.insert(fd.0, entry);
        files.insert(inode.0, f);
        proof {
            lemma_file_views(files@);
            let m = file_views(files@);
            assert(m =~= s.files.insert(inode.0, with_fd(s.files[inode.0], entry)));
        }
        self.set_files(files);
        proof {
            use_type_invariant(&*self);
            lemma_descriptors_within(self.cache@, self.rfs_files@, self.last_fd);
        }
        entry
    }

    /// Opens the file `ino` for a C `open` request with `flags`: an invalid
    /// access mode is refused with `InvalidArgument`, otherwise the file is
    /// opened on a new descriptor.
    pub fn open_with_flags(&mut self, ino: u64, flags: i32) -> (r: Result<Fd, FsError>)
        requires
            mode_bits(flags) is Some ==> old(self)@.cache.contains_key(ino) && old(self)@.last_fd
                < u64::MAX,
        ensures
            match r {
                Ok(fd) => mode_bits(flags) is Some && exists|f: OpenFlags|
                    {
                        &&& f.bits() == mode_bits(flags).unwrap() | option_bits(flags)
                        &&& (final(self)@, OpenedFile { fd, ino: Inode(ino), flags: f })
                            == open_spec(old(self)@, ino, f)
                    },
                Err(e) => e == FsError::InvalidArgument && mode_bits(flags) is None && final(self)@
                    == old(self)@,
            },
    {
        match OpenFlags::from_flags(flags) {
            None => Err(FsError::InvalidArgument),
            Some(f) => {
                let o = self.open(Inode(ino), f);
                Ok(o.fd)
            },
        }
    }

    /// Releases the descriptor `fd` of the cached file `inode`. Where it was
    /// the last descriptor of a file with no link left, the client's record
    /// is dropped and the file is to be deleted on the server: the caller
    /// deletes it and calls `finish_release`.
    pub fn release(&mut self, inode: Inode, fd: Fd) -> (r: Release)
        requires
            old(self)@.cache.contains_key(inode.0),
        ensures
            (final(self)@, r@) == release_spec(old(self)@, inode.0, fd.0),
            descriptors_consistent(final(self)@),
    {
        self.sync_file(inode.0);
        let ghost s = self@;
        let mut files = self.take_files();
        let mut f = files.remove(&inode.0).unwrap();
        let ghost fds0 = f.fds@;
        let removed = f.fds.remove(&fd.0);
        let opened = match removed {
            None => {
                assert(f.fds@ =~= fds0);
                files.insert(inode.0, f);
                proof {
                    lemma_file_views(files@);
            assert(file_views(files@) =~= s.files);
                }
                self.set_files(files);
                return Release::NotOpen;
            },
            Some(o) => o,
        };
        let no_fds = f.fds.is_empty();
        if no_fds && f.hard_link == 0 {
            let path = f.file_path;
            proof {
                lemma_file_views(files@);
            assert(file_views(files@) =~= s.files.remove(inode.0));
            }
            self.set_files(files);
            proof {
                use_type_invariant(&*self);
            lemma_descriptors_within(self.cache@, self.rfs_files@, self.last_fd);
            }
            return Release::DeleteRemote { path, opened };
        }
        files.insert(inode.0, f);
        proof {
            lemma_file_views(files@);
            assert(file_views(files@) =~= s.files.insert(
                inode.0,
                without_fd(s.files[inode.0], fd.0),
            ));
        }
        self.set_files(files);
        proof {
            use_type_invariant(&*self);
            lemma_descriptors_within(self.cache@, self.rfs_files@, self.last_fd);
        }
        Release::Released
    }

    /// Finishes a release that asked for the deletion of the file `inode`:
    /// `deleted` tells whether the server deleted it. A deletion done
    /// removes the file from the cache and closes the descriptor; a failed
    /// one opens the descriptor `opened` again on the file, and the release
    /// fails.
    pub fn finish_release(&mut self, inode: Inode, opened: OpenedFile, deleted: bool) -> (r: bool)
        requires
            deleted || old(self)@.cache.contains_key(inode.0),
            opened.ino == inode,
            opened.fd.0 <= old(self)@.last_fd,
        ensures
            (final(self)@, r) == finish_release_spec(old(self)@, inode.0, opened, deleted),
            descriptors_consistent(final(self)@),
    {
        if deleted {
            let mut cache = self.take_cache();
            cache.remove(inode);
            self.set_cache(cache);
            proof {
                use_type_invariant(&*self);
            lemma_descriptors_within(self.cache@, self.rfs_files@, self.last_fd);
            }
            return true;
        }
        self.sync_file(inode.0);
        let ghost s = self@;
        let mut files = self.take_files();
        let mut f = files.remove(&inode.0).unwrap();
        f.fds.insert(opened.fd.0, opened);
        files.insert(inode.0, f);
        proof {
            lemma_file_views(files@);
            assert(file_views(files@) =~= s.files.insert(
                inode.0,
                with_fd(s.files[inode.0], opened),
            ));
        }
        self.set_files(files);
        proof {
            use_type_invariant(&*self);
            lemma_descriptors_within(self.cache@, self.rfs_files@, self.last_fd);
        }
        false
    }

    /// Removes a link to the file `inode`. Where no link and no descriptor
    /// is left, the client's record is dropped and the file is to be deleted
    /// on the server: the caller deletes it and calls `finish_unlink`.
    pub fn unlink(&mut self, inode: Inode) -> (r: Unlink)
        ensures
            (final(self)@, r@) == unlink_spec(old(self)@, inode.0),
            descriptors_consistent(final(self)@),
    {
        proof {
            use_type_invariant(&*self);
            lemma_descriptors_within(self.cache@, self.rfs_files@, self.last_fd);
        }
        if !self.sync_file(inode.0) {
            return Unlink::NotFound;
        }
        let ghost s = self@;
        let mut files = self.take_files();
        let mut f = files.remove(&inode.0).unwrap();
        if f.hard_link == 0 {
            files.insert(inode.0, f);
            proof {
                lemma_file_views(files@);
            assert(file_views(files@) =~= s.files);
            }
            self.set_files(files);
            return Unlink::NoLinks;
        }
        f.hard_link = f.hard_link - 1;
        let no_fds = f.fds.is_empty();
        if no_fds && f.hard_link == 0 {
            let path = f.file_path;
            proof {
                lemma_file_views(files@);
            assert(file_views(files@) =~= s.files.remove(inode.0));
            }
            self.set_files(files);
            proof {
                use_type_invariant(&*self);
            lemma_descriptors_within(self.cache@, self.rfs_files@, self.last_fd);
            }
            return Unlink::DeleteRemote { path };
        }
        files.insert(inode.0, f);
        proof {
            lemma_file_views(files@);
            assert(file_views(files@) =~= s.files.insert(
                inode.0,
                with_one_link_less(s.files[inode.0]),
            ));
        }
        self.set_files(files);
        proof {
            use_type_invariant(&*self);
            lemma_descriptors_within(self.cache@, self.rfs_files@, self.last_fd);
        }
        Unlink::Unlinked
    }

    /// Finishes an unlink that asked for the deletion of the file `inode`:
    /// `deleted` tells whether the server deleted it, which removes the file
    /// from the cache; the unlink succeeds where it did.
    pub fn finish_unlink(&mut self, inode: Inode, deleted: bool) -> (r: bool)
        ensures
            r == deleted,
            deleted ==> final(self)@ == (RemoteFsView {
                cache: old(self)@.cache.remove(inode.0),
                files: old(self)@.files,
                last_fd: old(self)@.last_fd,
            }),
            !deleted ==> final(self)@ == old(self)@,
            descriptors_consistent(final(self)@),
    {
        if deleted {
            let mut cache = self.take_cache();
            cache.remove(inode);
            self.set_cache(cache);
        }
        proof {
            use_type_invariant(&*self);
            lemma_descriptors_within(self.cache@, self.rfs_files@, self.last_fd);
        }
        deleted
    }

    /// The description of the file `inode`, for the kernel's `getattr`.
    pub fn getattr(&mut self, inode: Inode) -> (r: Option<FileEntry>)
        ensures
            match r {
                Some(e) => old(self)@.cache.contains_key(inode.0) && e@ == old(
                    self,
                )@.cache[inode.0].entry && final(self)@ == synced_state(old(self)@, inode.0),
                None => !old(self)@.cache.contains_key(inode.0) && final(self)@ == old(self)@,
            },
    {
        match self.cache.get_file_by_ino(inode) {
            None => None,
            Some(c) => {
                self.sync_file(inode.0);
                Some(c.file_entry)
            },
        }
    }

    /// Whether the file `inode` may be accessed as `mask` asks: "not found"
    /// for a file the cache does not know, "access denied" where an asked
    /// access has none of its permission bits.
    pub fn access(&mut self, inode: Inode, mask: i32) -> (r: Result<(), FsError>)
        ensures
            match r {
                Ok(()) => old(self)@.cache.contains_key(inode.0) && access_allowed(
                    old(self)@.cache[inode.0].entry.permissions,
                    mask,
                ),
                Err(e) => if old(self)@.cache.contains_key(inode.0) {
                    e == FsError::AccessDenied && !access_allowed(
                        old(self)@.cache[inode.0].entry.permissions,
                        mask,
                    )
                } else {
                    e == FsError::NotFound
                },
            },
            old(self)@.cache.contains_key(inode.0) ==> final(self)@ == synced_state(
                old(self)@,
                inode.0,
            ),
            !old(self)@.cache.contains_key(inode.0) ==> final(self)@ == old(self)@,
    {
        let perm = match self.cache.get_file_by_ino(inode) {
            None => {
                return Err(FsError::NotFound);
            },
            Some(c) => c.file_entry.permissions,
        };
        self.sync_file(inode.0);
        if (mask & sys::r_ok() != 0) && perm & 0o444 == 0 {
            return Err(FsError::AccessDenied);
        }
        if (mask & sys::w_ok() != 0) && perm & 0o222 == 0 {
            return Err(FsError::AccessDenied);
        }
        if (mask & sys::x_ok() != 0) && perm & 0o111 == 0 {
            return Err(FsError::AccessDenied);
        }
        Ok(())
    }

    /// The path of the directory `inode` whose listing the kernel reads, as
    /// the client's record of it has it; `None` for a file the cache does not
    /// know.
    pub fn readdir_path(&mut self, inode: Inode) -> (r: Option<String>)
        ensures
            match r {
                Some(p) => old(self)@.cache.contains_key(inode.0) && final(self)@ == synced_state(
                    old(self)@,
                    inode.0,
                ) && p@ == final(self)@.files[inode.0].path,
                None => !old(self)@.cache.contains_key(inode.0) && final(self)@ == old(self)@,
            },
    {
        if !self.sync_file(inode.0) {
            return None;
        }
        let files = self.take_files();
        let path = match files.get(&inode.0) {
            Some(f) => f.file_path.clone(),
            None => {
                assert(false);
                String::new()
            },
        };
        self.set_files(files);
        Some(path)
    }

    /// The listing of the directory at `dir_path` that the server sent, from
    /// the kernel's `offset` on, in increasing order of inode number; the
    /// files of the listing are recorded in the cache.
    pub fn readdir_entries(&mut self, dir_path: &str, entries: Vec<FileEntry>, offset: i64) -> (r: Vec<
        DirItem,
    >)
        requires
            entries.len() < i64::MAX,
        ensures
            final(self)@ == (RemoteFsView {
                cache: record_entries(old(self)@.cache, dir_path@, entry_views(entries@)),
                files: old(self)@.files,
                last_fd: old(self)@.last_fd,
            }),
            exists|sorted: Seq<FileEntryView>|
                stable_sort_by_ino(sorted, entry_views(entries@)) && lists_from(r@, sorted, offset),
    {
        let mut cache = self.take_cache();
        cache.record_listing(dir_path, &entries);
        self.set_cache(cache);
        directory_items(&entries, offset)
    }

    /// The path of the directory `parent`, in which the kernel looks a name
    /// up, as the cache has it.
    pub fn lookup_dir(&self, parent: Inode) -> (r: Option<String>)
        ensures
            match r {
                Some(p) => self@.cache.contains_key(parent.0) && p@ == self@.cache[parent.0].path,
                None => !self@.cache.contains_key(parent.0),
            },
    {
        match self.cache.get_file_by_ino(parent) {
            Some(c) => Some(c.file_path),
            None => None,
        }
    }

    /// Finds the file `name` in the listing `entries` that the server sent
    /// of the directory at `dir_path`. The listing is recorded in the cache;
    /// the first file of that name is looked up, and it is found where it
    /// still has a link.
    pub fn get_file_in_dir(&mut self, dir_path: &str, entries: &Vec<FileEntry>, name: &str) -> (r:
        Option<FileEntry>)
        ensures
            ({
                let es = entry_views(entries@);
                let c = record_entries(old(self)@.cache, dir_path@, es);
                let i = find_by_name(es, name@, 0);
                let recorded = RemoteFsView { cache: c, files: old(self)@.files, last_fd: old(self)@.last_fd };
                if i < es.len() {
                    let ino = es[i].ino;
                    let s = synced_state(recorded, ino);
                    &&& final(self)@ == s
                    &&& match r {
                        Some(e) => s.files[ino].hard_link > 0 && e@ == c[ino].entry,
                        None => s.files[ino].hard_link == 0,
                    }
                } else {
                    final(self)@ == recorded && r is None
                }
            }),
            (forall|k: int| 0 <= k < entries.len() ==> (#[trigger] entries@[k])@.name != name@) ==> r is None,
            r matches Some(e) ==> exists|k: int|
                0 <= k < entries.len() && (#[trigger] entries@[k])@.name == name@ && entries@[k].ino == e.ino,
    {
        let mut cache = self.take_cache();
        cache.record_listing(dir_path, entries);
        self.set_cache(cache);
        let ghost es = entry_views(entries@);
        let ghost c = self@.cache;
        proof {
            lemma_find_by_name_meaning(es, name@);
        }
        let target = chars_of(name);
        let mut i: usize = 0;
        while i < entries.len()
            invariant
                i <= entries.len(),
                es == entry_views(entries@),
                target@ == name@,
                find_by_name(es, name@, 0) == find_by_name(es, name@, i as int),
            ensures
                i <= entries.len(),
                find_by_name(es, name@, 0) == i,
            decreases entries.len() - i,
        {
            let candidate = chars_of(entries[i].name.as_str());
            if same_chars(candidate.as_slice(), target.as_slice()) {
                break;
            }
            i += 1;
        }
        if i >= entries.len() {
            return None;
        }
        let ino = entries[i].ino;
        proof {
            crate::cache::lemma_recorded_entry(old(self)@.cache, dir_path@, es, i as int);
            crate::cache::lemma_recorded_entry_ino(old(self)@.cache, dir_path@, es, i as int);
            assert(es[i as int] == entries@[i as int]@);
        }
        let ghost recorded = self@;
        assert(recorded.cache == record_entries(old(self)@.cache, dir_path@, es));
        assert(es[i as int].ino == ino);
        self.sync_file(ino);
        let ghost s = self@;
        assert(s == synced_state(recorded, ino));
        assert(s.files.contains_key(ino));
        assert(s.files[ino].entry == recorded.cache[ino].entry);
        let files = self.take_files();
        let found = match files.get(&ino) {
            Some(f) => if f.hard_link > 0 {
                Some(f.file_entry.clone())
            } else {
                None
            },
            None => {
                assert(false);
                None
            },
        };
        self.set_files(files);
        found
    }
}

} // verus!
