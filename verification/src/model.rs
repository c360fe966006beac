//! The values that the file system passes around: inode numbers, file
//! descriptors, the description of a remote file, and the attributes that the
//! kernel is given for it.

use std::collections::HashMap;
use vstd::prelude::*;
use crate::flags::OpenFlags;

verus! {

/// The number of a file of the remote file system.
#[derive(Debug, Clone, Copy, PartialEq, Eq, Hash, Structural)]
pub struct Inode(pub u64);

/// A file descriptor handed to the kernel for an open file.
#[derive(Debug, Clone, Copy, PartialEq, Eq, Hash, Structural)]
pub struct Fd(pub u64);

/// A process id.
#[derive(Debug, Clone, Copy, PartialEq, Eq, Hash, Structural)]
pub struct Pid(pub u32);

/// A point in time, as seconds and nanoseconds since the Unix epoch.
#[derive(Debug, Clone, Copy, PartialEq, Eq, Hash, Structural)]
pub struct Timestamp {
    pub secs: u64,
    pub nanos: u32,
}

impl Timestamp {
    /// The Unix epoch itself.
    pub fn epoch() -> (r: Timestamp)
        ensures
            r.secs == 0 && r.nanos == 0,
    {
        Timestamp { secs: 0, nanos: 0 }
    }
}

/// A file or directory as the server lists it.
#[derive(Debug)]
pub struct FileEntry {
    /// The inode number of the file on the server.
    pub ino: u64,
    /// The name of the file within its directory.
    pub name: String,
    /// Whether it is a directory.
    pub is_dir: bool,
    /// Its size in bytes.
    pub size: u64,
    /// When it was last modified.
    pub modified_at: Timestamp,
    /// Its Unix mode bits, permissions among them (such as `0o755`).
    pub permissions: u32,
}

/// A `FileEntry` as a value: its name as a sequence of characters.
pub struct FileEntryView {
    pub ino: u64,
    pub name: Seq<char>,
    pub is_dir: bool,
    pub size: u64,
    pub modified_at: Timestamp,
    pub permissions: u32,
}

impl View for FileEntry {
    type V = FileEntryView;

    open spec fn view(&self) -> FileEntryView {
        FileEntryView {
            ino: self.ino,
            name: self.name@,
            is_dir: self.is_dir,
            size: self.size,
            modified_at: self.modified_at,
            permissions: self.permissions,
        }
    }
}

impl Clone for FileEntry {
    fn clone(&self) -> (r: Self)
        ensures
            r@ == self@,
    {
        FileEntry {
            ino: self.ino,
            name: self.name.clone(),
            is_dir: self.is_dir,
            size: self.size,
            modified_at: self.modified_at,
            permissions: self.permissions,
        }
    }
}

/// What the server reads of a file's metadata to describe it.
#[derive(Debug, Clone, Copy)]
pub struct FileMetadata {
    /// The inode number.
    pub ino: u64,
    /// Whether it is a directory.
    pub is_dir: bool,
    /// Its length in bytes.
    pub len: u64,
    /// When it was last modified, where the platform tells it.
    pub modified: Option<Timestamp>,
    /// Its Unix mode bits.
    pub mode: u32,
}

impl FileEntry {
    /// Describes a file of the given name from its metadata; a missing
    /// modification time is taken as the Unix epoch.
    pub fn from_metadata(name: String, metadata: FileMetadata) -> (r: FileEntry)
        ensures
            r@ == (FileEntryView {
                ino: metadata.ino,
                name: name@,
                is_dir: metadata.is_dir,
                size: metadata.len,
                modified_at: match metadata.modified {
                    Some(t) => t,
                    None => Timestamp { secs: 0, nanos: 0 },
                },
                permissions: metadata.mode,
            }),
    {
        FileEntry {
            ino: metadata.ino,
            name,
            is_dir: metadata.is_dir,
            size: metadata.len,
            modified_at: match metadata.modified {
                Some(t) => t,
                None => Timestamp::epoch(),
            },
            permissions: metadata.mode,
        }
    }
}

/// A file that the client knows of, with its path on the server.
#[derive(Debug)]
pub struct CachedFile {
    pub file_entry: FileEntry,
    pub file_path: String,
}

/// A `CachedFile` as a value.
pub struct CachedFileView {
    pub entry: FileEntryView,
    pub path: Seq<char>,
}

impl View for CachedFile {
    type V = CachedFileView;

    open spec fn view(&self) -> CachedFileView {
        CachedFileView { entry: self.file_entry@, path: self.file_path@ }
    }
}

impl Clone for CachedFile {
    fn clone(&self) -> (r: Self)
        ensures
            r@ == self@,
    {
        CachedFile { file_entry: self.file_entry.clone(), file_path: self.file_path.clone() }
    }
}

/// A file descriptor that is open on a file, and the flags it was opened with.
#[derive(Debug, Clone, Copy, PartialEq, Eq, Structural)]
pub struct OpenedFile {
    pub fd: Fd,
    pub ino: Inode,
    pub flags: OpenFlags,
}

/// The client's own record of a file: what the cache knows of it, the number
/// of its hard links, and the descriptors open on it, by number.
#[derive(Debug)]
pub struct RfsFile {
    pub file_entry: FileEntry,
    pub file_path: String,
    pub hard_link: u32,
    pub fds: HashMap<u64, OpenedFile>,
}

/// An `RfsFile` as a value.
pub struct RfsFileView {
    pub entry: FileEntryView,
    pub path: Seq<char>,
    pub hard_link: u32,
    pub fds: Map<u64, OpenedFile>,
}

impl View for RfsFile {
    type V = RfsFileView;

    open spec fn view(&self) -> RfsFileView {
        RfsFileView {
            entry: self.file_entry@,
            path: self.file_path@,
            hard_link: self.hard_link,
            fds: self.fds@,
        }
    }
}

/// The record that a file gets when the client first meets it: one hard
/// link and no open descriptor.
pub open spec fn fresh_file(cached: CachedFileView) -> RfsFileView {
    RfsFileView {
        entry: cached.entry,
        path: cached.path,
        hard_link: 1,
        fds: Map::empty(),
    }
}

impl RfsFile {
    /// The record of a cached file that the client first meets.
    pub fn from(value: CachedFile) -> (r: RfsFile)
        ensures
            r@ == fresh_file(value@),
    {
        RfsFile {
            file_entry: value.file_entry,
            file_path: value.file_path,
            hard_link: 1,
            fds: HashMap::new(),
        }
    }
}

/// The kind of a file, as the kernel is told.
#[derive(Debug, Clone, Copy, PartialEq, Eq, Structural)]
pub enum FileKind {
    Directory,
    RegularFile,
}

/// The kind of a file that the server describes.
pub open spec fn kind_of(is_dir: bool) -> FileKind {
    if is_dir {
        FileKind::Directory
    } else {
        FileKind::RegularFile
    }
}

/// The attributes of a file, as the kernel is given them.
#[derive(Debug, Clone, Copy, PartialEq, Eq, Structural)]
pub struct FileAttributes {
    pub ino: u64,
    pub size: u64,
    pub blocks: u64,
    pub atime: Timestamp,
    pub mtime: Timestamp,
    pub ctime: Timestamp,
    pub crtime: Timestamp,
    pub kind: FileKind,
    pub perm: u16,
    pub nlink: u32,
    pub uid: u32,
    pub gid: u32,
    pub rdev: u32,
    pub blksize: u32,
    pub flags: u32,
}

/// The attributes that the kernel is given for a file the server describes:
/// every time is its modification time, 512 divided by its size is its
/// number of blocks, its mode bits cut to 16 bits are its permissions, and it
/// belongs to user and group 1000.
pub open spec fn attributes_of(e: FileEntryView) -> FileAttributes {
    FileAttributes {
        ino: e.ino,
        size: e.size,
        blocks: (512u64 / e.size) as u64,
        atime: e.modified_at,
        mtime: e.modified_at,
        ctime: e.modified_at,
        crtime: e.modified_at,
        kind: kind_of(e.is_dir),
        perm: e.permissions as u16,
        nlink: 0,
        uid: 1000,
        gid: 1000,
        rdev: 0,
        blksize: 512,
        flags: 0,
    }
}

impl FileAttributes {
    /// The attributes of a file the server describes. The file must not be
    /// empty: the number of blocks is 512 divided by the size.
    pub fn from(value: FileEntry) -> (r: FileAttributes)
        requires
            value.size > 0,
        ensures
            r == attributes_of(value@),
    {
        FileAttributes {
            ino: value.ino,
            size: value.size,
            blocks: 512 / value.size,
            atime: value.modified_at,
            mtime: value.modified_at,
            ctime: value.modified_at,
            crtime: value.modified_at,
            kind: if value.is_dir {
                FileKind::Directory
            } else {
                FileKind::RegularFile
            },
            perm: value.permissions as u16,
            nlink: 0,
            uid: 1000,
            gid: 1000,
            rdev: 0,
            blksize: 512,
            flags: 0,
        }
    }
}

/// The body of a rename request: the new name of the file.
#[derive(Debug)]
pub struct RenameRequest {
    new_name: String,
}

impl RenameRequest {
    /// A request to rename a file to `new_name`.
    pub fn new(new_name: String) -> (r: RenameRequest)
        ensures
            r.name() == new_name@,
    {
        RenameRequest { new_name }
    }

    /// The new name that the request asks for.
    pub closed spec fn name(&self) -> Seq<char> {
        self.new_name@
    }

    /// The new name that the request asks for.
    pub fn new_name(&self) -> (r: &str)
        ensures
            r@ == self.name(),
    {
        self.new_name.as_str()
    }
}

} // verus!
