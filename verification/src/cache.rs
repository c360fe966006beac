//! The client's cache of the files it has met: for each inode number, the
//! file's description and its path on the server.

use std::collections::HashMap;
use vstd::prelude::*;
use crate::api::{Api, IoErrorKind, ReadPlan, plans_read};
use crate::model::{CachedFile, CachedFileView, FileEntry, FileEntryView, Inode, Timestamp};
use crate::path::{join, join_path};

verus! {

broadcast use vstd::std_specs::hash::group_hash_axioms;

/// The root directory of the remote file system: inode 1, at `/`, with mode
/// `0o755` and size 1.
pub open spec fn root_file() -> CachedFileView {
    CachedFileView {
        entry: FileEntryView {
            ino: 1,
            name: Seq::empty(),
            is_dir: true,
            size: 1,
            modified_at: Timestamp { secs: 0, nanos: 0 },
            permissions: 0o755,
        },
        path: seq!['/'],
    }
}

/// The cache entry of a file listed in the directory `dir`: the file's
/// description and its path, its name joined to the directory's path.
pub open spec fn listed_file(dir: Seq<char>, e: FileEntryView) -> CachedFileView {
    CachedFileView { entry: e, path: join_path(dir, e.name) }
}

/// The cache after the files `es` of the directory `dir` are recorded, in
/// order: a later file with the same inode number replaces an earlier one.
pub open spec fn record_entries(
    m: Map<u64, CachedFileView>,
    dir: Seq<char>,
    es: Seq<FileEntryView>,
) -> Map<u64, CachedFileView>
    decreases es.len(),
{
    if es.len() == 0 {
        m
    } else {
        record_entries(m, dir, es.drop_last()).insert(es.last().ino, listed_file(dir, es.last()))
    }
}

/// Once a listing is recorded, the cache knows every file of it.
pub proof fn lemma_recorded_entry(
    m: Map<u64, CachedFileView>,
    dir: Seq<char>,
    es: Seq<FileEntryView>,
    i: int,
)
    requires
        0 <= i < es.len(),
    ensures
        record_entries(m, dir, es).contains_key(es[i].ino),
    decreases es.len(),
{
    if i < es.len() - 1 {
        lemma_recorded_entry(m, dir, es.drop_last(), i);
    }
}

/// Once a listing is recorded, the cache keeps each listed inode number's
/// file under that same number.
pub proof fn lemma_recorded_entry_ino(
    m: Map<u64, CachedFileView>,
    dir: Seq<char>,
    es: Seq<FileEntryView>,
    i: int,
)
    requires
        0 <= i < es.len(),
    ensures
        record_entries(m, dir, es)[es[i].ino].entry.ino == es[i].ino,
    decreases es.len(),
{
    if i < es.len() - 1 && es.last().ino != es[i].ino {
        lemma_recorded_entry_ino(m, dir, es.drop_last(), i);
    }
}

/// After a listing is recorded, the cache gives for the inode number of a
/// listed file that no later file of the listing shares that file, at its
/// name joined to the directory's path.
pub proof fn lemma_record_then_lookup(
    m: Map<u64, CachedFileView>,
    dir: Seq<char>,
    es: Seq<FileEntryView>,
    j: int,
)
    requires
        0 <= j < es.len(),
        forall|l: int| j < l < es.len() ==> #[trigger] es[l].ino != es[j].ino,
    ensures
        record_entries(m, dir, es).contains_key(es[j].ino),
        record_entries(m, dir, es)[es[j].ino] == listed_file(dir, es[j]),
    decreases es.len(),
{
    if j < es.len() - 1 {
        let rest = es.drop_last();
        assert(rest[j] == es[j]);
        assert forall|l: int| j < l < rest.len() implies #[trigger] rest[l].ino != rest[j].ino by {
            assert(rest[l] == es[l]);
        }
        lemma_record_then_lookup(m, dir, rest, j);
        assert(es.last().ino != es[j].ino);
    }
}

/// Recording a listing leaves the cache as it was for every inode number
/// that the listing does not hold.
pub proof fn lemma_record_keeps_others(
    m: Map<u64, CachedFileView>,
    dir: Seq<char>,
    es: Seq<FileEntryView>,
    k: u64,
)
    requires
        forall|i: int| 0 <= i < es.len() ==> #[trigger] es[i].ino != k,
    ensures
        record_entries(m, dir, es).contains_key(k) == m.contains_key(k),
        m.contains_key(k) ==> record_entries(m, dir, es)[k] == m[k],
    decreases es.len(),
{
    if es.len() > 0 {
        let rest = es.drop_last();
        assert forall|i: int| 0 <= i < rest.len() implies #[trigger] rest[i].ino != k by {
            assert(rest[i] == es[i]);
        }
        lemma_record_keeps_others(m, dir, rest, k);
        assert(es[es.len() - 1].ino != k);
    }
}

/// The descriptions of a sequence of files.
pub open spec fn entry_views(es: Seq<FileEntry>) -> Seq<FileEntryView> {
    es.map_values(|e: FileEntry| e@)
}

/// The files that the client knows of, by inode number.
#[derive(Debug)]
pub struct Cache {
    files: HashMap<u64, CachedFile>,
}

impl View for Cache {
    type V = Map<u64, CachedFileView>;

    closed spec fn view(&self) -> Map<u64, CachedFileView> {
        self.files@.map_values(|f: CachedFile| f@)
    }
}

impl Cache {
    /// Every file is kept under its own inode number.
    #[verifier::type_invariant]
    closed spec fn keyed_by_inode(self) -> bool {
        forall|k: u64| #[trigger] self.files@.contains_key(k) ==> self.files@[k].file_entry.ino == k
    }

    /// A cache that knows the root directory alone.
    pub fn new() -> (r: Cache)
        ensures
            r@ == map![1u64 => root_file()],
    {
        let mut path = String::new();
        crate::text::push_char(&mut path, '/');
        let root = CachedFile {
            file_entry: FileEntry {
                ino: 1,
                name: String::new(),
                is_dir: true,
                size: 1,
                modified_at: Timestamp::epoch(),
                permissions: 0o755,
            },
            file_path: path,
        };
        let mut files: HashMap<u64, CachedFile> = HashMap::new();
        files.insert(1, root);
        let r = Cache { files };
        assert(r@ =~= map![1u64 => root_file()]);
        r
    }

    /// Records the files that the server listed in the directory at `path`:
    /// each one under its inode number, at its name joined to `path`.
    pub fn record_listing(&mut self, path: &str, entries: &Vec<FileEntry>)
        ensures
            final(self)@ == record_entries(old(self)@, path@, entry_views(entries@)),
    {
        let mut i: usize = 0;
        assert(entry_views(entries@).take(0) =~= Seq::<FileEntryView>::empty());
        while i < entries.len()
            invariant
                i <= entries.len(),
                self@ == record_entries(old(self)@, path@, entry_views(entries@).take(i as int)),
            decreases entries.len() - i,
        {
            let entry = &entries[i];
            let file_path = join(path, entry.name.as_str());
            let cached = CachedFile { file_entry: entry.clone(), file_path };
            let ghost before = self@;
            self.add(entry.ino, cached);
            let ghost es = entry_views(entries@).take(i + 1);
            assert(es.drop_last() == entry_views(entries@).take(i as int));
            assert(es.last() == entries@[i as int]@);
            i += 1;
        }
        assert(entry_views(entries@).take(entries.len() as int) == entry_views(entries@));
    }

    /// Keeps `file` under `ino`, which is its inode number.
    fn add(&mut self, ino: u64, file: CachedFile)
        requires
            file.file_entry.ino == ino,
        ensures
            final(self)@ == old(self)@.insert(ino, file@),
    {
        proof {
            use_type_invariant(&*self);
        }
        let ghost v = file@;
        let mut files: HashMap<u64, CachedFile> = HashMap::new();
        std::mem::swap(&mut files, &mut self.files);
        files.insert(ino, file);
        self.files = files;
        assert(self@ =~= old(self)@.insert(ino, v));
    }

    /// The file with the inode number `ino`, if the cache knows it.
    pub fn get_file_by_ino(&self, ino: Inode) -> (r: Option<CachedFile>)
        ensures
            match r {
                Some(f) => self@.contains_key(ino.0) && f@ == self@[ino.0] && f@.entry.ino == ino.0,
                None => !self@.contains_key(ino.0),
            },
    {
        proof {
            use_type_invariant(self);
        }
        match self.files.get(&ino.0) {
            Some(f) => Some(f.clone()),
            None => None,
        }
    }

    /// Whether the cache knows the file with the inode number `ino`.
    pub fn contains(&self, ino: Inode) -> (r: bool)
        ensures
            r == self@.contains_key(ino.0),
    {
        self.files.contains_key(&ino.0)
    }

    /// How `size` bytes from `offset` of the file `ino` are read from the
    /// server; an unknown file is a failure of kind `Other`.
    pub fn get_file_content(&self, api: &Api, ino: Inode, offset: u64, size: u32) -> (r: Result<
        ReadPlan,
        IoErrorKind,
    >)
        requires
            self@.contains_key(ino.0) ==> size == 0 || offset + size <= u64::MAX,
        ensures
            match r {
                Ok(plan) => self@.contains_key(ino.0) && plans_read(
                    plan,
                    api.base_url@,
                    self@[ino.0].path,
                    offset,
                    size,
                ),
                Err(e) => !self@.contains_key(ino.0) && e == IoErrorKind::Other,
            },
    {
        match self.files.get(&ino.0) {
            None => Err(IoErrorKind::Other),
            Some(file) => Ok(api.read_file_contents_request(file.file_path.as_str(), offset, size)),
        }
    }

    /// The address to which the content of the file `ino` is written; an
    /// unknown file is "not found".
    pub fn write_file_content(&self, api: &Api, ino: Inode) -> (r: Result<String, IoErrorKind>)
        ensures
            match r {
                Ok(url) => self@.contains_key(ino.0) && url@ == api.base_url@ + "files"@
                    + self@[ino.0].path,
                Err(e) => !self@.contains_key(ino.0) && e == IoErrorKind::NotFound,
            },
    {
        match self.files.get(&ino.0) {
            None => Err(IoErrorKind::NotFound),
            Some(file) => Ok(api.write_file_contents_url(file.file_path.as_str())),
        }
    }

    /// Records a file at `path`, under its inode number.
    pub fn add_to_cache(&mut self, path: String, entry: FileEntry)
        ensures
            final(self)@ == old(self)@.insert(entry.ino, CachedFileView { entry: entry@, path: path@ }),
    {
        let ino = entry.ino;
        self.add(ino, CachedFile { file_path: path, file_entry: entry });
    }

    /// Forgets the file `ino`, deleted on the server.
    pub fn remove(&mut self, ino: Inode)
        ensures
            final(self)@ == old(self)@.remove(ino.0),
    {
        proof {
            use_type_invariant(&*self);
        }
        let mut files: HashMap<u64, CachedFile> = HashMap::new();
        std::mem::swap(&mut files, &mut self.files);
        files.remove(&ino.0);
        self.files = files;
        assert(self@ =~= old(self)@.remove(ino.0));
    }
}

} // verus!
