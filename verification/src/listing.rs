//! The listing of a directory as the kernel reads it: the files ordered by
//! inode number, from a given position on.

use vstd::prelude::*;
use crate::model::{FileEntry, FileEntryView, FileKind, kind_of};
use crate::cache::entry_views;

verus! {

/// Whether the files are in increasing order of inode number.
pub open spec fn sorted_by_ino(s: Seq<FileEntryView>) -> bool {
    forall|i: int, j: int| 0 <= i < j < s.len() ==> s[i].ino <= s[j].ino
}

/// Whether `perm` places the files of `es` in the order of `r`: `r[i]` is
/// `es[perm[i]]`, no file of `es` is taken twice, and files with the same
/// inode number keep the order they have in `es`.
pub open spec fn stable_placement(r: Seq<FileEntryView>, es: Seq<FileEntryView>, perm: Seq<int>) -> bool {
    &&& perm.len() == r.len()
    &&& forall|i: int| 0 <= i < r.len() ==> 0 <= #[trigger] perm[i] < es.len() && r[i] == es[perm[i]]
    &&& forall|i: int, j: int| 0 <= i < j < r.len() ==> #[trigger] perm[i] != #[trigger] perm[j]
    &&& forall|i: int, j: int|
        0 <= i < j < r.len() && #[trigger] r[i].ino == #[trigger] r[j].ino ==> perm[i] < perm[j]
}

/// Whether `r` is `es` sorted by inode number, the sort being stable: `r`
/// holds the files of `es`, each once, in increasing order of inode number,
/// and files with the same inode number in the order they have in `es`.
pub open spec fn stable_sort_by_ino(r: Seq<FileEntryView>, es: Seq<FileEntryView>) -> bool {
    &&& r.len() == es.len()
    &&& sorted_by_ino(r)
    &&& exists|perm: Seq<int>| stable_placement(r, es, perm)
}

/// Sorts the files by inode number, keeping the order of files with the same
/// inode number, as `sort_by_key` does.
pub fn sort_by_ino(entries: &Vec<FileEntry>) -> (r: Vec<FileEntry>)
    ensures
        stable_sort_by_ino(entry_views(r@), entry_views(entries@)),
{
    let ghost es = entry_views(entries@);
    let mut r: Vec<FileEntry> = Vec::new();
    let ghost mut perm: Seq<int> = Seq::empty();
    let mut k: usize = 0;
    while k < entries.len()
        invariant
            k <= entries.len(),
            es == entry_views(entries@),
            r.len() == k,
            sorted_by_ino(entry_views(r@)),
            stable_placement(entry_views(r@), es, perm),
            forall|i: int| 0 <= i < perm.len() ==> #[trigger] perm[i] < k,
        decreases entries.len() - k,
    {
        let e = entries[k].clone();
        let key = e.ino;
        let mut p: usize = 0;
        while p < r.len() && r[p].ino <= key
            invariant
                p <= r.len(),
                forall|q: int| 0 <= q < p ==> #[trigger] r@[q].ino <= key,
            decreases r.len() - p,
        {
            p += 1;
        }
        let ghost old_r = entry_views(r@);
        let ghost ev = e@;
        r.insert(p, e);
        proof {
            let nr = entry_views(r@);
            assert(nr =~= old_r.insert(p as int, ev));
            assert forall|q: int| p <= q < old_r.len() implies #[trigger] old_r[q].ino > key by {
                assert(old_r[p as int].ino > key);
            }
            let np = perm.insert(p as int, k as int);
            assert forall|i: int, j: int| 0 <= i < j < nr.len() implies nr[i].ino <= nr[j].ino by {
                if i < p && j < p {
                } else if i < p && j == p {
                    assert(nr[i] == old_r[i]);
                } else if i < p && j > p {
                    assert(nr[i] == old_r[i] && nr[j] == old_r[j - 1]);
                } else if i == p {
                    assert(nr[j] == old_r[j - 1]);
                } else {
                    assert(nr[i] == old_r[i - 1] && nr[j] == old_r[j - 1]);
                }
            }
            assert forall|i: int| 0 <= i < nr.len() implies 0 <= #[trigger] np[i] < es.len() && nr[i]
                == es[np[i]] by {
                if i < p {
                    assert(np[i] == perm[i]);
                } else if i == p {
                } else {
                    assert(np[i] == perm[i - 1]);
                }
            }
            assert forall|i: int, j: int| 0 <= i < j < nr.len() implies #[trigger] np[i]
                != #[trigger] np[j] by {
                if i < p && j < p {
                } else if i < p && j == p {
                    assert(perm[i] < k);
                } else if i < p && j > p {
                    assert(np[j] == perm[j - 1]);
                } else if i == p {
                    assert(perm[j - 1] < k);
                    assert(np[j] == perm[j - 1]);
                } else {
                    assert(np[i] == perm[i - 1] && np[j] == perm[j - 1]);
                }
            }
            assert forall|i: int, j: int|
                0 <= i < j < nr.len() && #[trigger] nr[i].ino == #[trigger] nr[j].ino implies np[i]
                < np[j] by {
                if i < p && j < p {
                } else if i < p && j == p {
                    assert(perm[i] < k);
                } else if i < p && j > p {
                    assert(nr[i] == old_r[i] && nr[j] == old_r[j - 1]);
                    assert(np[j] == perm[j - 1]);
                } else if i == p {
                    assert(nr[j] == old_r[j - 1]);
                    assert(old_r[j - 1].ino > key);
                } else {
                    assert(nr[i] == old_r[i - 1] && nr[j] == old_r[j - 1]);
                    assert(np[i] == perm[i - 1] && np[j] == perm[j - 1]);
                }
            }
            assert(stable_placement(nr, es, np));
            assert forall|i: int| 0 <= i < np.len() implies #[trigger] np[i] < k + 1 by {
                if i < p {
                    assert(np[i] == perm[i]);
                } else if i > p {
                    assert(np[i] == perm[i - 1]);
                }
            }
            perm = np;
        }
        k += 1;
    }
    r
}

/// One file of a directory listing, as it is handed to the kernel: the
/// offset is the position from which the listing goes on after it.
#[derive(Debug)]
pub struct DirItem {
    pub ino: u64,
    pub offset: i64,
    pub kind: FileKind,
    pub name: String,
}

/// The position from which a listing of `len` files is read, for the
/// kernel's `offset`: a negative offset, like one past the end, leaves
/// nothing.
pub open spec fn listing_start(offset: i64, len: nat) -> int {
    if offset < 0 || offset >= len {
        len as int
    } else {
        offset as int
    }
}

/// Whether `items` is the listing of the ordered files `sorted` from the
/// kernel's `offset` on: the item at position `j` describes the file at
/// position `start + j`, and its offset is `start + j + 1`.
pub open spec fn lists_from(items: Seq<DirItem>, sorted: Seq<FileEntryView>, offset: i64) -> bool {
    let start = listing_start(offset, sorted.len());
    &&& items.len() == sorted.len() - start
    &&& forall|j: int|
        0 <= j < items.len() ==> {
            let e = sorted[start + j];
            &&& (#[trigger] items[j]).ino == e.ino
            &&& items[j].offset == start + j + 1
            &&& items[j].kind == kind_of(e.is_dir)
            &&& items[j].name@ == e.name
        }
}

/// Reading a listing on from the offset of one of its items gives the items
/// that follow that one, in the same order: the kernel, reading a directory
/// in several calls, meets every file once.
pub proof fn lemma_listing_continues(
    items: Seq<DirItem>,
    sorted: Seq<FileEntryView>,
    offset: i64,
    j: int,
    rest: Seq<DirItem>,
)
    requires
        lists_from(items, sorted, offset),
        0 <= j < items.len(),
        sorted.len() < i64::MAX,
        lists_from(rest, sorted, items[j].offset),
    ensures
        rest.len() == items.len() - j - 1,
        forall|q: int|
            0 <= q < rest.len() ==> {
                &&& (#[trigger] rest[q]).ino == items[j + 1 + q].ino
                &&& rest[q].offset == items[j + 1 + q].offset
                &&& rest[q].kind == items[j + 1 + q].kind
                &&& rest[q].name@ == items[j + 1 + q].name@
            },
{
    let start = listing_start(offset, sorted.len());
    assert(items[j].offset == start + j + 1);
    assert(listing_start(items[j].offset, sorted.len()) == start + j + 1);
    assert forall|q: int| 0 <= q < rest.len() implies {
        &&& (#[trigger] rest[q]).ino == items[j + 1 + q].ino
        &&& rest[q].offset == items[j + 1 + q].offset
        &&& rest[q].kind == items[j + 1 + q].kind
        &&& rest[q].name@ == items[j + 1 + q].name@
    } by {
        let _ = items[j + 1 + q];
    }
}

/// The listing of the files of a directory from the kernel's `offset` on,
/// in increasing order of inode number.
pub fn directory_items(entries: &Vec<FileEntry>, offset: i64) -> (r: Vec<DirItem>)
    requires
        entries.len() < i64::MAX,
    ensures
        exists|sorted: Seq<FileEntryView>|
            stable_sort_by_ino(sorted, entry_views(entries@)) && lists_from(r@, sorted, offset),
{
    let sorted = sort_by_ino(entries);
    let ghost sv = entry_views(sorted@);
    let len = sorted.len();
    let start: usize = if offset < 0 || offset as u64 >= len as u64 {
        len
    } else {
        offset as usize
    };
    assert(start == listing_start(offset, sv.len()));
    let mut items: Vec<DirItem> = Vec::new();
    let mut idx = start;
    while idx < len
        invariant
            start <= idx <= len,
            len == sorted.len(),
            len < i64::MAX,
            sv == entry_views(sorted@),
            start == listing_start(offset, sv.len()),
            items.len() == idx - start,
            forall|j: int|
                0 <= j < items.len() ==> {
                    let e = sv[start + j];
                    &&& (#[trigger] items@[j]).ino == e.ino
                    &&& items@[j].offset == start + j + 1
                    &&& items@[j].kind == kind_of(e.is_dir)
                    &&& items@[j].name@ == e.name
                },
        decreases len - idx,
    {
        let e = &sorted[idx];
        let kind = if e.is_dir {
            FileKind::Directory
        } else {
            FileKind::RegularFile
        };
        items.push(DirItem { ino: e.ino, offset: (idx + 1) as i64, kind, name: e.name.clone() });
        idx += 1;
    }
    assert(lists_from(items@, sv, offset));
    items
}

} // verus!
