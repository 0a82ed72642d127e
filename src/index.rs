//! Building a snapshot from the entries found by walking a root.

use vstd::prelude::*;

use crate::datatypes::{file_type_of, index_file_key, DirIndex, FileType, PathData, INDEX_FILE_NAME};
use crate::path::{FsPath, PathKey};
use crate::pathmap::PathMap;

verus! {

/// One object found under a root, with its path relative to the root and
/// what its metadata says.
pub struct ScanEntry {
    pub path: FsPath,
    pub is_dir: bool,
    pub is_symlink: bool,
    pub mtime: i64,
    pub perms: u32,
    pub size: u64,
}

/// The snapshot entry for a scanned object.
pub open spec fn entry_data(e: ScanEntry) -> PathData {
    PathData {
        mtime: e.mtime,
        perms: e.perms,
        size: e.size,
        ftype: file_type_of(e.is_dir, e.is_symlink),
    }
}

/// Whether a relative path belongs in a snapshot: not the root itself, and
/// not the persisted-state file.
pub open spec fn indexed(k: PathKey) -> bool {
    k.len() > 0 && k != index_file_key()
}

/// The contents of a snapshot built from `s`; a later entry for a path
/// replaces an earlier one.
pub open spec fn scan_model(s: Seq<ScanEntry>) -> Map<PathKey, PathData>
    decreases s.len(),
{
    if s.len() == 0 {
        Map::empty()
    } else {
        let rest = scan_model(s.drop_last());
        let e = s.last();
        if indexed(e.path@) {
            rest.insert(e.path@, entry_data(e))
        } else {
            rest
        }
    }
}

/// Whether `path` belongs in a snapshot.
pub fn is_indexed(path: &FsPath) -> (r: bool)
    ensures
        r == indexed(path@),
{
    if path.depth() == 0 {
        return false;
    }
    if path.depth() == 1 {
        let name = String::from_str(INDEX_FILE_NAME);
        if *path.part(0) == name {
            assert(path@ =~= index_file_key());
            return false;
        }
        assert(path@ != index_file_key()) by {
            if path@ == index_file_key() {
                assert(path@[0] == INDEX_FILE_NAME@);
            }
        }
    }
    true
}

impl DirIndex {
    /// The snapshot of `root` taken at `scantime` from the objects found
    /// under it.
    pub fn from_scan(scantime: u64, root: FsPath, entries: &Vec<ScanEntry>) -> (r: DirIndex)
        ensures
            r.wf(),
            r.scantime == scantime,
            r.root@ == root@,
            r.contents@ == scan_model(entries@),
    {
        let mut contents: PathMap<PathData> = PathMap::new();
        let mut i: usize = 0;
        assert(entries@.subrange(0, 0) =~= Seq::<ScanEntry>::empty());
        while i < entries.len()
            invariant
                i <= entries@.len(),
                contents.wf(),
                contents@ == scan_model(entries@.subrange(0, i as int)),
            decreases entries@.len() - i,
        {
            let e = &entries[i];
            if is_indexed(&e.path) {
                let data = PathData {
                    mtime: e.mtime,
                    perms: e.perms,
                    size: e.size,
                    ftype: FileType::classify(e.is_dir, e.is_symlink),
                };
                contents.insert(e.path.duplicate(), data);
            }
            proof {
                let prefix = entries@.subrange(0, i + 1);
                assert(prefix.drop_last() =~= entries@.subrange(0, i as int));
                assert(prefix.last() == entries@[i as int]);
            }
            i = i + 1;
        }
        assert(entries@.subrange(0, i as int) =~= entries@);
        DirIndex { scantime, root, contents }
    }
}

} // verus!
