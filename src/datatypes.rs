//! Snapshot entries, change records and directory snapshots.

use vstd::prelude::*;

use crate::path::{FsPath, PathKey};
use crate::pathmap::PathMap;

verus! {

/// Name of the file, at the top of each root, that holds the root's last
/// synchronised snapshot. It never appears in a snapshot.
pub const INDEX_FILE_NAME: &'static str = ".twoway.json";

/// The relative path of the persisted-state file.
pub open spec fn index_file_key() -> PathKey {
    seq![INDEX_FILE_NAME@]
}

/// Kind of filesystem object.
#[derive(Clone, Copy, Debug, PartialEq, Eq, Structural)]
pub enum FileType {
    File,
    Dir,
    Link,
}

impl FileType {
    /// The type of an object from what its metadata says: directories first,
    /// then symbolic links, everything else is a file.
    pub fn classify(is_dir: bool, is_symlink: bool) -> (r: FileType)
        ensures
            r == file_type_of(is_dir, is_symlink),
    {
        if is_dir {
            FileType::Dir
        } else if is_symlink {
            FileType::Link
        } else {
            FileType::File
        }
    }

    /// The name shown for this type.
    pub fn label(&self) -> (r: String)
        ensures
            r@ == file_type_label(*self),
    {
        match self {
            FileType::File => String::from_str("File"),
            FileType::Dir => String::from_str("Dir"),
            FileType::Link => String::from_str("Link"),
        }
    }
}

/// The type of an object whose metadata says `is_dir` and `is_symlink`.
pub open spec fn file_type_of(is_dir: bool, is_symlink: bool) -> FileType {
    if is_dir {
        FileType::Dir
    } else if is_symlink {
        FileType::Link
    } else {
        FileType::File
    }
}

/// The name shown for a file type.
pub open spec fn file_type_label(t: FileType) -> Seq<char> {
    match t {
        FileType::File => "File"@,
        FileType::Dir => "Dir"@,
        FileType::Link => "Link"@,
    }
}

/// The observed state of one filesystem object. Two values are equal when
/// all four fields are.
#[derive(Clone, Copy, Debug, PartialEq, Eq, Structural)]
pub struct PathData {
    /// Modification time, in seconds.
    pub mtime: i64,
    /// Permission bits.
    pub perms: u32,
    /// Size in bytes.
    pub size: u64,
    pub ftype: FileType,
}

/// How a path changed between a reference snapshot and a newer one.
#[derive(Clone, Copy, Debug, PartialEq, Eq, Structural)]
pub enum ChangeType {
    /// In both, with a later modification time in the newer snapshot.
    Newer,
    /// In both, with an earlier modification time in the newer snapshot.
    Older,
    /// Only in the newer snapshot.
    NewOnly,
    /// Only in the reference snapshot.
    RefOnly,
    /// In both, same modification time, other metadata differs.
    Modified,
}

impl ChangeType {
    /// The name shown for this change.
    pub fn label(&self) -> (r: String)
        ensures
            r@ == change_label(*self),
    {
        match self {
            ChangeType::Newer => String::from_str("Newer"),
            ChangeType::Older => String::from_str("Older"),
            ChangeType::NewOnly => String::from_str("Added"),
            ChangeType::RefOnly => String::from_str("Removed"),
            ChangeType::Modified => String::from_str("Modified"),
        }
    }
}

/// The name shown for a change.
pub open spec fn change_label(c: ChangeType) -> Seq<char> {
    match c {
        ChangeType::Newer => "Newer"@,
        ChangeType::Older => "Older"@,
        ChangeType::NewOnly => "Added"@,
        ChangeType::RefOnly => "Removed"@,
        ChangeType::Modified => "Modified"@,
    }
}

/// One path's change: its kind, and the type and modification time of the
/// object on the side that the change describes.
#[derive(Clone, Copy, Debug, PartialEq, Eq, Structural)]
pub struct DiffItem {
    pub diff: ChangeType,
    pub ftype: FileType,
    pub mtime: i64,
}

impl DiffItem {
    pub fn new(diff: ChangeType, ftype: FileType, mtime: i64) -> (r: DiffItem)
        ensures
            r == (DiffItem { diff, ftype, mtime }),
    {
        DiffItem { diff, ftype, mtime }
    }
}

/// The changed paths between two snapshots of one root.
pub type DiffSet = PathMap<DiffItem>;

/// A snapshot of one root: when it was taken, the root, and the metadata of
/// every path under it, keyed by the path relative to the root.
pub struct DirIndex {
    pub scantime: u64,
    pub root: FsPath,
    pub contents: PathMap<PathData>,
}

impl DirIndex {
    pub open spec fn wf(&self) -> bool {
        self.contents.wf()
    }

    /// A snapshot of `root` taken at `scantime`, with nothing in it yet.
    pub fn new(scantime: u64, root: FsPath) -> (r: DirIndex)
        ensures
            r.wf(),
            r.scantime == scantime,
            r.root@ == root@,
            r.contents@ == Map::<PathKey, PathData>::empty(),
    {
        DirIndex { scantime, root, contents: PathMap::new() }
    }
}

} // verus!
