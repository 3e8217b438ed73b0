//! Where the files with several hard links have been copied to.

use std::collections::HashMap;

use vstd::prelude::*;

use crate::error::{Error, ErrorKind};
use crate::path::copy_bytes;

verus! {

/// How a copy treats files with several hard links.
pub enum CopyInodes {
    /// Source and destination are on one file system: the source file itself is linked.
    SameFs,
    /// They are not: the first copy of an inode is linked. Holds the path of the first copy of each.
    SeparateFs(HashMap<u64, Vec<u8>>),
}

/// The contents of a [`CopyInodes`].
pub enum CopyInodesView {
    SameFs,
    SeparateFs(Map<u64, Seq<u8>>),
}

impl View for CopyInodes {
    type V = CopyInodesView;

    open spec fn view(&self) -> CopyInodesView {
        match self {
            CopyInodes::SameFs => CopyInodesView::SameFs,
            CopyInodes::SeparateFs(paths) => CopyInodesView::SeparateFs(
                paths@.map_values(|path: Vec<u8>| path@),
            ),
        }
    }
}

impl CopyInodesView {
    /// The path that an inode has been copied to, if it is known.
    pub open spec fn find(self, ino: u64) -> Option<Seq<u8>> {
        match self {
            CopyInodesView::SameFs => None,
            CopyInodesView::SeparateFs(paths) => if paths.contains_key(ino) {
                Some(paths[ino])
            } else {
                None
            },
        }
    }

    /// The same with one more inode, where inodes are kept.
    pub open spec fn with(self, ino: u64, path: Seq<u8>) -> CopyInodesView {
        match self {
            CopyInodesView::SameFs => CopyInodesView::SameFs,
            CopyInodesView::SeparateFs(paths) => CopyInodesView::SeparateFs(
                paths.insert(ino, path),
            ),
        }
    }
}

/// The error for an inode where none are kept.
pub open spec fn same_fs_error() -> crate::error::ErrorView {
    crate::error::ErrorView {
        kind: ErrorKind::InvState,
        message: "Trying to register inode in SameFs copy"@,
        cause: None,
    }
}

impl CopyInodes {
    /// Starts a copy between the devices of two directories.
    pub fn between(source_dev: u64, dest_dev: u64) -> (r: CopyInodes)
        ensures
            r@ == if source_dev == dest_dev {
                CopyInodesView::SameFs
            } else {
                CopyInodesView::SeparateFs(Map::empty())
            },
    {
        if source_dev == dest_dev {
            CopyInodes::SameFs
        } else {
            let paths: HashMap<u64, Vec<u8>> = HashMap::new();
            assert(paths@.map_values(|path: Vec<u8>| path@) =~= Map::empty());
            CopyInodes::SeparateFs(paths)
        }
    }

    /// The path that an inode has been copied to, if it is known.
    pub fn find(&self, ino: u64) -> (r: Option<Vec<u8>>)
        ensures
            match r {
                Some(path) => self@.find(ino) == Some(path@),
                None => self@.find(ino) is None,
            },
    {
        match self {
            CopyInodes::SameFs => None,
            CopyInodes::SeparateFs(paths) => match paths.get(&ino) {
                Some(path) => Some(copy_bytes(path.as_slice())),
                None => None,
            },
        }
    }

    /// Keeps the path that an inode has been copied to. A copy within one file system keeps none.
    pub fn register(&mut self, ino: u64, path: Vec<u8>) -> (r: Result<(), Error>)
        ensures
            final(self)@ == old(self)@.with(ino, path@),
            match r {
                Ok(_) => old(self)@ is SeparateFs,
                Err(e) => old(self)@ is SameFs && e@ == same_fs_error(),
            },
    {
        match self {
            CopyInodes::SameFs => Err(
                Error::with_context(
                    ErrorKind::InvState,
                    "Trying to register inode in SameFs copy",
                ),
            ),
            CopyInodes::SeparateFs(paths) => {
                let ghost before = paths@;
                let ghost kept = path@;
                paths.insert(ino, path);
                assert(paths@.map_values(|path: Vec<u8>| path@) =~= before.map_values(
                    |path: Vec<u8>| path@,
                ).insert(ino, kept));
                Ok(())
            },
        }
    }
}

/// A copy remembers inodes exactly if source and destination are on different devices, and knows none
/// at first.
pub proof fn inodes_are_kept_between_devices(source_dev: u64, dest_dev: u64, ino: u64, r: CopyInodes)
    requires
        call_ensures(CopyInodes::between, (source_dev, dest_dev), r),
    ensures
        r@ is SeparateFs <==> source_dev != dest_dev,
        r@.find(ino) is None,
{
}

/// The path that is kept for an inode is found again, and that of no other inode changes.
pub proof fn kept_inodes_are_found(before: CopyInodesView, ino: u64, other: u64, path: Seq<u8>)
    ensures
        before is SeparateFs ==> before.with(ino, path).find(ino) == Some(path),
        before is SameFs ==> before.with(ino, path) == before,
        before is SeparateFs <==> before.with(ino, path) is SeparateFs,
        other != ino ==> before.with(ino, path).find(other) == before.find(other),
        before is SameFs ==> before.find(ino) is None,
{
}

/// What is found for an inode is what is kept for it.
pub proof fn finding_gives_what_is_kept(inodes: &CopyInodes, ino: u64, r: Option<Vec<u8>>)
    requires
        call_ensures(CopyInodes::find, (inodes, ino), r),
    ensures
        inodes is SameFs ==> r is None,
        *inodes matches CopyInodes::SeparateFs(paths) ==> (r is Some <==> paths@.contains_key(ino)),
        *inodes matches CopyInodes::SeparateFs(paths) ==> (r matches Some(path) ==> path@
            == paths@[ino]@),
{
}

} // verus!
