//! The status of a file and the questions about its type.

use vstd::prelude::*;

verus! {

/// The bits of a file mode that hold the file type.
pub const S_IFMT: u32 = 0o170000;

/// The file type of a socket.
pub const S_IFSOCK: u32 = 0o140000;

/// The file type of a symbolic link.
pub const S_IFLNK: u32 = 0o120000;

/// The file type of a regular file.
pub const S_IFREG: u32 = 0o100000;

/// The file type of a block device.
pub const S_IFBLK: u32 = 0o060000;

/// The file type of a directory.
pub const S_IFDIR: u32 = 0o040000;

/// The file type of a character device.
pub const S_IFCHR: u32 = 0o020000;

/// The file type of a named pipe.
pub const S_IFIFO: u32 = 0o010000;

/// The fields of a `stat` record that decisions are made on.
#[derive(Clone, Copy, Debug, PartialEq, Eq, Structural)]
pub struct FileStat {
    /// Device that holds the file.
    pub st_dev: u64,
    /// Inode number of the file.
    pub st_ino: u64,
    /// Number of hard links to the file.
    pub st_nlink: u64,
    /// File type and permissions.
    pub st_mode: u32,
    /// Device that the file stands for, if it is a device file.
    pub st_rdev: u64,
}

impl FileStat {
    /// The file type, one of the `S_IF..` constants for a file of a known type.
    pub open spec fn file_type(self) -> u32 {
        self.st_mode & S_IFMT
    }
}

/// Tells whether the file is a symbolic link.
pub fn is_lnk(stat: &FileStat) -> (r: bool)
    ensures
        r == (stat.file_type() == S_IFLNK),
{
    (stat.st_mode & S_IFMT) == S_IFLNK
}

/// Tells whether the file is a regular file.
pub fn is_reg(stat: &FileStat) -> (r: bool)
    ensures
        r == (stat.file_type() == S_IFREG),
{
    (stat.st_mode & S_IFMT) == S_IFREG
}

/// Tells whether the file is a directory.
pub fn is_dir(stat: &FileStat) -> (r: bool)
    ensures
        r == (stat.file_type() == S_IFDIR),
{
    (stat.st_mode & S_IFMT) == S_IFDIR
}

/// Tells whether the file is a character device.
pub fn is_chr(stat: &FileStat) -> (r: bool)
    ensures
        r == (stat.file_type() == S_IFCHR),
{
    (stat.st_mode & S_IFMT) == S_IFCHR
}

/// Tells whether the file is a block device.
pub fn is_blk(stat: &FileStat) -> (r: bool)
    ensures
        r == (stat.file_type() == S_IFBLK),
{
    (stat.st_mode & S_IFMT) == S_IFBLK
}

/// Tells whether the file is a named pipe.
pub fn is_fifo(stat: &FileStat) -> (r: bool)
    ensures
        r == (stat.file_type() == S_IFIFO),
{
    (stat.st_mode & S_IFMT) == S_IFIFO
}

/// Tells whether the file is a socket.
pub fn is_sock(stat: &FileStat) -> (r: bool)
    ensures
        r == (stat.file_type() == S_IFSOCK),
{
    (stat.st_mode & S_IFMT) == S_IFSOCK
}

/// The type of a file depends on its type bits alone: changing permission bits, the set-id bits or
/// the sticky bit leaves the answer of each of the type questions as it was.
pub proof fn permissions_do_not_change_the_type(stat: FileStat, permissions: u32)
    requires
        permissions <= 0o7777,
    ensures
        (FileStat { st_mode: (stat.st_mode & S_IFMT) | permissions, ..stat }).file_type()
            == stat.file_type(),
{
    let mode = stat.st_mode;
    assert(((mode & S_IFMT) | permissions) & S_IFMT == mode & S_IFMT) by (bit_vector)
        requires
            permissions <= 0o7777,
    ;
}

/// The type of a file is told by the bits of its mode that hold the type, whatever the others are.
pub proof fn types_are_told_by_the_mode(stat: &FileStat, r: bool)
    ensures
        call_ensures(is_lnk, (stat,), r) ==> r == (stat.st_mode & 0o170000 == 0o120000),
        call_ensures(is_reg, (stat,), r) ==> r == (stat.st_mode & 0o170000 == 0o100000),
        call_ensures(is_dir, (stat,), r) ==> r == (stat.st_mode & 0o170000 == 0o040000),
        call_ensures(is_chr, (stat,), r) ==> r == (stat.st_mode & 0o170000 == 0o020000),
        call_ensures(is_blk, (stat,), r) ==> r == (stat.st_mode & 0o170000 == 0o060000),
        call_ensures(is_fifo, (stat,), r) ==> r == (stat.st_mode & 0o170000 == 0o010000),
        call_ensures(is_sock, (stat,), r) ==> r == (stat.st_mode & 0o170000 == 0o140000),
        stat.file_type() == stat.st_mode & 0o170000,
{
}

} // verus!
