//! What the system calls on files return: success, or the error that the call left.
//!
//! Each function takes the path that the call was made on and the number that it returned, right
//! after the call.

use vstd::prelude::*;

use crate::error::{sys_error, Cause, Error};
use crate::path::path_to_cstring;
use crate::stat::FileStat;
use crate::text;

verus! {

/// An error with the given message that a failed system call left: its kind is that of the error
/// number that it holds.
pub open spec fn left_by_call(e: crate::error::ErrorView, message: Seq<char>) -> bool {
    e.cause matches Some(Cause::Os(errno)) && e == crate::error::errno_error_spec(errno, message)
        && crate::error::was_read(errno)
}

/// The two byte strings for a call on two paths. The first path that holds a zero byte decides the
/// error.
pub fn paths_to_cstrings(first: &[u8], second: &[u8]) -> (r: Result<(Vec<u8>, Vec<u8>), Error>)
    ensures
        match r {
            Ok((a, b)) => {
                &&& !first@.contains(0) && !second@.contains(0)
                &&& a@ == first@.push(0) && b@ == second@.push(0)
            },
            Err(e) => {
                ||| first@.contains(0) && e@ == crate::path::cstring_error(first@)
                ||| !first@.contains(0) && second@.contains(0) && e@
                    == crate::path::cstring_error(second@)
            },
        },
{
    let a = match path_to_cstring(first) {
        Ok(bytes) => bytes,
        Err(e) => return Err(e),
    };
    let b = match path_to_cstring(second) {
        Ok(bytes) => bytes,
        Err(e) => return Err(e),
    };
    Ok((a, b))
}

/// The status of a file, which for a symbolic link is that of the link itself.
pub fn lstat(path: &[u8], res: i32, file_stat: FileStat) -> (r: Result<FileStat, Error>)
    ensures
        match r {
            Ok(stat) => res == 0 && stat == file_stat,
            Err(e) => res != 0 && left_by_call(
                e@,
                text::about_spec("libc::lstat failed for path: '"@, path@, "'"@),
            ),
        },
{
    if res == 0 {
        Ok(file_stat)
    } else {
        Err(sys_error(text::about("libc::lstat failed for path: '", path, "'").as_str()))
    }
}

/// The status of a file, which for a symbolic link is that of what it points to.
pub fn stat(path: &[u8], res: i32, file_stat: FileStat) -> (r: Result<FileStat, Error>)
    ensures
        match r {
            Ok(stat) => res == 0 && stat == file_stat,
            Err(e) => res != 0 && left_by_call(
                e@,
                text::about_spec("libc::stat failed for path: '"@, path@, "'"@),
            ),
        },
{
    if res == 0 {
        Ok(file_stat)
    } else {
        Err(sys_error(text::about("libc::stat failed for path: '", path, "'").as_str()))
    }
}

/// The outcome of making a named pipe.
pub fn mkfifo(path: &[u8], res: i32) -> (r: Result<(), Error>)
    ensures
        match r {
            Ok(_) => res == 0,
            Err(e) => res != 0 && left_by_call(
                e@,
                text::about_spec("libc::mkfifo failed for path: '"@, path@, "'"@),
            ),
        },
{
    if res == 0 {
        Ok(())
    } else {
        Err(sys_error(text::about("libc::mkfifo failed for path: '", path, "'").as_str()))
    }
}

/// The outcome of making a device file.
pub fn mknod(path: &[u8], res: i32) -> (r: Result<(), Error>)
    ensures
        match r {
            Ok(_) => res == 0,
            Err(e) => res != 0 && left_by_call(
                e@,
                text::about_spec("libc::mknod failed for path: '"@, path@, "'"@),
            ),
        },
{
    if res == 0 {
        Ok(())
    } else {
        Err(sys_error(text::about("libc::mknod failed for path: '", path, "'").as_str()))
    }
}

/// The outcome of making a directory.
pub fn mkdir(path: &[u8], res: i32) -> (r: Result<(), Error>)
    ensures
        match r {
            Ok(_) => res == 0,
            Err(e) => res != 0 && left_by_call(
                e@,
                text::about_spec("libc::mkdir failed for path: '"@, path@, "'"@),
            ),
        },
{
    if res == 0 {
        Ok(())
    } else {
        Err(sys_error(text::about("libc::mkdir failed for path: '", path, "'").as_str()))
    }
}

/// The outcome of changing the mode of a file, which is opened for it: `call` holds the number that the
/// call on the open file returned, or the error with which the file could not be opened.
pub fn chmod(file_name: &[u8], call: Result<i32, Error>) -> (r: Result<(), Error>)
    ensures
        match (call, r) {
            (Err(e), r) => r == Err::<(), Error>(e),
            (Ok(res), Ok(_)) => res == 0,
            (Ok(res), Err(e)) => res != 0 && left_by_call(
                e@,
                text::about_spec("fchmod failed on file '"@, file_name@, "'"@),
            ),
        },
{
    match call {
        Err(e) => Err(e),
        Ok(res) => if res == 0 {
            Ok(())
        } else {
            Err(sys_error(text::about("fchmod failed on file '", file_name, "'").as_str()))
        },
    }
}

/// The outcome of making a hard link.
pub fn link(old_file: &[u8], new_file: &[u8], res: i32) -> (r: Result<(), Error>)
    ensures
        match r {
            Ok(_) => res == 0,
            Err(e) => res != 0 && left_by_call(
                e@,
                text::about_two_spec(
                    "libc::link failed for path: '"@,
                    old_file@,
                    "', '"@,
                    new_file@,
                    "'"@,
                ),
            ),
        },
{
    if res == 0 {
        Ok(())
    } else {
        let message = text::about_two(
            "libc::link failed for path: '",
            old_file,
            "', '",
            new_file,
            "'",
        );
        Err(sys_error(message.as_str()))
    }
}

/// The outcome of making a symbolic link.
pub fn symlink(source: &[u8], dest: &[u8], res: i32) -> (r: Result<(), Error>)
    ensures
        match r {
            Ok(_) => res == 0,
            Err(e) => res != 0 && left_by_call(
                e@,
                text::about_two_spec(
                    "libc::symlink failed for path: '"@,
                    source@,
                    "', '"@,
                    dest@,
                    "'"@,
                ),
            ),
        },
{
    if res == 0 {
        Ok(())
    } else {
        let message = text::about_two(
            "libc::symlink failed for path: '",
            source,
            "', '",
            dest,
            "'",
        );
        Err(sys_error(message.as_str()))
    }
}

/// Tells whether an error holds a message and a number that was read from the system, and is of the
/// kind that goes with the number.
pub open spec fn holds_read_number(e: Error, message: Seq<char>) -> bool {
    &&& e@.message == message
    &&& e@.cause matches Some(Cause::Os(errno)) && crate::error::was_read(errno)
        && crate::error::kind_goes_with(e@.kind, errno)
}

/// The status that a call filled in is given back exactly if the call returned zero. Otherwise the error
/// tells the path and holds the number that was read from the system.
pub proof fn status_calls_give_the_status_or_the_number(
    path: &[u8],
    res: i32,
    file_stat: FileStat,
    r: Result<FileStat, Error>,
)
    ensures
        call_ensures(lstat, (path, res, file_stat), r) || call_ensures(
            stat,
            (path, res, file_stat),
            r,
        ) ==> (r is Ok <==> res == 0) && (r matches Ok(shown) ==> shown == file_stat),
        call_ensures(lstat, (path, res, file_stat), r) ==> (r matches Err(e) ==> holds_read_number(
            e,
            "libc::lstat failed for path: '"@ + text::lossy_text(path@) + "'"@,
        )),
        call_ensures(stat, (path, res, file_stat), r) ==> (r matches Err(e) ==> holds_read_number(
            e,
            "libc::stat failed for path: '"@ + text::lossy_text(path@) + "'"@,
        )),
{
}

/// A call that makes something succeeds exactly if it returned zero. Otherwise the error tells the path
/// and holds the number that was read from the system.
pub proof fn making_calls_succeed_or_give_the_number(path: &[u8], res: i32, r: Result<(), Error>)
    ensures
        call_ensures(mkfifo, (path, res), r) || call_ensures(mknod, (path, res), r)
            || call_ensures(mkdir, (path, res), r) ==> (r is Ok <==> res == 0),
        call_ensures(mkfifo, (path, res), r) ==> (r matches Err(e) ==> holds_read_number(
            e,
            "libc::mkfifo failed for path: '"@ + text::lossy_text(path@) + "'"@,
        )),
        call_ensures(mknod, (path, res), r) ==> (r matches Err(e) ==> holds_read_number(
            e,
            "libc::mknod failed for path: '"@ + text::lossy_text(path@) + "'"@,
        )),
        call_ensures(mkdir, (path, res), r) ==> (r matches Err(e) ==> holds_read_number(
            e,
            "libc::mkdir failed for path: '"@ + text::lossy_text(path@) + "'"@,
        )),
{
}

/// Changing a mode fails with the error of the file that could not be opened, and otherwise as the call
/// on the open file does.
pub proof fn mode_calls_pass_on_what_failed(
    path: &[u8],
    call: Result<i32, Error>,
    r: Result<(), Error>,
)
    requires
        call_ensures(chmod, (path, call), r),
    ensures
        call matches Err(e) ==> r == Err::<(), Error>(e),
        call matches Ok(res) ==> (r is Ok <==> res == 0),
        call is Ok ==> (r matches Err(e) ==> holds_read_number(
            e,
            "fchmod failed on file '"@ + text::lossy_text(path@) + "'"@,
        )),
{
}

/// A call that links two paths succeeds exactly if it returned zero. Otherwise the error tells both
/// paths, in their order, and holds the number that was read from the system.
pub proof fn linking_calls_succeed_or_give_the_number(
    first: &[u8],
    second: &[u8],
    res: i32,
    r: Result<(), Error>,
)
    ensures
        call_ensures(link, (first, second, res), r) || call_ensures(
            symlink,
            (first, second, res),
            r,
        ) ==> (r is Ok <==> res == 0),
        call_ensures(link, (first, second, res), r) ==> (r matches Err(e) ==> holds_read_number(
            e,
            "libc::link failed for path: '"@ + text::lossy_text(first@) + "', '"@
                + text::lossy_text(second@) + "'"@,
        )),
        call_ensures(symlink, (first, second, res), r) ==> (r matches Err(e) ==> holds_read_number(
            e,
            "libc::symlink failed for path: '"@ + text::lossy_text(first@) + "', '"@
                + text::lossy_text(second@) + "'"@,
        )),
{
}

/// The byte strings for two paths are the paths in their order, each closed by a zero byte. There are
/// some exactly if neither path holds one itself; the error tells the first that does.
pub proof fn byte_strings_keep_the_order(
    first: &[u8],
    second: &[u8],
    r: Result<(Vec<u8>, Vec<u8>), Error>,
)
    requires
        call_ensures(paths_to_cstrings, (first, second), r),
    ensures
        r is Ok <==> !first@.contains(0) && !second@.contains(0),
        r matches Ok((a, b)) ==> a@ == first@.push(0) && b@ == second@.push(0),
        r matches Err(e) ==> e@.kind == crate::error::ErrorKind::Upstream && e@.message
            == "Failed to convert path to C string: '"@ + text::lossy_text(
            if first@.contains(0) {
                first@
            } else {
                second@
            },
        ) + "'"@,
{
}

} // verus!
