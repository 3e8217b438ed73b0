use system::stat::{
    is_blk, is_chr, is_dir, is_fifo, is_lnk, is_reg, is_sock, FileStat, S_IFBLK, S_IFCHR, S_IFDIR,
    S_IFIFO, S_IFLNK, S_IFMT, S_IFREG, S_IFSOCK,
};

fn with_mode(st_mode: u32) -> FileStat {
    FileStat { st_dev: 1, st_ino: 2, st_nlink: 1, st_mode, st_rdev: 0 }
}

fn answers(st_mode: u32) -> [bool; 7] {
    let stat = with_mode(st_mode);
    [
        is_lnk(&stat),
        is_reg(&stat),
        is_dir(&stat),
        is_chr(&stat),
        is_blk(&stat),
        is_fifo(&stat),
        is_sock(&stat),
    ]
}

#[test]
fn file_types_are_those_of_the_system() {
    assert_eq!(S_IFMT, libc::S_IFMT);
    assert_eq!(S_IFLNK, libc::S_IFLNK);
    assert_eq!(S_IFREG, libc::S_IFREG);
    assert_eq!(S_IFDIR, libc::S_IFDIR);
    assert_eq!(S_IFCHR, libc::S_IFCHR);
    assert_eq!(S_IFBLK, libc::S_IFBLK);
    assert_eq!(S_IFIFO, libc::S_IFIFO);
    assert_eq!(S_IFSOCK, libc::S_IFSOCK);
}

#[test]
fn each_type_answers_one_question() {
    let types = [S_IFLNK, S_IFREG, S_IFDIR, S_IFCHR, S_IFBLK, S_IFIFO, S_IFSOCK];
    for (i, file_type) in types.iter().enumerate() {
        let mut expected = [false; 7];
        expected[i] = true;
        assert_eq!(answers(*file_type | 0o644), expected);
    }
}

#[test]
fn unknown_types_answer_none() {
    assert_eq!(answers(0), [false; 7]);
    assert_eq!(answers(0o777), [false; 7]);
    assert_eq!(answers(0o170000), [false; 7]);
}

#[test]
fn permissions_leave_the_type() {
    assert!(is_dir(&with_mode(0o040000)));
    assert!(is_dir(&with_mode(0o040000 | 0o7777)));
    assert!(!is_dir(&with_mode(0o7777)));
}
