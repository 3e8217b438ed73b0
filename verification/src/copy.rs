//! Copying directory trees.
//!
//! [`copy_dir`] starts a copy and [`CopyDir::step`] continues it. Both give back the next thing to
//! do; what came of it is handed to the next step. Directories are copied depth first. Files with
//! several hard links are linked rather than copied again, where that is possible.

use vstd::prelude::*;

use crate::error::{Error, ErrorKind, IoFailure};
use crate::inodes::CopyInodes;
use crate::listing::NextEntry;
use crate::path::{copy_bytes, file_name, path_join};
use crate::stat::{is_blk, is_chr, is_dir, is_fifo, is_lnk, is_reg, is_sock, FileStat};
use crate::text;

verus! {

/// The bits of a mode that a new directory or named pipe is made with.
pub const MODE_BITS: u32 = 0xFFFF;

/// Something to do for the copy. `P` holds a path, `E` an error.
pub enum CopyActionOf<P, E> {
    /// Get the status of a file.
    Stat { path: P },
    /// Open a directory. It is the innermost one until it has no more entries.
    ReadDir { path: P },
    /// Get the next entry of the innermost open directory, and close it if there is none.
    NextEntry,
    /// Get the status of a file, without following a symbolic link.
    Lstat { path: P },
    /// Make a hard link.
    Link { old_file: P, new_file: P },
    /// Read what a symbolic link points to.
    ReadLink { path: P },
    /// Make a symbolic link that points to `source`.
    Symlink { source: P, dest: P },
    /// Make a directory.
    Mkdir { path: P, mode: u32 },
    /// Make a named pipe.
    Mkfifo { path: P, mode: u32 },
    /// Make a device file.
    Mknod { path: P, mode: u32, dev_id: u64 },
    /// Copy the contents and the permissions of a regular file.
    CopyFile { source: P, dest: P },
    /// Stop: the copy is over.
    Finish { result: Result<(), E> },
}

/// What came of the last action. `P` holds a path, `E` an error.
pub enum CopyEventOf<P, E> {
    /// The status of a file.
    Stat(Result<FileStat, E>),
    /// A directory was opened, or could not be.
    Opened(Result<(), IoFailure>),
    /// The next entry of the innermost open directory.
    Next(NextEntry<P>),
    /// What a symbolic link points to.
    Target(Result<P, IoFailure>),
    /// Something was made, or could not be.
    Made(Result<(), E>),
    /// A regular file was copied, or could not be.
    Copied(Result<(), IoFailure>),
}

/// A directory that is being copied.
pub struct Frame<P> {
    /// The directory that is read.
    pub source: P,
    /// The directory that is filled.
    pub dest: P,
}

/// An entry that is being copied.
pub struct Item<P> {
    /// The path of the entry.
    pub source: P,
    /// The path of its copy.
    pub dest: P,
    /// Its status.
    pub stat: FileStat,
    /// Whether its inode is to be kept once it has been copied.
    pub insert: bool,
}

/// What the copy waits for.
pub enum CopyWait<P> {
    /// The status of the source directory.
    SourceStat,
    /// The status of the destination directory.
    DestStat { source_dev: u64 },
    /// The innermost directory being opened.
    Open,
    /// The next entry of the innermost directory.
    Entry,
    /// The status of an entry.
    EntryStat { path: P },
    /// A hard link to the source being made.
    LinkSource,
    /// A hard link to an earlier copy being made.
    LinkCopy { item: Item<P> },
    /// What a symbolic link points to.
    Target { item: Item<P> },
    /// A directory being made.
    Dir { item: Item<P> },
    /// A symbolic link, a named pipe or a device file being made.
    Node { item: Item<P> },
    /// A regular file being copied.
    File { item: Item<P> },
    /// Nothing: the copy is over.
    Finished,
}

/// The contents of a [`CopyDir`].
pub struct CopyView {
    /// The directories that are being copied, the innermost last.
    pub frames: Seq<Frame<Seq<u8>>>,
    /// The files with several hard links.
    pub inodes: crate::inodes::CopyInodesView,
    /// What the copy waits for.
    pub waiting: CopyWait<Seq<u8>>,
}

pub type CopyAction = CopyActionOf<Vec<u8>, Error>;

pub type CopyEvent = CopyEventOf<Vec<u8>, Error>;

pub type CopyActionView = CopyActionOf<Seq<u8>, crate::error::ErrorView>;

pub type CopyEventView = CopyEventOf<Seq<u8>, crate::error::ErrorView>;

impl View for CopyActionOf<Vec<u8>, Error> {
    type V = CopyActionView;

    open spec fn view(&self) -> CopyActionView {
        match self {
            CopyActionOf::Stat { path } => CopyActionOf::Stat { path: path@ },
            CopyActionOf::ReadDir { path } => CopyActionOf::ReadDir { path: path@ },
            CopyActionOf::NextEntry => CopyActionOf::NextEntry,
            CopyActionOf::Lstat { path } => CopyActionOf::Lstat { path: path@ },
            CopyActionOf::Link { old_file, new_file } => CopyActionOf::Link {
                old_file: old_file@,
                new_file: new_file@,
            },
            CopyActionOf::ReadLink { path } => CopyActionOf::ReadLink { path: path@ },
            CopyActionOf::Symlink { source, dest } => CopyActionOf::Symlink {
                source: source@,
                dest: dest@,
            },
            CopyActionOf::Mkdir { path, mode } => CopyActionOf::Mkdir { path: path@, mode: *mode },
            CopyActionOf::Mkfifo { path, mode } => CopyActionOf::Mkfifo {
                path: path@,
                mode: *mode,
            },
            CopyActionOf::Mknod { path, mode, dev_id } => CopyActionOf::Mknod {
                path: path@,
                mode: *mode,
                dev_id: *dev_id,
            },
            CopyActionOf::CopyFile { source, dest } => CopyActionOf::CopyFile {
                source: source@,
                dest: dest@,
            },
            CopyActionOf::Finish { result } => CopyActionOf::Finish {
                result: crate::listing::result_view(*result),
            },
        }
    }
}

impl View for CopyEventOf<Vec<u8>, Error> {
    type V = CopyEventView;

    open spec fn view(&self) -> CopyEventView {
        match self {
            CopyEventOf::Stat(result) => CopyEventOf::Stat(crate::listing::result_view(*result)),
            CopyEventOf::Opened(result) => CopyEventOf::Opened(*result),
            CopyEventOf::Next(next) => CopyEventOf::Next(next@),
            CopyEventOf::Target(target) => CopyEventOf::Target(
                crate::listing::target_view(*target),
            ),
            CopyEventOf::Made(result) => CopyEventOf::Made(crate::listing::result_view(*result)),
            CopyEventOf::Copied(result) => CopyEventOf::Copied(*result),
        }
    }
}

impl View for Frame<Vec<u8>> {
    type V = Frame<Seq<u8>>;

    open spec fn view(&self) -> Frame<Seq<u8>> {
        Frame { source: self.source@, dest: self.dest@ }
    }
}

impl View for Item<Vec<u8>> {
    type V = Item<Seq<u8>>;

    open spec fn view(&self) -> Item<Seq<u8>> {
        Item { source: self.source@, dest: self.dest@, stat: self.stat, insert: self.insert }
    }
}

impl View for CopyWait<Vec<u8>> {
    type V = CopyWait<Seq<u8>>;

    open spec fn view(&self) -> CopyWait<Seq<u8>> {
        match self {
            CopyWait::SourceStat => CopyWait::SourceStat,
            CopyWait::DestStat { source_dev } => CopyWait::DestStat { source_dev: *source_dev },
            CopyWait::Open => CopyWait::Open,
            CopyWait::Entry => CopyWait::Entry,
            CopyWait::EntryStat { path } => CopyWait::EntryStat { path: path@ },
            CopyWait::LinkSource => CopyWait::LinkSource,
            CopyWait::LinkCopy { item } => CopyWait::LinkCopy { item: item@ },
            CopyWait::Target { item } => CopyWait::Target { item: item@ },
            CopyWait::Dir { item } => CopyWait::Dir { item: item@ },
            CopyWait::Node { item } => CopyWait::Node { item: item@ },
            CopyWait::File { item } => CopyWait::File { item: item@ },
            CopyWait::Finished => CopyWait::Finished,
        }
    }
}

/// A copy in progress.
pub struct CopyDir {
    frames: Vec<Frame<Vec<u8>>>,
    inodes: CopyInodes,
    waiting: CopyWait<Vec<u8>>,
}

/// The views of a list of directories.
pub open spec fn frame_views(frames: Seq<Frame<Vec<u8>>>) -> Seq<Frame<Seq<u8>>> {
    Seq::new(frames.len(), |i: int| frames[i]@)
}

impl View for CopyDir {
    type V = CopyView;

    closed spec fn view(&self) -> CopyView {
        CopyView {
            frames: frame_views(self.frames@),
            inodes: self.inodes@,
            waiting: self.waiting@,
        }
    }
}

/// An error that nothing underneath is to blame for.
pub open spec fn own_error(kind: ErrorKind, message: Seq<char>) -> crate::error::ErrorView {
    crate::error::ErrorView { kind, message, cause: None }
}

/// An error that something underneath is to blame for.
pub open spec fn upstream_error(message: Seq<char>, failure: IoFailure) -> crate::error::ErrorView {
    crate::error::ErrorView {
        kind: ErrorKind::Upstream,
        message,
        cause: Some(failure.as_cause()),
    }
}

/// The message for an entry of a type that cannot be copied.
pub open spec fn mode_message(mode: u32, dir: Seq<u8>) -> Seq<char> {
    text::about_spec(
        "Encountered invalid source file mode 0x"@ + text::hex_digits(mode as nat, 8) + " for  '"@,
        dir,
        "'"@,
    )
}

impl CopyView {
    /// What holds of each copy that is not over: there is a directory that is being copied.
    pub open spec fn wf(self) -> bool {
        self.waiting is Finished || self.frames.len() > 0
    }

    /// Tells whether an event is an answer to what the copy waits for.
    pub open spec fn accepts(self, event: CopyEventView) -> bool {
        match self.waiting {
            CopyWait::SourceStat | CopyWait::DestStat { .. } | CopyWait::EntryStat { .. } => event is Stat,
            CopyWait::Open => event is Opened,
            CopyWait::Entry => event is Next,
            CopyWait::Target { .. } => event is Target,
            CopyWait::LinkSource
            | CopyWait::LinkCopy { .. }
            | CopyWait::Dir { .. }
            | CopyWait::Node { .. } => event is Made,
            CopyWait::File { .. } => event is Copied,
            CopyWait::Finished => false,
        }
    }

    /// The same copy, waiting for something else.
    pub open spec fn wait(self, waiting: CopyWait<Seq<u8>>) -> CopyView {
        CopyView { waiting, ..self }
    }

    /// The end of a copy.
    pub open spec fn finish(self, result: Result<(), crate::error::ErrorView>) -> (
        CopyView,
        CopyActionView,
    ) {
        (self.wait(CopyWait::Finished), CopyActionOf::Finish { result })
    }

    /// The copy goes on with the next entry of the innermost directory.
    pub open spec fn next_entry(self) -> (CopyView, CopyActionView) {
        (self.wait(CopyWait::Entry), CopyActionOf::NextEntry)
    }

    /// The copy goes on with another directory.
    pub open spec fn enter(self, frame: Frame<Seq<u8>>) -> (CopyView, CopyActionView) {
        (
            CopyView { frames: self.frames.push(frame), waiting: CopyWait::Open, ..self },
            CopyActionOf::ReadDir { path: frame.source },
        )
    }

    /// The innermost directory is done.
    pub open spec fn leave(self) -> (CopyView, CopyActionView) {
        let outer = CopyView { frames: self.frames.drop_last(), ..self };
        if outer.frames.len() == 0 {
            outer.finish(Ok(()))
        } else {
            outer.next_entry()
        }
    }

    /// Makes the copy of an entry, by the type of the entry.
    pub open spec fn make(self, item: Item<Seq<u8>>) -> (CopyView, CopyActionView) {
        let mode = item.stat.st_mode;
        let kind = item.stat.file_type();
        if kind == crate::stat::S_IFLNK {
            (self.wait(CopyWait::Target { item }), CopyActionOf::ReadLink { path: item.source })
        } else if kind == crate::stat::S_IFDIR {
            (
                self.wait(CopyWait::Dir { item }),
                CopyActionOf::Mkdir { path: item.dest, mode: mode & MODE_BITS },
            )
        } else if kind == crate::stat::S_IFIFO {
            (
                self.wait(CopyWait::Node { item }),
                CopyActionOf::Mkfifo { path: item.dest, mode: mode & MODE_BITS },
            )
        } else if kind == crate::stat::S_IFBLK || kind == crate::stat::S_IFCHR {
            (
                self.wait(CopyWait::Node { item }),
                CopyActionOf::Mknod { path: item.dest, mode, dev_id: item.stat.st_rdev },
            )
        } else if kind == crate::stat::S_IFSOCK {
            self.next_entry()
        } else if kind == crate::stat::S_IFREG {
            (
                self.wait(CopyWait::File { item }),
                CopyActionOf::CopyFile { source: item.source, dest: item.dest },
            )
        } else {
            self.finish(
                Err(own_error(ErrorKind::InvParam, mode_message(mode, self.frames.last().source))),
            )
        }
    }

    /// Copies an entry, once its status is known.
    pub open spec fn copy_entry(self, path: Seq<u8>, name: Seq<u8>, stat: FileStat) -> (
        CopyView,
        CopyActionView,
    ) {
        let dest = crate::path::join_spec(self.frames.last().dest, name);
        let item = Item { source: path, dest, stat, insert: false };
        if stat.file_type() == crate::stat::S_IFDIR || stat.st_nlink <= 1 {
            self.make(item)
        } else if self.inodes is SameFs {
            (
                self.wait(CopyWait::LinkSource),
                CopyActionOf::Link { old_file: path, new_file: dest },
            )
        } else {
            match self.inodes.find(stat.st_ino) {
                Some(earlier) => (
                    self.wait(CopyWait::LinkCopy { item }),
                    CopyActionOf::Link { old_file: earlier, new_file: dest },
                ),
                None => self.make(Item { insert: true, ..item }),
            }
        }
    }

    /// An entry has been copied: its inode is kept if need be.
    pub open spec fn made(self, item: Item<Seq<u8>>) -> (CopyView, CopyActionView) {
        if !item.insert {
            self.next_entry()
        } else if self.inodes is SameFs {
            self.finish(Err(crate::inodes::same_fs_error()))
        } else {
            (CopyView {
                inodes: self.inodes.with(item.stat.st_ino, item.dest),
                ..self
            }).next_entry()
        }
    }
}

/// The copy after an event, and the next thing to do.
pub open spec fn copy_step(s: CopyView, event: CopyEventView) -> (CopyView, CopyActionView)
    recommends
        s.wf(),
        s.accepts(event),
{
    let dir = s.frames.last();
    match (s.waiting, event) {
        (CopyWait::SourceStat, CopyEventOf::Stat(Ok(stat))) => if stat.file_type()
            == crate::stat::S_IFDIR {
            (
                s.wait(CopyWait::DestStat { source_dev: stat.st_dev }),
                CopyActionOf::Stat { path: dir.dest },
            )
        } else {
            s.finish(
                Err(
                    own_error(
                        ErrorKind::InvParam,
                        text::about_spec("Source '"@, dir.source, "' is not a directory"@),
                    ),
                ),
            )
        },
        (CopyWait::DestStat { source_dev }, CopyEventOf::Stat(Ok(stat))) => if stat.file_type()
            == crate::stat::S_IFDIR {
            (
                CopyView {
                    inodes: if source_dev == stat.st_dev {
                        crate::inodes::CopyInodesView::SameFs
                    } else {
                        crate::inodes::CopyInodesView::SeparateFs(Map::empty())
                    },
                    waiting: CopyWait::Open,
                    ..s
                },
                CopyActionOf::ReadDir { path: dir.source },
            )
        } else {
            s.finish(
                Err(
                    own_error(
                        ErrorKind::InvParam,
                        text::about_spec("Dest '"@, dir.dest, "' is not a directory"@),
                    ),
                ),
            )
        },
        (CopyWait::Open, CopyEventOf::Opened(Ok(_))) => s.next_entry(),
        (CopyWait::Open, CopyEventOf::Opened(Err(failure))) => s.finish(
            Err(
                upstream_error(
                    text::about_spec(
                        "Failed to read directory contents for '"@,
                        dir.source,
                        "'"@,
                    ),
                    failure,
                ),
            ),
        ),
        (CopyWait::Entry, CopyEventOf::Next(NextEntry::End)) => s.leave(),
        (CopyWait::Entry, CopyEventOf::Next(NextEntry::Failed(failure))) => s.finish(
            Err(
                upstream_error(
                    text::about_spec(
                        "Failed to read directory entry for path: '"@,
                        dir.source,
                        "'"@,
                    ),
                    failure,
                ),
            ),
        ),
        (CopyWait::Entry, CopyEventOf::Next(NextEntry::Entry(path))) => (
            s.wait(CopyWait::EntryStat { path }),
            CopyActionOf::Lstat { path },
        ),
        (CopyWait::EntryStat { path }, CopyEventOf::Stat(Ok(stat))) => match
        crate::path::file_name_spec(path) {
            Some(name) => s.copy_entry(path, name, stat),
            None => s.finish(
                Err(
                    own_error(
                        ErrorKind::Upstream,
                        text::about_spec("Failed to extract filename from '"@, path, "'"@),
                    ),
                ),
            ),
        },
        (CopyWait::LinkSource, CopyEventOf::Made(Ok(_))) => s.next_entry(),
        (CopyWait::LinkCopy { .. }, CopyEventOf::Made(Ok(_))) => s.next_entry(),
        // The file system may not have hard links: make another copy instead.
        (CopyWait::LinkCopy { item }, CopyEventOf::Made(Err(e))) => if e.kind
            == ErrorKind::NotPermitted {
            s.make(item)
        } else {
            s.finish(Err(e))
        },
        (CopyWait::Target { item }, CopyEventOf::Target(Ok(target))) => (
            s.wait(CopyWait::Node { item }),
            CopyActionOf::Symlink { source: target, dest: item.dest },
        ),
        (CopyWait::Target { .. }, CopyEventOf::Target(Err(failure))) => s.finish(
            Err(
                upstream_error(
                    text::about_spec("Failed to read link '"@, dir.source, "'"@),
                    failure,
                ),
            ),
        ),
        (CopyWait::Dir { item }, CopyEventOf::Made(Ok(_))) => s.enter(
            Frame { source: item.source, dest: item.dest },
        ),
        (CopyWait::Node { item }, CopyEventOf::Made(Ok(_))) => s.made(item),
        (CopyWait::File { item }, CopyEventOf::Copied(Ok(_))) => s.made(item),
        (CopyWait::File { item }, CopyEventOf::Copied(Err(failure))) => s.finish(
            Err(
                upstream_error(
                    text::about_two_spec(
                        "Failed to copy '"@,
                        item.source,
                        "' to '"@,
                        item.dest,
                        "'"@,
                    ),
                    failure,
                ),
            ),
        ),
        // All other failures come with their error.
        (_, CopyEventOf::Stat(Err(e))) => s.finish(Err(e)),
        (_, CopyEventOf::Made(Err(e))) => s.finish(Err(e)),
        _ => arbitrary(),
    }
}

/// Starts to copy what a directory holds into another directory.
pub fn copy_dir(source: &[u8], dest: &[u8]) -> (r: (CopyDir, CopyAction))
    ensures
        r.0@ == copy_start(source@, dest@),
        r.1@ == (CopyActionView::Stat { path: source@ }),
{
    let mut frames: Vec<Frame<Vec<u8>>> = Vec::new();
    frames.push(Frame { source: copy_bytes(source), dest: copy_bytes(dest) });
    let r = CopyDir { frames, inodes: CopyInodes::SameFs, waiting: CopyWait::SourceStat };
    assert(r@.frames =~= copy_start(source@, dest@).frames);
    (r, CopyActionOf::Stat { path: copy_bytes(source) })
}

/// A copy at its start.
pub open spec fn copy_start(source: Seq<u8>, dest: Seq<u8>) -> CopyView {
    CopyView {
        frames: seq![Frame { source, dest }],
        inodes: crate::inodes::CopyInodesView::SameFs,
        waiting: CopyWait::SourceStat,
    }
}

impl CopyDir {
    #[verifier::type_invariant]
    closed spec fn inv(self) -> bool {
        self@.wf()
    }

    /// The same copy, waiting for something else.
    fn wait(self, waiting: CopyWait<Vec<u8>>) -> (r: CopyDir)
        requires
            self@.wait(waiting@).wf(),
        ensures
            r@ == self@.wait(waiting@),
    {
        let CopyDir { frames, inodes, waiting: _ } = self;
        CopyDir { frames, inodes, waiting }
    }

    fn finish(self, result: Result<(), Error>) -> (r: (CopyDir, CopyAction))
        ensures
            (r.0@, r.1@) == self@.finish(crate::listing::result_view(result)),
    {
        (self.wait(CopyWait::Finished), CopyActionOf::Finish { result })
    }

    fn fail(self, kind: ErrorKind, message: &str) -> (r: (CopyDir, CopyAction))
        ensures
            (r.0@, r.1@) == self@.finish(Err(own_error(kind, message@))),
    {
        self.finish(Err(Error::with_context(kind, message)))
    }

    fn fail_upstream(self, message: &str, failure: IoFailure) -> (r: (CopyDir, CopyAction))
        ensures
            (r.0@, r.1@) == self@.finish(Err(upstream_error(message@, failure))),
    {
        self.finish(Err(Error::with_all(ErrorKind::Upstream, message, failure.into_cause())))
    }

    fn next_entry(self) -> (r: (CopyDir, CopyAction))
        requires
            self@.frames.len() > 0,
        ensures
            (r.0@, r.1@) == self@.next_entry(),
    {
        (self.wait(CopyWait::Entry), CopyActionOf::NextEntry)
    }

    fn enter(self, source: Vec<u8>, dest: Vec<u8>) -> (r: (CopyDir, CopyAction))
        ensures
            (r.0@, r.1@) == self@.enter(Frame { source: source@, dest: dest@ }),
    {
        let CopyDir { mut frames, inodes, waiting: _ } = self;
        let opened = copy_bytes(source.as_slice());
        let ghost before = frame_views(frames@);
        frames.push(Frame { source, dest });
        assert(frame_views(frames@) =~= before.push(Frame { source: source@, dest: dest@ }));
        (
            CopyDir { frames, inodes, waiting: CopyWait::Open },
            CopyActionOf::ReadDir { path: opened },
        )
    }

    fn leave(self) -> (r: (CopyDir, CopyAction))
        requires
            self@.frames.len() > 0,
            self@.waiting is Finished,
        ensures
            (r.0@, r.1@) == self@.leave(),
    {
        let CopyDir { mut frames, inodes, waiting } = self;
        let ghost before = frame_views(frames@);
        let _ = frames.pop();
        assert(frame_views(frames@) =~= before.drop_last());
        let over = frames.len() == 0;
        let outer = CopyDir { frames, inodes, waiting };
        if over {
            outer.finish(Ok(()))
        } else {
            outer.next_entry()
        }
    }

    fn make(self, item: Item<Vec<u8>>) -> (r: (CopyDir, CopyAction))
        requires
            self@.frames.len() > 0,
        ensures
            (r.0@, r.1@) == self@.make(item@),
    {
        let mode: u32 = item.stat.st_mode;
        if is_lnk(&item.stat) {
            let path = copy_bytes(item.source.as_slice());
            (self.wait(CopyWait::Target { item }), CopyActionOf::ReadLink { path })
        } else if is_dir(&item.stat) {
            let path = copy_bytes(item.dest.as_slice());
            (
                self.wait(CopyWait::Dir { item }),
                CopyActionOf::Mkdir { path, mode: mode & MODE_BITS },
            )
        } else if is_fifo(&item.stat) {
            let path = copy_bytes(item.dest.as_slice());
            (
                self.wait(CopyWait::Node { item }),
                CopyActionOf::Mkfifo { path, mode: mode & MODE_BITS },
            )
        } else if is_blk(&item.stat) || is_chr(&item.stat) {
            let path = copy_bytes(item.dest.as_slice());
            let dev_id: u64 = item.stat.st_rdev;
            (self.wait(CopyWait::Node { item }), CopyActionOf::Mknod { path, mode, dev_id })
        } else if is_sock(&item.stat) {
            self.next_entry()
        } else if is_reg(&item.stat) {
            let source = copy_bytes(item.source.as_slice());
            let dest = copy_bytes(item.dest.as_slice());
            (self.wait(CopyWait::File { item }), CopyActionOf::CopyFile { source, dest })
        } else {
            let before = "Encountered invalid source file mode 0x".to_owned().concat(
                text::hex(mode, 8).as_str(),
            ).concat(" for  '");
            let last: usize = self.frames.len() - 1;
            let message = text::about(before.as_str(), self.frames[last].source.as_slice(), "'");
            self.fail(ErrorKind::InvParam, message.as_str())
        }
    }

    fn copy_entry(self, path: Vec<u8>, name: &[u8], stat: FileStat) -> (r: (CopyDir, CopyAction))
        requires
            self@.frames.len() > 0,
        ensures
            (r.0@, r.1@) == self@.copy_entry(path@, name@, stat),
    {
        let last: usize = self.frames.len() - 1;
        let dest = path_join(self.frames[last].dest.as_slice(), name);
        if !is_dir(&stat) && stat.st_nlink > 1 {
            let same_fs = match &self.inodes {
                CopyInodes::SameFs => true,
                CopyInodes::SeparateFs(_) => false,
            };
            if same_fs {
                return (
                    self.wait(CopyWait::LinkSource),
                    CopyActionOf::Link { old_file: path, new_file: dest },
                );
            }
            match self.inodes.find(stat.st_ino) {
                Some(earlier) => {
                    let new_file = copy_bytes(dest.as_slice());
                    let item = Item { source: path, dest, stat, insert: false };
                    (
                        self.wait(CopyWait::LinkCopy { item }),
                        CopyActionOf::Link { old_file: earlier, new_file },
                    )
                },
                None => self.make(Item { source: path, dest, stat, insert: true }),
            }
        } else {
            self.make(Item { source: path, dest, stat, insert: false })
        }
    }

    fn made(self, item: Item<Vec<u8>>) -> (r: (CopyDir, CopyAction))
        requires
            self@.frames.len() > 0,
            self@.waiting is Finished,
        ensures
            (r.0@, r.1@) == self@.made(item@),
    {
        if !item.insert {
            return self.next_entry();
        }
        let CopyDir { frames, mut inodes, waiting } = self;
        let result = inodes.register(item.stat.st_ino, item.dest);
        let kept = CopyDir { frames, inodes, waiting };
        match result {
            Ok(_) => kept.next_entry(),
            Err(e) => kept.finish(Err(e)),
        }
    }

    /// Goes on with the copy after an event.
    pub fn step(self, event: CopyEvent) -> (r: (CopyDir, CopyAction))
        requires
            self@.accepts(event@),
        ensures
            (r.0@, r.1@) == copy_step(self@, event@),
    {
        proof {
            use_type_invariant(&self);
        }
        let CopyDir { frames, inodes, waiting } = self;
        let rest = CopyDir { frames, inodes, waiting: CopyWait::Finished };
        match (waiting, event) {
            (CopyWait::SourceStat, CopyEventOf::Stat(Ok(stat))) => rest.source_known(stat),
            (CopyWait::DestStat { source_dev }, CopyEventOf::Stat(Ok(stat))) => rest.dest_known(
                source_dev,
                stat,
            ),
            (CopyWait::Open, CopyEventOf::Opened(Ok(_))) => rest.next_entry(),
            (CopyWait::Open, CopyEventOf::Opened(Err(failure))) => rest.fail_in_dir(
                "Failed to read directory contents for '",
                failure,
            ),
            (CopyWait::Entry, CopyEventOf::Next(NextEntry::End)) => rest.leave(),
            (CopyWait::Entry, CopyEventOf::Next(NextEntry::Failed(failure))) => rest.fail_in_dir(
                "Failed to read directory entry for path: '",
                failure,
            ),
            (CopyWait::Entry, CopyEventOf::Next(NextEntry::Entry(path))) => {
                let looked_at = copy_bytes(path.as_slice());
                (
                    rest.wait(CopyWait::EntryStat { path }),
                    CopyActionOf::Lstat { path: looked_at },
                )
            },
            (CopyWait::EntryStat { path }, CopyEventOf::Stat(Ok(stat))) => match file_name(
                path.as_slice(),
            ) {
                Some(name) => rest.copy_entry(path, name.as_slice(), stat),
                None => {
                    let message = text::about(
                        "Failed to extract filename from '",
                        path.as_slice(),
                        "'",
                    );
                    rest.fail(ErrorKind::Upstream, message.as_str())
                },
            },
            (CopyWait::LinkSource, CopyEventOf::Made(Ok(_))) => rest.next_entry(),
            (CopyWait::LinkCopy { item: _ }, CopyEventOf::Made(Ok(_))) => rest.next_entry(),
            (CopyWait::LinkCopy { item }, CopyEventOf::Made(Err(e))) => {
                if e.kind() == ErrorKind::NotPermitted {
                    rest.make(item)
                } else {
                    rest.finish(Err(e))
                }
            },
            (CopyWait::Target { item }, CopyEventOf::Target(Ok(source))) => {
                let dest = copy_bytes(item.dest.as_slice());
                (rest.wait(CopyWait::Node { item }), CopyActionOf::Symlink { source, dest })
            },
            (CopyWait::Target { item: _ }, CopyEventOf::Target(Err(failure))) => rest.fail_in_dir(
                "Failed to read link '",
                failure,
            ),
            (CopyWait::Dir { item }, CopyEventOf::Made(Ok(_))) => rest.enter(
                item.source,
                item.dest,
            ),
            (CopyWait::Node { item }, CopyEventOf::Made(Ok(_))) => rest.made(item),
            (CopyWait::File { item }, CopyEventOf::Copied(Ok(_))) => rest.made(item),
            (CopyWait::File { item }, CopyEventOf::Copied(Err(failure))) => {
                let message = text::about_two(
                    "Failed to copy '",
                    item.source.as_slice(),
                    "' to '",
                    item.dest.as_slice(),
                    "'",
                );
                rest.fail_upstream(message.as_str(), failure)
            },
            (_, CopyEventOf::Stat(Err(e))) => rest.finish(Err(e)),
            (_, CopyEventOf::Made(Err(e))) => rest.finish(Err(e)),
            _ => vstd::pervasive::unreached(),
        }
    }

    fn source_known(self, stat: FileStat) -> (r: (CopyDir, CopyAction))
        requires
            self@.frames.len() > 0,
        ensures
            (r.0@, r.1@) == copy_step(
                self@.wait(CopyWait::SourceStat),
                CopyEventOf::Stat(Ok(stat)),
            ),
    {
        let last: usize = self.frames.len() - 1;
        if is_dir(&stat) {
            let path = copy_bytes(self.frames[last].dest.as_slice());
            (
                self.wait(CopyWait::DestStat { source_dev: stat.st_dev }),
                CopyActionOf::Stat { path },
            )
        } else {
            let message = text::about(
                "Source '",
                self.frames[last].source.as_slice(),
                "' is not a directory",
            );
            self.fail(ErrorKind::InvParam, message.as_str())
        }
    }

    fn dest_known(self, source_dev: u64, stat: FileStat) -> (r: (CopyDir, CopyAction))
        requires
            self@.frames.len() > 0,
        ensures
            (r.0@, r.1@) == copy_step(
                self@.wait(CopyWait::DestStat { source_dev }),
                CopyEventOf::Stat(Ok(stat)),
            ),
    {
        let last: usize = self.frames.len() - 1;
        if is_dir(&stat) {
            let path = copy_bytes(self.frames[last].source.as_slice());
            let CopyDir { frames, inodes: _, waiting: _ } = self;
            let inodes = CopyInodes::between(source_dev, stat.st_dev);
            (
                CopyDir { frames, inodes, waiting: CopyWait::Open },
                CopyActionOf::ReadDir { path },
            )
        } else {
            let message = text::about(
                "Dest '",
                self.frames[last].dest.as_slice(),
                "' is not a directory",
            );
            self.fail(ErrorKind::InvParam, message.as_str())
        }
    }

    /// Something underneath failed in the innermost directory, which the message shows.
    fn fail_in_dir(self, before: &str, failure: IoFailure) -> (r: (CopyDir, CopyAction))
        requires
            self@.frames.len() > 0,
        ensures
            (r.0@, r.1@) == self@.finish(
                Err(
                    upstream_error(
                        text::about_spec(before@, self@.frames.last().source, "'"@),
                        failure,
                    ),
                ),
            ),
    {
        let last: usize = self.frames.len() - 1;
        let message = text::about(before, self.frames[last].source.as_slice(), "'");
        self.fail_upstream(message.as_str(), failure)
    }
}

} // verus!
