//! Paths as raw bytes: components, file names, joining and prefixes.

use vstd::prelude::*;

use crate::error::{Error, ErrorKind};
use crate::text;

verus! {

/// The byte that separates the components of a path.
pub const SLASH: u8 = 47;

/// The byte of the special names for the current and the parent directory.
pub const DOT: u8 = 46;

/// One component of a path. `N` holds the bytes of a name.
pub enum Component<N> {
    /// The root directory, at the start of an absolute path.
    RootDir,
    /// The current directory, at the start of a path.
    CurDir,
    /// A parent directory.
    ParentDir,
    /// A name.
    Normal(N),
}

impl View for Component<Vec<u8>> {
    type V = Component<Seq<u8>>;

    open spec fn view(&self) -> Component<Seq<u8>> {
        match self {
            Component::RootDir => Component::RootDir,
            Component::CurDir => Component::CurDir,
            Component::ParentDir => Component::ParentDir,
            Component::Normal(name) => Component::Normal(name@),
        }
    }
}

/// The views of a list of components.
pub open spec fn views(list: Seq<Component<Vec<u8>>>) -> Seq<Component<Seq<u8>>> {
    Seq::new(list.len(), |i: int| list[i]@)
}

/// The pieces of a path between its slashes: one more than it has slashes.
pub open spec fn pieces(path: Seq<u8>) -> Seq<Seq<u8>>
    decreases path.len(),
{
    if path.len() == 0 {
        seq![Seq::empty()]
    } else {
        let before = pieces(path.drop_last());
        if path.last() == SLASH {
            before.push(Seq::empty())
        } else {
            before.drop_last().push(before.last().push(path.last()))
        }
    }
}

/// The components that a list of pieces stands for: empty pieces and the current directory are
/// left out.
pub open spec fn named(list: Seq<Seq<u8>>) -> Seq<Component<Seq<u8>>>
    decreases list.len(),
{
    if list.len() == 0 {
        Seq::empty()
    } else {
        let before = named(list.drop_last());
        let piece = list.last();
        if piece == Seq::<u8>::empty() || piece == seq![DOT] {
            before
        } else if piece == seq![DOT, DOT] {
            before.push(Component::ParentDir)
        } else {
            before.push(Component::Normal(piece))
        }
    }
}

/// The components of a path. Repeated and trailing slashes do not count, and neither does the
/// current directory, except at the start of the path.
pub open spec fn components_spec(path: Seq<u8>) -> Seq<Component<Seq<u8>>> {
    let start: Seq<Component<Seq<u8>>> = if path.len() > 0 && path[0] == SLASH {
        seq![Component::RootDir]
    } else if pieces(path)[0] == seq![DOT] {
        seq![Component::CurDir]
    } else {
        Seq::empty()
    };
    start + named(pieces(path))
}

/// A name that can stand for an entry of a directory.
pub open spec fn is_entry_name(name: Seq<u8>) -> bool {
    &&& name.len() > 0
    &&& !name.contains(SLASH)
    &&& name != seq![DOT]
    &&& name != seq![DOT, DOT]
}

/// The last component of a path, if it is a name.
pub open spec fn file_name_spec(path: Seq<u8>) -> Option<Seq<u8>> {
    let list = components_spec(path);
    if list.len() == 0 {
        None
    } else {
        match list.last() {
            Component::Normal(name) => Some(name),
            _ => None,
        }
    }
}

/// A path below another one. An absolute second path replaces the first.
pub open spec fn join_spec(base: Seq<u8>, path: Seq<u8>) -> Seq<u8> {
    if path.len() > 0 && path[0] == SLASH {
        path
    } else if base.len() == 0 || base.last() == SLASH {
        base + path
    } else {
        base.push(SLASH) + path
    }
}

/// Tells whether the components of one path begin with those of another.
pub open spec fn starts_with_spec(path: Seq<u8>, base: Seq<u8>) -> bool {
    components_spec(base).is_prefix_of(components_spec(path))
}

proof fn pieces_nonempty(path: Seq<u8>)
    ensures
        pieces(path).len() > 0,
    decreases path.len(),
{
    if path.len() > 0 {
        pieces_nonempty(path.drop_last());
    }
}

/// Copies a run of bytes.
pub(crate) fn copy_bytes(bytes: &[u8]) -> (r: Vec<u8>)
    ensures
        r@ == bytes@,
{
    let mut r: Vec<u8> = Vec::new();
    r.extend_from_slice(bytes);
    assert(r@ =~= bytes@);
    r
}

fn bytes_equal(a: &[u8], b: &[u8]) -> (r: bool)
    ensures
        r == (a@ == b@),
{
    if a.len() != b.len() {
        return false;
    }
    for i in 0..a.len()
        invariant
            a@.len() == b@.len(),
            forall|j: int| 0 <= j < i ==> a@[j] == b@[j],
    {
        if a[i] != b[i] {
            return false;
        }
    }
    assert(a@ =~= b@);
    true
}

fn component_equal(a: &Component<Vec<u8>>, b: &Component<Vec<u8>>) -> (r: bool)
    ensures
        r == (a@ == b@),
{
    match (a, b) {
        (Component::RootDir, Component::RootDir) => true,
        (Component::CurDir, Component::CurDir) => true,
        (Component::ParentDir, Component::ParentDir) => true,
        (Component::Normal(x), Component::Normal(y)) => bytes_equal(x.as_slice(), y.as_slice()),
        _ => false,
    }
}

/// Adds what one piece of a path stands for to a list of components.
fn add_piece(
    list: &mut Vec<Component<Vec<u8>>>,
    piece: Vec<u8>,
    Ghost(start): Ghost<Seq<Component<Seq<u8>>>>,
    Ghost(seen): Ghost<Seq<Seq<u8>>>,
)
    requires
        views(old(list)@) == start + named(seen),
    ensures
        views(final(list)@) == start + named(seen.push(piece@)),
{
    assert(seen.push(piece@).drop_last() =~= seen);
    if piece.len() == 0 {
        assert(piece@ =~= Seq::<u8>::empty());
    } else if piece.len() == 1 && piece[0] == DOT {
        assert(piece@ =~= seq![DOT]);
    } else {
        let ghost before = views(list@);
        let ghost name = piece@;
        let is_parent = piece.len() == 2 && piece[0] == DOT && piece[1] == DOT;
        proof {
            assert(name != seq![DOT]) by {
                if name == seq![DOT] {
                    assert(name.len() == 1 && name[0] == DOT);
                }
            }
            if is_parent {
                assert(name =~= seq![DOT, DOT]);
            }
        }
        let c = if is_parent {
            Component::ParentDir
        } else {
            Component::Normal(piece)
        };
        list.push(c);
        assert(views(list@) =~= before.push(c@));
        assert(start + named(seen).push(c@) =~= (start + named(seen)).push(c@));
    }
}

/// The first piece of a path ends at its first slash.
proof fn first_piece(path: Seq<u8>, end: int)
    requires
        0 <= end <= path.len(),
        forall|i: int| 0 <= i < end ==> path[i] != SLASH,
        end == path.len() || path[end] == SLASH,
    ensures
        pieces(path)[0] == path.take(end),
    decreases path.len(),
{
    if path.len() == 0 {
        assert(path.take(end) =~= Seq::empty());
    } else {
        let before = path.drop_last();
        pieces_nonempty(before);
        if end == path.len() {
            first_piece(before, end - 1);
            no_slash_one_piece(before);
            assert(before.take(end - 1).push(path.last()) =~= path.take(end));
        } else {
            first_piece(before, end);
            assert(before.take(end) =~= path.take(end));
            if path.last() != SLASH {
                pieces_after_slash(before, end);
            }
        }
    }
}

/// A path without a slash is one piece.
proof fn no_slash_one_piece(path: Seq<u8>)
    requires
        forall|i: int| 0 <= i < path.len() ==> path[i] != SLASH,
    ensures
        pieces(path) == seq![path],
    decreases path.len(),
{
    if path.len() == 0 {
        assert(path =~= Seq::empty());
    } else {
        no_slash_one_piece(path.drop_last());
        assert(path.drop_last().push(path.last()) =~= path);
        assert(pieces(path) =~= seq![path]);
    }
}

/// A path with a slash has at least two pieces.
proof fn pieces_after_slash(path: Seq<u8>, at: int)
    requires
        0 <= at < path.len(),
        path[at] == SLASH,
    ensures
        pieces(path).len() >= 2,
    decreases path.len(),
{
    let before = path.drop_last();
    pieces_nonempty(before);
    if path.last() != SLASH {
        pieces_after_slash(before, at);
    }
}

/// Takes a path apart into its components.
pub fn components(path: &[u8]) -> (r: Vec<Component<Vec<u8>>>)
    ensures
        views(r@) == components_spec(path@),
{
    let mut list: Vec<Component<Vec<u8>>> = Vec::new();
    let n: usize = path.len();
    if n > 0 && path[0] == SLASH {
        list.push(Component::RootDir);
    } else if n > 0 && path[0] == DOT && (n == 1 || path[1] == SLASH) {
        list.push(Component::CurDir);
        proof {
            first_piece(path@, 1);
            assert(path@.take(1) =~= seq![DOT]);
        }
    } else {
        proof {
            if pieces(path@)[0] == seq![DOT] {
                let end = first_slash(path@);
                first_slash_is_first(path@);
                first_piece(path@, end);
                assert(path@.take(end).len() == 1);
                assert(path@.take(end)[0] == DOT);
            }
        }
    }
    let ghost start: Seq<Component<Seq<u8>>> = views(list@);
    let mut piece: Vec<u8> = Vec::new();
    let ghost mut seen: Seq<Seq<u8>> = Seq::empty();
    proof {
        assert(path@.take(0) =~= Seq::empty());
        assert(seen.push(piece@) =~= pieces(path@.take(0)));
        assert(start + named(seen) =~= start);
    }
    for i in 0..n
        invariant
            n == path@.len(),
            seen.push(piece@) == pieces(path@.take(i as int)),
            views(list@) == start + named(seen),
    {
        let b: u8 = path[i];
        proof {
            assert(path@.take(i + 1).drop_last() =~= path@.take(i as int));
            assert(seen.push(piece@).drop_last() =~= seen);
        }
        if b == SLASH {
            let ghost done = seen.push(piece@);
            add_piece(&mut list, piece, Ghost(start), Ghost(seen));
            piece = Vec::new();
            proof {
                seen = done;
            }
        } else {
            piece.push(b);
        }
    }
    assert(path@.take(n as int) =~= path@);
    add_piece(&mut list, piece, Ghost(start), Ghost(seen));
    list
}

/// The place of the first slash of a path, or its length.
spec fn first_slash(path: Seq<u8>) -> int
    decreases path.len(),
{
    if path.len() == 0 {
        0
    } else if path[0] == SLASH {
        0
    } else {
        1 + first_slash(path.drop_first())
    }
}

proof fn first_slash_is_first(path: Seq<u8>)
    ensures
        0 <= first_slash(path) <= path.len(),
        forall|i: int| 0 <= i < first_slash(path) ==> path[i] != SLASH,
        first_slash(path) == path.len() || path[first_slash(path)] == SLASH,
    decreases path.len(),
{
    if path.len() > 0 && path[0] != SLASH {
        let rest = path.drop_first();
        first_slash_is_first(rest);
        assert forall|i: int| 0 <= i < first_slash(path) implies path[i] != SLASH by {
            if i > 0 {
                assert(rest[i - 1] == path[i]);
            }
        }
    }
}

/// The last component of a path, if it is a name.
pub fn file_name(path: &[u8]) -> (r: Option<Vec<u8>>)
    ensures
        match r {
            Some(name) => file_name_spec(path@) == Some(name@),
            None => file_name_spec(path@) is None,
        },
{
    let mut list = components(path);
    let ghost all = views(list@);
    match list.pop() {
        Some(c) => {
            assert(all.last() == c@);
            match c {
                Component::Normal(name) => Some(name),
                _ => None,
            }
        },
        None => None,
    }
}

/// The path of something below a directory. An absolute second path replaces the first.
pub fn path_join(base: &[u8], path: &[u8]) -> (r: Vec<u8>)
    ensures
        r@ == join_spec(base@, path@),
{
    if path.len() > 0 && path[0] == SLASH {
        return copy_bytes(path);
    }
    let mut r = copy_bytes(base);
    if base.len() > 0 && base[base.len() - 1] != SLASH {
        r.push(SLASH);
    }
    let ghost before = r@;
    r.extend_from_slice(path);
    assert(r@ =~= before + path@);
    r
}

/// Tells whether the components of one path begin with those of another.
pub fn starts_with(path: &[u8], base: &[u8]) -> (r: bool)
    ensures
        r == starts_with_spec(path@, base@),
{
    let whole = components(path);
    let start = components(base);
    if start.len() > whole.len() {
        return false;
    }
    for i in 0..start.len()
        invariant
            start@.len() <= whole@.len(),
            views(whole@) == components_spec(path@),
            views(start@) == components_spec(base@),
            forall|j: int| 0 <= j < i ==> start@[j]@ == whole@[j]@,
    {
        if !component_equal(&start[i], &whole[i]) {
            proof {
                assert(views(start@)[i as int] != views(whole@)[i as int]);
                assert(views(whole@).take(start@.len() as int)[i as int] == views(whole@)[i as int]);
            }
            return false;
        }
    }
    assert(views(start@) =~= views(whole@).take(start@.len() as int));
    true
}

/// Makes the byte string with a closing zero byte that system calls take. A path that holds a zero
/// byte itself has none.
pub fn path_to_cstring(path: &[u8]) -> (r: Result<Vec<u8>, Error>)
    ensures
        match r {
            Ok(bytes) => !path@.contains(0) && bytes@ == path@.push(0),
            Err(e) => path@.contains(0) && e@ == cstring_error(path@),
        },
{
    for i in 0..path.len()
        invariant
            forall|j: int| 0 <= j < i ==> path@[j] != 0,
    {
        if path[i] == 0 {
            assert(path@[i as int] == 0);
            let message = text::about("Failed to convert path to C string: '", path, "'");
            return Err(Error::with_context(ErrorKind::Upstream, message.as_str()));
        }
    }
    let mut r = copy_bytes(path);
    r.push(0);
    Ok(r)
}

/// The error for a path that holds a zero byte.
pub open spec fn cstring_error(path: Seq<u8>) -> crate::error::ErrorView {
    crate::error::ErrorView {
        kind: ErrorKind::Upstream,
        message: text::about_spec("Failed to convert path to C string: '"@, path, "'"@),
        cause: None,
    }
}

proof fn pieces_hold_no_slash(path: Seq<u8>)
    ensures
        forall|i: int| 0 <= i < pieces(path).len() ==> !(#[trigger] pieces(path)[i]).contains(SLASH),
    decreases path.len(),
{
    if path.len() > 0 {
        let before = path.drop_last();
        pieces_nonempty(before);
        pieces_hold_no_slash(before);
        assert forall|i: int| 0 <= i < pieces(path).len() implies !(
        #[trigger] pieces(path)[i]).contains(SLASH) by {
            let piece = pieces(path)[i];
            if piece.contains(SLASH) {
                let at = choose|at: int| 0 <= at < piece.len() && piece[at] == SLASH;
                if i < pieces(before).len() {
                    let earlier = pieces(before)[i];
                    if at < earlier.len() {
                        assert(earlier[at] == SLASH);
                        assert(earlier.contains(SLASH));
                    }
                }
            }
        }
    }
}

proof fn named_are_entry_names(list: Seq<Seq<u8>>)
    requires
        forall|i: int| 0 <= i < list.len() ==> !(#[trigger] list[i]).contains(SLASH),
    ensures
        forall|i: int| #![trigger named(list)[i]]
            0 <= i < named(list).len() ==> (named(list)[i] matches Component::Normal(name)
                ==> is_entry_name(name)),
    decreases list.len(),
{
    if list.len() > 0 {
        named_are_entry_names(list.drop_last());
        let piece = list.last();
        assert(!list[list.len() - 1].contains(SLASH));
        if piece.len() == 0 {
            assert(piece =~= Seq::empty());
        }
    }
}

/// Each name among the components of a path can stand for an entry of a directory, and so can the
/// file name of a path.
pub proof fn names_are_entry_names(path: Seq<u8>)
    ensures
        forall|i: int| #![trigger components_spec(path)[i]]
            0 <= i < components_spec(path).len() ==> (components_spec(path)[i] matches
                Component::Normal(name) ==> is_entry_name(name)),
        file_name_spec(path) matches Some(name) ==> is_entry_name(name),
{
    pieces_hold_no_slash(path);
    named_are_entry_names(pieces(path));
    assert forall|i: int| #![trigger components_spec(path)[i]]
        0 <= i < components_spec(path).len() implies (components_spec(path)[i] matches
        Component::Normal(name) ==> is_entry_name(name)) by {
        let offset = components_spec(path).len() - named(pieces(path)).len();
        if i >= offset {
            assert(components_spec(path)[i] == named(pieces(path))[i - offset]);
        }
    }
    if file_name_spec(path) is Some {
        let last = components_spec(path).len() - 1;
        assert(components_spec(path)[last] == components_spec(path).last());
    }
}

/// What a name without a slash adds to the pieces of a path.
proof fn pieces_of_extension(path: Seq<u8>, name: Seq<u8>)
    requires
        !name.contains(SLASH),
    ensures
        pieces(path + name) == pieces(path).drop_last().push(pieces(path).last() + name),
    decreases name.len(),
{
    pieces_nonempty(path);
    if name.len() == 0 {
        assert(path + name =~= path);
        assert(pieces(path).last() + name =~= pieces(path).last());
        assert(pieces(path) =~= pieces(path).drop_last().push(pieces(path).last()));
    } else {
        let shorter = name.drop_last();
        assert(!shorter.contains(SLASH)) by {
            if shorter.contains(SLASH) {
                let at = choose|at: int| 0 <= at < shorter.len() && shorter[at] == SLASH;
                assert(name[at] == SLASH);
            }
        }
        assert(name[name.len() - 1] != SLASH);
        pieces_of_extension(path, shorter);
        assert((path + name).drop_last() =~= path + shorter);
        assert((pieces(path).last() + shorter).push(name.last()) =~= pieces(path).last() + name);
        assert(pieces(path + name) =~= pieces(path).drop_last().push(pieces(path).last() + name));
    }
}

/// An entry of a directory has the components of the directory and, after them, its name.
pub proof fn join_adds_the_name(dir: Seq<u8>, name: Seq<u8>)
    requires
        is_entry_name(name),
    ensures
        components_spec(join_spec(dir, name)) == components_spec(dir).push(Component::Normal(name)),
{
    assert(name[0] != SLASH);
    let joined = join_spec(dir, name);
    let base = if dir.len() == 0 || dir.last() == SLASH {
        dir
    } else {
        dir.push(SLASH)
    };
    assert(joined == base + name);
    pieces_nonempty(dir);
    pieces_nonempty(base);
    pieces_of_extension(base, name);
    assert(pieces(base).last() == Seq::<u8>::empty()) by {
        if base.len() > 0 {
            assert(base.last() == SLASH);
        }
    }
    assert(pieces(base).last() + name =~= name);
    // The pieces of the joined path stand for those of the directory and the name.
    assert(named(pieces(base).drop_last()) == named(pieces(dir))) by {
        if dir.len() == 0 || dir.last() == SLASH {
            assert(pieces(dir).last() == Seq::<u8>::empty());
        } else {
            assert(base.drop_last() =~= dir);
            assert(pieces(base).drop_last() =~= pieces(dir));
        }
    }
    let before = pieces(base).drop_last();
    assert(pieces(joined) == before.push(name));
    assert(before.push(name).drop_last() =~= before);
    assert(named(pieces(joined)) == named(pieces(dir)).push(Component::Normal(name)));
    // The start is that of the directory.
    if dir.len() == 0 {
        assert(pieces(dir)[0].len() == 0);
        assert(before =~= Seq::empty());
        assert(pieces(joined)[0] == name);
        assert(joined[0] == name[0]);
    } else {
        assert(joined[0] == dir[0]);
        if dir[0] != SLASH {
            let end = first_slash(dir);
            first_slash_is_first(dir);
            first_piece(dir, end);
            assert(forall|i: int| 0 <= i < end ==> joined[i] == dir[i]);
            assert(joined[end] == SLASH);
            first_piece(joined, end);
            assert(joined.take(end) =~= dir.take(end));
        }
    }
    assert(components_spec(joined) =~= components_spec(dir).push(Component::Normal(name)));
}

/// The file name of an entry of a directory is its name, and the entry's path starts with that of
/// the directory.
pub proof fn join_is_below(dir: Seq<u8>, name: Seq<u8>)
    requires
        is_entry_name(name),
    ensures
        file_name_spec(join_spec(dir, name)) == Some(name),
        starts_with_spec(join_spec(dir, name), dir),
{
    join_adds_the_name(dir, name);
    let whole = components_spec(dir).push(Component::Normal(name));
    assert(components_spec(dir) =~= whole.take(components_spec(dir).len() as int));
}

/// Each path starts with itself.
pub proof fn starts_with_itself(path: Seq<u8>)
    ensures
        starts_with_spec(path, path),
{
    let list = components_spec(path);
    assert(list =~= list.take(list.len() as int));
}

/// What starts with a path also starts with all that the path starts with.
pub proof fn starts_with_is_transitive(path: Seq<u8>, middle: Seq<u8>, base: Seq<u8>)
    requires
        starts_with_spec(path, middle),
        starts_with_spec(middle, base),
    ensures
        starts_with_spec(path, base),
{
    let n = components_spec(base).len() as int;
    let m = components_spec(middle).len() as int;
    assert(components_spec(path).take(m).take(n) =~= components_spec(path).take(n));
}

/// What a piece of a path between two slashes adds to its components.
pub open spec fn piece_adds(piece: Seq<u8>, added: Seq<Component<Seq<u8>>>) -> bool {
    if piece.len() == 0 || (piece.len() == 1 && piece[0] == 46) {
        added.len() == 0
    } else if piece.len() == 2 && piece[0] == 46 && piece[1] == 46 {
        added == seq![Component::<Seq<u8>>::ParentDir]
    } else {
        added == seq![Component::Normal(piece)]
    }
}

proof fn named_piece(before: Seq<Seq<u8>>, piece: Seq<u8>) -> (added: Seq<Component<Seq<u8>>>)
    ensures
        named(before.push(piece)) == named(before) + added,
        piece_adds(piece, added),
{
    let list = before.push(piece);
    assert(list.drop_last() =~= before);
    let added: Seq<Component<Seq<u8>>> = if piece.len() == 0 {
        assert(piece =~= Seq::empty());
        Seq::empty()
    } else if piece.len() == 1 && piece[0] == DOT {
        assert(piece =~= seq![DOT]);
        Seq::empty()
    } else if piece.len() == 2 && piece[0] == DOT && piece[1] == DOT {
        assert(piece =~= seq![DOT, DOT]);
        seq![Component::ParentDir]
    } else {
        assert(piece != seq![DOT]) by {
            if piece == seq![DOT] {
                assert(piece.len() == 1 && piece[0] == DOT);
            }
        }
        assert(piece != seq![DOT, DOT]) by {
            if piece == seq![DOT, DOT] {
                assert(piece.len() == 2 && piece[0] == DOT && piece[1] == DOT);
            }
        }
        seq![Component::Normal(piece)]
    };
    assert(named(list) =~= named(before) + added);
    added
}

/// A path comes apart at its slashes: what follows a slash up to the end adds one component, or none if
/// it is nothing or the current directory, to those of what comes before.
pub proof fn paths_come_apart_at_slashes(start: Seq<u8>, piece: Seq<u8>)
    requires
        start.len() > 0,
        start.last() == 47,
        !piece.contains(47),
    ensures
        components_spec(start).is_prefix_of(components_spec(start + piece)),
        piece_adds(piece, components_spec(start + piece).skip(components_spec(start).len() as int)),
{
    let whole = start + piece;
    let before = pieces(start).drop_last();
    pieces_nonempty(start);
    pieces_of_extension(start, piece);
    pieces_after_slash(start, start.len() - 1);
    assert(pieces(start).last() =~= Seq::<u8>::empty());
    assert(pieces(start).last() + piece =~= piece);
    assert(before.push(pieces(start).last()) =~= pieces(start));
    let nothing = named_piece(before, pieces(start).last());
    assert(named(pieces(start)) =~= named(before));
    let added = named_piece(before, piece);
    assert(whole[0] == start[0]);
    assert(pieces(whole)[0] == pieces(start)[0]);
    assert(components_spec(whole) =~= components_spec(start) + added);
    assert(components_spec(whole).take(components_spec(start).len() as int) =~= components_spec(
        start,
    ));
    assert(components_spec(whole).skip(components_spec(start).len() as int) =~= added);
}

/// A slash at the end of a path adds nothing to its components, unless it is the whole path: that is
/// the root directory.
pub proof fn slashes_at_the_end_add_nothing(path: Seq<u8>)
    ensures
        path.len() > 0 ==> components_spec(path.push(47)) == components_spec(path),
        components_spec(seq![47u8]) == seq![Component::<Seq<u8>>::RootDir],
{
    let longer = path.push(47);
    let none = Seq::<u8>::empty();
    assert(longer.drop_last() =~= path);
    pieces_nonempty(path);
    let nothing = named_piece(pieces(path), none);
    assert(pieces(longer) == pieces(path).push(none));
    if path.len() > 0 {
        assert(longer[0] == path[0]);
        assert(pieces(longer)[0] == pieces(path)[0]);
        assert(components_spec(longer) =~= components_spec(path));
    }
    let root = seq![47u8];
    assert(root.drop_last() =~= none);
    assert(pieces(none) == seq![none]);
    assert(pieces(root) =~= seq![none].push(none));
    let first = named_piece(seq![none], none);
    assert(Seq::<Seq<u8>>::empty().push(none) =~= seq![none]);
    let second = named_piece(Seq::empty(), none);
    assert(components_spec(root) =~= seq![Component::<Seq<u8>>::RootDir]);
}

/// A path without a slash is one component: the current directory, the parent directory or a name. An
/// empty path has none.
pub proof fn paths_without_slashes_are_one_component(path: Seq<u8>)
    requires
        !path.contains(47),
    ensures
        path.len() == 0 ==> components_spec(path).len() == 0,
        path.len() == 1 && path[0] == 46 ==> components_spec(path) == seq![
            Component::<Seq<u8>>::CurDir,
        ],
        path.len() > 0 && !(path.len() == 1 && path[0] == 46) ==> piece_adds(
            path,
            components_spec(path),
        ),
{
    assert forall|i: int| 0 <= i < path.len() implies path[i] != SLASH by {
        if path[i] == SLASH {
            assert(path.contains(47));
        }
    }
    no_slash_one_piece(path);
    let none = Seq::<Seq<u8>>::empty();
    assert(none.push(path) =~= seq![path]);
    let added = named_piece(none, path);
    assert(named(none) =~= Seq::<Component<Seq<u8>>>::empty());
    assert(named(seq![path]) =~= added);
    if path.len() == 1 && path[0] == 46 {
        assert(path =~= seq![DOT]);
        assert(components_spec(path) =~= seq![Component::<Seq<u8>>::CurDir]);
    } else {
        assert(path != seq![DOT]) by {
            if path == seq![DOT] {
                assert(path.len() == 1 && path[0] == DOT);
            }
        }
        assert(components_spec(path) =~= added);
    }
}

/// The components that are given for a path are its components, name by name.
pub proof fn components_are_given_one_by_one(path: &[u8], r: Vec<Component<Vec<u8>>>)
    requires
        call_ensures(components, (path,), r),
    ensures
        r@.len() == components_spec(path@).len(),
        forall|i: int| #![trigger r@[i]]
            0 <= i < r@.len() ==> match (r@[i], components_spec(path@)[i]) {
                (Component::RootDir, Component::RootDir) => true,
                (Component::CurDir, Component::CurDir) => true,
                (Component::ParentDir, Component::ParentDir) => true,
                (Component::Normal(a), Component::Normal(b)) => a@ == b,
                _ => false,
            },
{
    assert(views(r@).len() == r@.len());
    assert forall|i: int| #![trigger r@[i]] 0 <= i < r@.len() implies components_spec(path@)[i]
        == r@[i]@ by {
        assert(views(r@)[i] == r@[i]@);
    }
}

/// The file name of a path is its last component, if that is a name.
pub proof fn file_names_are_the_last_component(path: &[u8], r: Option<Vec<u8>>)
    requires
        call_ensures(file_name, (path,), r),
    ensures
        r matches Some(name) ==> components_spec(path@).len() > 0 && components_spec(path@).last()
            == Component::Normal(name@),
        r is None ==> components_spec(path@).len() == 0 || !(components_spec(
            path@,
        ).last() is Normal),
        r matches Some(name) ==> file_name_spec(path@) == Some(name@),
        r is None ==> file_name_spec(path@) is None,
{
}

/// A path starts with another one exactly if it has at least as many components and the first of them
/// are those of the other.
pub proof fn prefixes_are_told_by_components(path: &[u8], base: &[u8], r: bool)
    requires
        call_ensures(starts_with, (path, base), r),
    ensures
        r <==> {
            let whole = components_spec(path@);
            let start = components_spec(base@);
            start.len() <= whole.len() && forall|i: int|
                0 <= i < start.len() ==> #[trigger] start[i] == whole[i]
        },
        r == starts_with_spec(path@, base@),
{
    let whole = components_spec(path@);
    let start = components_spec(base@);
    if start.len() <= whole.len() && forall|i: int|
        0 <= i < start.len() ==> #[trigger] start[i] == whole[i] {
        assert(start =~= whole.subrange(0, start.len() as int));
    }
    if r {
        assert forall|i: int| 0 <= i < start.len() implies #[trigger] start[i] == whole[i] by {
            assert(whole.subrange(0, start.len() as int)[i] == whole[i]);
        }
    }
}

/// A joined path is the second path if that is absolute. Otherwise it begins with the first and ends
/// with the second, and there is a slash between the two exactly if the first is not empty and does not
/// end in one.
pub proof fn joined_paths_hold_both(base: &[u8], path: &[u8], r: Vec<u8>)
    requires
        call_ensures(path_join, (base, path), r),
    ensures
        path@.len() > 0 && path@[0] == 47 ==> r@ == path@,
        !(path@.len() > 0 && path@[0] == 47) ==> {
            let slash: int = if base@.len() > 0 && base@.last() != 47 {
                1
            } else {
                0
            };
            &&& r@.len() == base@.len() + slash + path@.len()
            &&& r@.take(base@.len() as int) == base@
            &&& r@.skip(base@.len() + slash) == path@
            &&& slash == 1 ==> r@[base@.len() as int] == 47
        },
        r@ == join_spec(base@, path@),
{
    if !(path@.len() > 0 && path@[0] == 47) {
        assert(r@.take(base@.len() as int) =~= base@);
        if base@.len() > 0 && base@.last() != 47 {
            assert(r@.skip((base@.len() + 1) as int) =~= path@);
        } else {
            assert(r@.skip(base@.len() as int) =~= path@);
        }
    }
}

/// The byte string for a path is the path, closed by a zero byte. There is one exactly if the path holds
/// no zero byte; otherwise the error tells the path.
pub proof fn byte_strings_are_closed_paths(path: &[u8], r: Result<Vec<u8>, Error>)
    requires
        call_ensures(path_to_cstring, (path,), r),
    ensures
        r is Ok <==> forall|i: int| 0 <= i < path@.len() ==> #[trigger] path@[i] != 0,
        r matches Ok(bytes) ==> bytes@ == path@ + seq![0u8],
        r matches Err(e) ==> e@.kind == ErrorKind::Upstream && e@.message
            == "Failed to convert path to C string: '"@ + text::lossy_text(path@) + "'"@
            && e@.cause is None,
{
    if r is Ok {
        assert(path@.push(0) =~= path@ + seq![0u8]);
        assert forall|i: int| 0 <= i < path@.len() implies #[trigger] path@[i] != 0 by {
            if path@[i] == 0 {
                assert(path@.contains(0));
            }
        }
    }
}

} // verus!
