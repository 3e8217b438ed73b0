//! The names that the running system goes by.

use vstd::prelude::*;

use crate::error::{read_errno, Cause, Error, ErrorKind};

verus! {

/// The names of the system, as text.
#[derive(Debug)]
pub struct UtsName {
    sysname: String,
    nodename: String,
    release: String,
    version: String,
    machine: String,
    domainname: String,
}

/// The names of the system. `T` is what a name is held in.
pub struct Names<T> {
    /// Operating system name.
    pub sysname: T,
    /// Name within some network.
    pub nodename: T,
    /// Operating system release.
    pub release: T,
    /// Operating system version.
    pub version: T,
    /// Hardware identifier.
    pub machine: T,
    /// Domain name.
    pub domainname: T,
}

impl View for UtsName {
    type V = Names<Seq<char>>;

    closed spec fn view(&self) -> Names<Seq<char>> {
        Names {
            sysname: self.sysname@,
            nodename: self.nodename@,
            release: self.release@,
            version: self.version@,
            machine: self.machine@,
            domainname: self.domainname@,
        }
    }
}

impl UtsName {
    /// Operating system name.
    pub fn get_sysname(&self) -> (r: &str)
        ensures
            r@ == self@.sysname,
    {
        self.sysname.as_str()
    }

    /// Name within some network.
    pub fn get_nodename(&self) -> (r: &str)
        ensures
            r@ == self@.nodename,
    {
        self.nodename.as_str()
    }

    /// Operating system release.
    pub fn get_release(&self) -> (r: &str)
        ensures
            r@ == self@.release,
    {
        self.release.as_str()
    }

    /// Operating system version.
    pub fn get_version(&self) -> (r: &str)
        ensures
            r@ == self@.version,
    {
        self.version.as_str()
    }

    /// Hardware identifier.
    pub fn get_machine(&self) -> (r: &str)
        ensures
            r@ == self@.machine,
    {
        self.machine.as_str()
    }

    /// Domain name.
    pub fn get_domainname(&self) -> (r: &str)
        ensures
            r@ == self@.domainname,
    {
        self.domainname.as_str()
    }
}

/// Calls `String::from_utf8`. Claims that it takes exactly the valid UTF-8 and gives the text that
/// the bytes encode.
#[verifier::external_body]
fn from_utf8(bytes: Vec<u8>) -> (r: Option<String>)
    ensures
        r is Some == vstd::utf8::valid_utf8(bytes@),
        r matches Some(text) ==> text@ == vstd::utf8::decode_utf8(bytes@),
{
    String::from_utf8(bytes).ok()
}

/// The bytes before the first zero byte, or all of them.
pub open spec fn before_zero(bytes: Seq<u8>) -> Seq<u8>
    decreases bytes.len(),
{
    if bytes.len() == 0 || bytes[0] == 0 {
        Seq::empty()
    } else {
        seq![bytes[0]] + before_zero(bytes.drop_first())
    }
}

/// The text of a byte string that ends at its first zero byte, or the error that it gives.
pub open spec fn c_text(bytes: Seq<u8>) -> Result<Seq<char>, crate::error::ErrorView> {
    if !bytes.contains(0) {
        Err(
            crate::error::ErrorView {
                kind: ErrorKind::InvParam,
                message: "Not a zero terminated string"@,
                cause: None,
            },
        )
    } else if !vstd::utf8::valid_utf8(before_zero(bytes)) {
        Err(
            crate::error::ErrorView {
                kind: ErrorKind::Upstream,
                message: "Failed to convert C string to text"@,
                cause: None,
            },
        )
    } else {
        Ok(vstd::utf8::decode_utf8(before_zero(bytes)))
    }
}

proof fn before_zero_is_prefix(bytes: Seq<u8>, n: int)
    requires
        0 <= n < bytes.len(),
        bytes[n] == 0,
        forall|i: int| 0 <= i < n ==> bytes[i] != 0,
    ensures
        before_zero(bytes) == bytes.take(n),
    decreases n,
{
    if n > 0 {
        let rest = bytes.drop_first();
        assert forall|i: int| 0 <= i < n - 1 implies rest[i] != 0 by {
            assert(rest[i] == bytes[i + 1]);
        }
        before_zero_is_prefix(rest, n - 1);
        assert(bytes.take(n) =~= seq![bytes[0]] + rest.take(n - 1));
    } else {
        assert(bytes.take(0) =~= Seq::empty());
    }
}

/// The text of a byte string that ends at its first zero byte.
pub fn string_from_c_string(bytes: &[u8]) -> (r: Result<String, Error>)
    ensures
        match r {
            Ok(text) => c_text(bytes@) == Ok::<Seq<char>, crate::error::ErrorView>(text@),
            Err(e) => c_text(bytes@) == Err::<Seq<char>, crate::error::ErrorView>(e@),
        },
{
    let mut start: Vec<u8> = Vec::new();
    let n: usize = bytes.len();
    for i in 0..n
        invariant
            n == bytes@.len(),
            start@ == bytes@.take(i as int),
            forall|j: int| 0 <= j < i ==> bytes@[j] != 0,
    {
        if bytes[i] == 0 {
            proof {
                assert(bytes@.contains(0)) by {
                    assert(bytes@[i as int] == 0);
                }
                before_zero_is_prefix(bytes@, i as int);
            }
            return match from_utf8(start) {
                Some(text) => Ok(text),
                None => Err(
                    Error::with_context(ErrorKind::Upstream, "Failed to convert C string to text"),
                ),
            };
        }
        start.push(bytes[i]);
        assert(bytes@.take(i as int).push(bytes@[i as int]) =~= bytes@.take(i + 1));
    }
    Err(Error::with_context(ErrorKind::InvParam, "Not a zero terminated string"))
}

/// What `uname` returns when the system has filled in the names: the text of each, or the error of
/// the first that has none.
pub open spec fn names_spec(raw: Names<Seq<u8>>) -> Result<
    Names<Seq<char>>,
    crate::error::ErrorView,
> {
    match (
        c_text(raw.sysname),
        c_text(raw.nodename),
        c_text(raw.release),
        c_text(raw.version),
        c_text(raw.machine),
        c_text(raw.domainname),
    ) {
        (Err(e), _, _, _, _, _) => Err(e),
        (_, Err(e), _, _, _, _) => Err(e),
        (_, _, Err(e), _, _, _) => Err(e),
        (_, _, _, Err(e), _, _) => Err(e),
        (_, _, _, _, Err(e), _) => Err(e),
        (_, _, _, _, _, Err(e)) => Err(e),
        (Ok(sysname), Ok(nodename), Ok(release), Ok(version), Ok(machine), Ok(domainname)) => Ok(
            Names { sysname, nodename, release, version, machine, domainname },
        ),
    }
}

impl View for Names<Vec<u8>> {
    type V = Names<Seq<u8>>;

    open spec fn view(&self) -> Names<Seq<u8>> {
        Names {
            sysname: self.sysname@,
            nodename: self.nodename@,
            release: self.release@,
            version: self.version@,
            machine: self.machine@,
            domainname: self.domainname@,
        }
    }
}

/// The names of the system, from the number that the `uname` call returned and the byte strings
/// that it filled in.
///
/// The error number of a failed call is up to the system.
pub fn uname(res: i32, raw: &Names<Vec<u8>>) -> (r: Result<UtsName, Error>)
    ensures
        res == 0 ==> match r {
            Ok(names) => names_spec(raw@) == Ok::<Names<Seq<char>>, crate::error::ErrorView>(
                names@,
            ),
            Err(e) => names_spec(raw@) == Err::<Names<Seq<char>>, crate::error::ErrorView>(e@),
        },
        res != 0 ==> (r matches Err(e) && e@.kind == ErrorKind::Upstream && e@.message
            == "A call to uname failed"@ && (e@.cause matches Some(Cause::Os(errno))
            && crate::error::was_read(errno))),
{
    if res != 0 {
        return Err(
            Error::with_all(ErrorKind::Upstream, "A call to uname failed", Cause::Os(read_errno())),
        );
    }
    Ok(
        UtsName {
            sysname: match string_from_c_string(raw.sysname.as_slice()) {
                Ok(text) => text,
                Err(e) => return Err(e),
            },
            nodename: match string_from_c_string(raw.nodename.as_slice()) {
                Ok(text) => text,
                Err(e) => return Err(e),
            },
            release: match string_from_c_string(raw.release.as_slice()) {
                Ok(text) => text,
                Err(e) => return Err(e),
            },
            version: match string_from_c_string(raw.version.as_slice()) {
                Ok(text) => text,
                Err(e) => return Err(e),
            },
            machine: match string_from_c_string(raw.machine.as_slice()) {
                Ok(text) => text,
                Err(e) => return Err(e),
            },
            domainname: match string_from_c_string(raw.domainname.as_slice()) {
                Ok(text) => text,
                Err(e) => return Err(e),
            },
        },
    )
}

/// A path that was made into a byte string for a system call reads back as the text of the path.
pub proof fn cstring_reads_back(path: Seq<u8>)
    requires
        !path.contains(0),
        vstd::utf8::valid_utf8(path),
    ensures
        c_text(path.push(0)) == Ok::<Seq<char>, crate::error::ErrorView>(
            vstd::utf8::decode_utf8(path),
        ),
{
    let bytes = path.push(0);
    assert forall|i: int| 0 <= i < path.len() implies bytes[i] != 0 by {
        assert(bytes[i] == path[i]);
        assert(path.contains(path[i]));
    }
    assert(bytes[path.len() as int] == 0);
    before_zero_is_prefix(bytes, path.len() as int);
    assert(bytes.take(path.len() as int) =~= path);
}

/// Tells whether a byte string ends after `n` bytes, at its first zero byte.
pub open spec fn ends_after(bytes: Seq<u8>, n: int) -> bool {
    &&& 0 <= n < bytes.len()
    &&& bytes[n] == 0
    &&& forall|i: int| 0 <= i < n ==> #[trigger] bytes[i] != 0
}

/// Tells whether a text is what the bytes before the first zero byte encode.
pub open spec fn reads_as(bytes: Seq<u8>, text: Seq<char>) -> bool {
    exists|n: int| #[trigger]
        ends_after(bytes, n) && vstd::utf8::valid_utf8(bytes.take(n)) && text
            == vstd::utf8::decode_utf8(bytes.take(n))
}

/// Tells whether a byte string has a text.
pub open spec fn has_text(bytes: Seq<u8>) -> bool {
    exists|text: Seq<char>| reads_as(bytes, text)
}

/// Tells whether an error is the one for a byte string that has no text.
pub open spec fn says_why_no_text(e: crate::error::ErrorView, bytes: Seq<u8>) -> bool {
    &&& e.cause is None
    &&& if bytes.contains(0) {
        e.kind == ErrorKind::Upstream && e.message == "Failed to convert C string to text"@
    } else {
        e.kind == ErrorKind::InvParam && e.message == "Not a zero terminated string"@
    }
}

proof fn ends_somewhere(bytes: Seq<u8>, k: int) -> (n: int)
    requires
        0 <= k < bytes.len(),
        bytes[k] == 0,
    ensures
        ends_after(bytes, n),
    decreases k,
{
    if exists|i: int| 0 <= i < k && #[trigger] bytes[i] == 0 {
        let i = choose|i: int| 0 <= i < k && #[trigger] bytes[i] == 0;
        ends_somewhere(bytes, i)
    } else {
        k
    }
}

/// A byte string is read up to its first zero byte, and exactly if it has one and the bytes before it
/// are valid.
pub proof fn byte_strings_read_up_to_the_zero(bytes: &[u8], r: Result<String, Error>)
    requires
        call_ensures(string_from_c_string, (bytes,), r),
    ensures
        r matches Ok(text) ==> reads_as(bytes@, text@),
        r is Ok <==> has_text(bytes@),
        forall|n: int| #[trigger]
            ends_after(bytes@, n) ==> (r is Ok <==> vstd::utf8::valid_utf8(bytes@.take(n))),
        r matches Err(e) ==> says_why_no_text(e@, bytes@),
{
    assert forall|n: int| #[trigger] ends_after(bytes@, n) implies (r is Ok
        <==> vstd::utf8::valid_utf8(bytes@.take(n))) by {
        before_zero_is_prefix(bytes@, n);
        assert(bytes@.contains(0));
    }
    if bytes@.contains(0) {
        let k = choose|k: int| 0 <= k < bytes@.len() && bytes@[k] == 0;
        let n = ends_somewhere(bytes@, k);
        before_zero_is_prefix(bytes@, n);
        if r is Ok {
            assert(ends_after(bytes@, n));
            assert(reads_as(bytes@, r->Ok_0@));
        } else {
            assert forall|text: Seq<char>| !reads_as(bytes@, text) by {
                if reads_as(bytes@, text) {
                    let m = choose|m: int| #[trigger]
                        ends_after(bytes@, m) && vstd::utf8::valid_utf8(bytes@.take(m)) && text
                            == vstd::utf8::decode_utf8(bytes@.take(m));
                    before_zero_is_prefix(bytes@, m);
                }
            }
        }
    } else {
        assert forall|text: Seq<char>| !reads_as(bytes@, text) by {
            if reads_as(bytes@, text) {
                let m = choose|m: int| #[trigger]
                    ends_after(bytes@, m) && vstd::utf8::valid_utf8(bytes@.take(m)) && text
                        == vstd::utf8::decode_utf8(bytes@.take(m));
                assert(bytes@[m] == 0);
            }
        }
    }
}

proof fn text_is_read(bytes: Seq<u8>)
    ensures
        c_text(bytes) matches Ok(text) ==> reads_as(bytes, text),
        c_text(bytes) is Err ==> forall|text: Seq<char>| !reads_as(bytes, text),
{
    if bytes.contains(0) {
        let k = choose|k: int| 0 <= k < bytes.len() && bytes[k] == 0;
        let n = ends_somewhere(bytes, k);
        before_zero_is_prefix(bytes, n);
        if c_text(bytes) is Ok {
            assert(ends_after(bytes, n));
        }
    }
    assert forall|text: Seq<char>| c_text(bytes) is Err implies !reads_as(bytes, text) by {
        if reads_as(bytes, text) {
            let m = choose|m: int| #[trigger]
                ends_after(bytes, m) && vstd::utf8::valid_utf8(bytes.take(m)) && text
                    == vstd::utf8::decode_utf8(bytes.take(m));
            before_zero_is_prefix(bytes, m);
            assert(bytes[m] == 0);
        }
    }
}

/// Each name of the system is the text of the byte string that the call filled in for it, and there are
/// names exactly if the call returned zero and each of the six has a text.
pub proof fn names_are_those_that_were_filled_in(
    res: i32,
    raw: &Names<Vec<u8>>,
    r: Result<UtsName, Error>,
)
    requires
        call_ensures(uname, (res, raw), r),
    ensures
        r matches Ok(names) ==> {
            &&& reads_as(raw.sysname@, names@.sysname)
            &&& reads_as(raw.nodename@, names@.nodename)
            &&& reads_as(raw.release@, names@.release)
            &&& reads_as(raw.version@, names@.version)
            &&& reads_as(raw.machine@, names@.machine)
            &&& reads_as(raw.domainname@, names@.domainname)
        },
        r is Ok <==> {
            &&& res == 0
            &&& has_text(raw.sysname@)
            &&& has_text(raw.nodename@)
            &&& has_text(raw.release@)
            &&& has_text(raw.version@)
            &&& has_text(raw.machine@)
            &&& has_text(raw.domainname@)
        },
        res != 0 ==> (r matches Err(e) && e@.kind == ErrorKind::Upstream && e@.message
            == "A call to uname failed"@ && (e@.cause matches Some(Cause::Os(errno))
            && crate::error::was_read(errno))),
{
    text_is_read(raw.sysname@);
    text_is_read(raw.nodename@);
    text_is_read(raw.release@);
    text_is_read(raw.version@);
    text_is_read(raw.machine@);
    text_is_read(raw.domainname@);
}

/// Each name that is asked for is the text of the byte string that the call filled in for it.
pub proof fn each_name_is_asked_for_by_its_own(
    raw: &Names<Vec<u8>>,
    names: UtsName,
    text: &str,
)
    requires
        call_ensures(uname, (0i32, raw), Ok::<UtsName, Error>(names)),
    ensures
        call_ensures(UtsName::get_sysname, (&names,), text) ==> reads_as(raw.sysname@, text@),
        call_ensures(UtsName::get_nodename, (&names,), text) ==> reads_as(raw.nodename@, text@),
        call_ensures(UtsName::get_release, (&names,), text) ==> reads_as(raw.release@, text@),
        call_ensures(UtsName::get_version, (&names,), text) ==> reads_as(raw.version@, text@),
        call_ensures(UtsName::get_machine, (&names,), text) ==> reads_as(raw.machine@, text@),
        call_ensures(UtsName::get_domainname, (&names,), text) ==> reads_as(
            raw.domainname@,
            text@,
        ),
{
    names_are_those_that_were_filled_in(0, raw, Ok::<UtsName, Error>(names));
}

/// Where the text of several names is missing, the error is that of the first of them.
pub proof fn the_first_missing_name_decides(
    raw: &Names<Vec<u8>>,
    e: Error,
)
    requires
        call_ensures(uname, (0i32, raw), Err::<UtsName, Error>(e)),
    ensures
        ({
            let list = seq![
                raw.sysname@,
                raw.nodename@,
                raw.release@,
                raw.version@,
                raw.machine@,
                raw.domainname@,
            ];
            exists|i: int|
                0 <= i < 6 && !has_text(#[trigger] list[i]) && says_why_no_text(e@, list[i])
                    && forall|j: int| 0 <= j < i ==> has_text(#[trigger] list[j])
        }),
{
    let list = seq![
        raw.sysname@,
        raw.nodename@,
        raw.release@,
        raw.version@,
        raw.machine@,
        raw.domainname@,
    ];
    text_is_read(list[0]);
    text_is_read(list[1]);
    text_is_read(list[2]);
    text_is_read(list[3]);
    text_is_read(list[4]);
    let i: int = if c_text(list[0]) is Err {
        0
    } else if c_text(list[1]) is Err {
        1
    } else if c_text(list[2]) is Err {
        2
    } else if c_text(list[3]) is Err {
        3
    } else if c_text(list[4]) is Err {
        4
    } else {
        5
    };
    text_is_read(list[5]);
    assert(c_text(list[i]) == Err::<Seq<char>, crate::error::ErrorView>(e@));
    assert(!has_text(list[i]));
    assert forall|j: int| 0 <= j < i implies has_text(#[trigger] list[j]) by {
        assert(reads_as(list[j], c_text(list[j])->Ok_0));
    }
}

} // verus!
