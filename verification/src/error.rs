//! The errors of the library and how failed system calls become errors.

use vstd::prelude::*;

verus! {

/// Operation not permitted.
pub const EPERM: i32 = 1;

/// No such file or directory.
pub const ENOENT: i32 = 2;

/// No such device or address.
pub const ENXIO: i32 = 6;

/// Permission denied.
pub const EACCES: i32 = 13;

/// File exists.
pub const EEXIST: i32 = 17;

/// What went wrong, as far as callers tell errors apart.
#[derive(Clone, Copy, Debug, PartialEq, Eq, Structural)]
pub enum ErrorKind {
    /// The operation is not permitted.
    NotPermitted,
    /// Access to a file was denied.
    Permission,
    /// A file does not exist.
    FileNotFound,
    /// A device does not exist.
    DeviceNotFound,
    /// A file is there already.
    FileExists,
    /// Something underneath failed.
    Upstream,
    /// An argument is not acceptable.
    InvParam,
    /// Something is in a state that it should not be in.
    InvState,
}

/// An I/O error of the standard library. It is carried along and not looked into.
#[verifier::external_type_specification]
#[verifier::external_body]
pub struct ExIoError(std::io::Error);

/// What is wrong with a text that should be a number.
#[derive(Clone, Copy, Debug, PartialEq, Eq, Structural)]
pub enum ParseFailure {
    /// There is nothing.
    Empty,
    /// Something is not a digit.
    InvalidDigit,
    /// The number is too large.
    PosOverflow,
}

/// What failed underneath.
#[derive(Debug)]
pub enum Cause {
    /// A system call, with its error number.
    Os(i32),
    /// A file operation that has no error number.
    Io(std::io::Error),
    /// The reading of a number.
    Parse(ParseFailure),
}

/// An error: its kind, a message for people, and what failed underneath, if something did.
#[derive(Debug)]
pub struct Error {
    kind: ErrorKind,
    message: String,
    cause: Option<Cause>,
}

/// The contents of an [`Error`].
pub struct ErrorView {
    pub kind: ErrorKind,
    pub message: Seq<char>,
    pub cause: Option<Cause>,
}

impl View for Error {
    type V = ErrorView;

    closed spec fn view(&self) -> ErrorView {
        ErrorView { kind: self.kind, message: self.message@, cause: self.cause }
    }
}

impl Error {
    /// An error with a message and nothing underneath.
    pub fn with_context(kind: ErrorKind, message: &str) -> (r: Error)
        ensures
            r@ == (ErrorView { kind, message: message@, cause: None }),
    {
        Error { kind, message: message.to_owned(), cause: None }
    }

    /// An error with a message and with what failed underneath.
    pub fn with_all(kind: ErrorKind, message: &str, cause: Cause) -> (r: Error)
        ensures
            r@ == (ErrorView { kind, message: message@, cause: Some(cause) }),
    {
        Error { kind, message: message.to_owned(), cause: Some(cause) }
    }

    /// The kind of the error.
    pub fn kind(&self) -> (r: ErrorKind)
        ensures
            r == self@.kind,
    {
        self.kind
    }

    /// The message of the error.
    pub fn message(&self) -> (r: &str)
        ensures
            r@ == self@.message,
    {
        self.message.as_str()
    }

    /// What failed underneath, if something did.
    pub fn cause(&self) -> (r: Option<&Cause>)
        ensures
            match r {
                Some(cause) => self@.cause == Some(*cause),
                None => self@.cause is None,
            },
    {
        match &self.cause {
            Some(cause) => Some(cause),
            None => None,
        }
    }

    /// The error number of the system call that failed, where there was one.
    pub fn os_error(&self) -> (r: Option<i32>)
        ensures
            r == match self@.cause {
                Some(Cause::Os(errno)) => Some(errno),
                _ => None,
            },
    {
        match &self.cause {
            Some(Cause::Os(errno)) => Some(*errno),
            _ => None,
        }
    }
}

/// A failed file operation.
#[derive(Debug)]
pub enum IoFailure {
    /// It failed in a system call, with this error number.
    Os(i32),
    /// It failed without one.
    Other(std::io::Error),
}

impl IoFailure {
    /// The failure as the cause of an error.
    pub open spec fn as_cause(self) -> Cause {
        match self {
            IoFailure::Os(errno) => Cause::Os(errno),
            IoFailure::Other(e) => Cause::Io(e),
        }
    }

    /// The failure as the cause of an error.
    pub fn into_cause(self) -> (r: Cause)
        ensures
            r == self.as_cause(),
    {
        match self {
            IoFailure::Os(errno) => Cause::Os(errno),
            IoFailure::Other(e) => Cause::Io(e),
        }
    }
}

/// The kind of error that an error number stands for.
pub open spec fn errno_kind_spec(errno: i32) -> ErrorKind {
    if errno == EPERM {
        ErrorKind::NotPermitted
    } else if errno == EACCES {
        ErrorKind::Permission
    } else if errno == ENOENT {
        ErrorKind::FileNotFound
    } else if errno == ENXIO {
        ErrorKind::DeviceNotFound
    } else if errno == EEXIST {
        ErrorKind::FileExists
    } else {
        ErrorKind::Upstream
    }
}

/// The error that a failed system call leaves, by its error number.
pub open spec fn errno_error_spec(errno: i32, message: Seq<char>) -> ErrorView {
    ErrorView { kind: errno_kind_spec(errno), message, cause: Some(Cause::Os(errno)) }
}

/// Makes the error for a system call that failed with the given error number.
pub fn errno_error(errno: i32, message: &str) -> (r: Error)
    ensures
        r@ == errno_error_spec(errno, message@),
{
    let kind = match errno {
        EPERM => ErrorKind::NotPermitted,
        EACCES => ErrorKind::Permission,
        ENOENT => ErrorKind::FileNotFound,
        ENXIO => ErrorKind::DeviceNotFound,
        EEXIST => ErrorKind::FileExists,
        _ => ErrorKind::Upstream,
    };
    Error::with_all(kind, message, Cause::Os(errno))
}

/// Calls `nix::errno::errno`, which reads the error number that the last failed system call of
/// this thread left behind. Nothing is claimed of the number: it depends on the system.
#[verifier::external_body]
fn last_errno() -> (r: i32) {
    nix::errno::errno()
}

/// Tells whether an error number is one that was read from the system.
pub closed spec fn was_read(errno: i32) -> bool {
    call_ensures(last_errno, (), errno)
}

/// Reads the error number that the last failed system call of this thread left.
pub(crate) fn read_errno() -> (r: i32)
    ensures
        was_read(r),
{
    last_errno()
}

/// Makes the error for the system call that has just failed in this thread.
///
/// Which error number the system left is up to the system: [`errno_error`] says what becomes of
/// each.
pub fn sys_error(message: &str) -> (r: Error)
    ensures
        r@.cause matches Some(Cause::Os(errno)) && r@ == errno_error_spec(errno, message@),
        r@.cause matches Some(Cause::Os(errno)) && was_read(errno),
{
    errno_error(last_errno(), message)
}

/// A number that was read from the system is one that the call for it gave.
proof fn numbers_are_read_by_the_call(errno: i32)
    requires
        was_read(errno),
    ensures
        call_ensures(last_errno, (), errno),
{
}

/// Tells whether a kind of error is the one that goes with an error number.
pub open spec fn kind_goes_with(kind: ErrorKind, errno: i32) -> bool {
    &&& kind == ErrorKind::NotPermitted <==> errno == 1
    &&& kind == ErrorKind::FileNotFound <==> errno == 2
    &&& kind == ErrorKind::DeviceNotFound <==> errno == 6
    &&& kind == ErrorKind::Permission <==> errno == 13
    &&& kind == ErrorKind::FileExists <==> errno == 17
    &&& kind != ErrorKind::InvParam && kind != ErrorKind::InvState
}

/// The error for an error number has the kind that goes with the number, the message and the number.
pub proof fn errors_hold_their_number(errno: i32, message: &str, e: Error)
    requires
        call_ensures(errno_error, (errno, message), e),
    ensures
        kind_goes_with(e@.kind, errno),
        e@.message == message@,
        e@.cause == Some(Cause::Os(errno)),
{
}

/// The error of a failed system call holds a number that was read from the system, and its kind goes
/// with that number.
pub proof fn system_errors_hold_the_number_read(message: &str, e: Error)
    requires
        call_ensures(sys_error, (message,), e),
    ensures
        e@.message == message@,
        exists|errno: i32| #[trigger]
            was_read(errno) && e@.cause == Some(Cause::Os(errno)) && kind_goes_with(e@.kind, errno),
{
    let errno = e@.cause->0->Os_0;
    assert(was_read(errno) && e@.cause == Some(Cause::Os(errno)));
}

/// An error gives back what it was made of.
pub proof fn errors_give_back_what_they_hold(
    kind: ErrorKind,
    message: &str,
    cause: Cause,
    e: Error,
    shown_kind: ErrorKind,
    shown: &str,
    number: Option<i32>,
    inner: Option<&Cause>,
)
    requires
        call_ensures(Error::kind, (&e,), shown_kind),
        call_ensures(Error::message, (&e,), shown),
        call_ensures(Error::os_error, (&e,), number),
        call_ensures(Error::cause, (&e,), inner),
    ensures
        call_ensures(Error::with_all, (kind, message, cause), e) ==> {
            &&& shown_kind == kind
            &&& shown@ == message@
            &&& inner is Some && *inner->0 == cause
            &&& number is Some <==> cause is Os
            &&& number matches Some(errno) ==> cause == Cause::Os(errno)
        },
        call_ensures(Error::with_context, (kind, message), e) ==> {
            &&& shown_kind == kind
            &&& shown@ == message@
            &&& inner is None
            &&& number is None
        },
        shown_kind == e@.kind,
        shown@ == e@.message,
        inner matches Some(cause) ==> e@.cause == Some(*cause),
        inner is None ==> e@.cause is None,
{
}

/// A failure with an error number becomes a cause with that number, another one is kept as it is.
pub proof fn failures_become_their_cause(failure: IoFailure, cause: Cause)
    requires
        call_ensures(IoFailure::into_cause, (failure,), cause),
    ensures
        failure matches IoFailure::Os(errno) ==> cause == Cause::Os(errno),
        failure matches IoFailure::Other(e) ==> cause == Cause::Io(e),
        failure.as_cause() == cause,
{
}

/// Each kind of error that a failed system call can leave, other than `Upstream`, stands for one
/// error number.
pub proof fn known_kinds_stand_for_one_number(a: i32, b: i32)
    requires
        errno_kind_spec(a) == errno_kind_spec(b),
        errno_kind_spec(a) != ErrorKind::Upstream,
    ensures
        a == b,
{
}

} // verus!
