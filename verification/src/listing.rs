//! What reading directories and links gives back.

use vstd::prelude::*;

use crate::error::IoFailure;

verus! {

/// The answer to a request for the next entry of an open directory. `P` holds a path.
pub enum NextEntry<P> {
    /// The path of an entry.
    Entry(P),
    /// The entry could not be read.
    Failed(IoFailure),
    /// There are no more entries.
    End,
}

impl View for NextEntry<Vec<u8>> {
    type V = NextEntry<Seq<u8>>;

    open spec fn view(&self) -> NextEntry<Seq<u8>> {
        match self {
            NextEntry::Entry(path) => NextEntry::Entry(path@),
            NextEntry::Failed(failure) => NextEntry::Failed(*failure),
            NextEntry::End => NextEntry::End,
        }
    }
}

/// The path that a symbolic link holds, or the failure to read it.
pub open spec fn target_view(target: Result<Vec<u8>, IoFailure>) -> Result<Seq<u8>, IoFailure> {
    match target {
        Ok(path) => Ok(path@),
        Err(failure) => Err(failure),
    }
}

/// A result with the contents of its error.
pub open spec fn result_view<T>(result: Result<T, crate::error::Error>) -> Result<
    T,
    crate::error::ErrorView,
> {
    match result {
        Ok(value) => Ok(value),
        Err(e) => Err(e@),
    }
}

} // verus!
