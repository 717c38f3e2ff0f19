//! Why an operation fails.

use vstd::prelude::*;

verus! {

/// The failure of an operation. `E` is the store's own error type, which is
/// carried through untouched and never looked into.
#[derive(Debug, Clone, PartialEq, Eq)]
pub enum Error<E> {
    /// The request's auth kind or auth scope is not a recognized code.
    InvalidAuthEncoding,
    /// The store failed to read or to write; the payload is what it returned.
    AccessorFailure(E),
}

} // verus!
