//! How an operation of this crate can fail.

use vstd::prelude::*;

verus! {

/// The failures that reach a caller.
///
/// A submission that reports that it is under way, one that reports a closed
/// handle, and a wait whose time ran out are no failures: the functions that
/// meet them deal with them.
#[derive(Clone, Copy, Debug, PartialEq, Eq, Structural)]
pub enum Error {
    /// The resource is registered already.
    AlreadyExists,
    /// The resource is not registered.
    NotFound,
    /// The kernel refused a call, with this error code.
    Os(i32),
    /// An operation that was to end later ended at once.
    Other,
}

} // verus!
