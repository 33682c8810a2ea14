//! The handlers of completions, and the keys that name them.
//!
//! Every handle is added to the completion port under a key, and the port
//! gives the key back with each completion of the handle. The key says which
//! handler the completion goes to.

use vstd::prelude::*;

verus! {

/// A handler of completions.
#[derive(Clone, Copy, Debug, PartialEq, Eq, Structural)]
pub enum CompletionHandler {
    /// The handler of the poll requests of sockets.
    Socket,
    /// The handler of the completions that a waker posts.
    Waker,
    /// The handler of the operations of a file.
    File,
}

/// The key of a handler.
pub open spec fn spec_as_key(handler: CompletionHandler) -> usize {
    match handler {
        CompletionHandler::Socket => 1,
        CompletionHandler::Waker => 2,
        CompletionHandler::File => 3,
    }
}

/// The handler that a key names, if it names one.
pub open spec fn spec_from_key(key: usize) -> Option<CompletionHandler> {
    if key == 1 {
        Some(CompletionHandler::Socket)
    } else if key == 2 {
        Some(CompletionHandler::Waker)
    } else if key == 3 {
        Some(CompletionHandler::File)
    } else {
        None
    }
}

/// The key under which the handles of a handler are added to the port. No
/// key is zero, and no two handlers have the same.
#[verifier::when_used_as_spec(spec_as_key)]
pub fn as_key(handler: CompletionHandler) -> (key: usize)
    ensures
        key == spec_as_key(handler),
        key != 0,
        spec_from_key(key) == Some(handler),
{
    match handler {
        CompletionHandler::Socket => 1,
        CompletionHandler::Waker => 2,
        CompletionHandler::File => 3,
    }
}

/// The handler to which the completions with this key go. A key that no
/// handler has names none.
#[verifier::when_used_as_spec(spec_from_key)]
pub fn from_key(key: usize) -> (handler: Option<CompletionHandler>)
    ensures
        handler == spec_from_key(key),
        handler matches Some(h) ==> spec_as_key(h) == key,
{
    if key == 1 {
        Some(CompletionHandler::Socket)
    } else if key == 2 {
        Some(CompletionHandler::Waker)
    } else if key == 3 {
        Some(CompletionHandler::File)
    } else {
        None
    }
}

/// A key names the handler that it was made from, and no other: a
/// completion finds the handler under whose key its handle was added.
pub proof fn lemma_key_names_handler(handler: CompletionHandler, other: CompletionHandler)
    ensures
        spec_from_key(spec_as_key(handler)) == Some(handler),
        spec_as_key(handler) == spec_as_key(other) ==> handler == other,
{
}

} // verus!
