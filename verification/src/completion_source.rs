//! Resources other than sockets whose operations complete on the port of a
//! selector.
//!
//! Such a resource says which handle the port is to watch and which handler
//! its completions go to. The association of a resource with a port is
//! recorded on the resource and in the selector.

use std::sync::Arc;
use vstd::prelude::*;
use crate::completion_handler::CompletionHandler;
use crate::event::Event;
use crate::selector::{AddHandle, Selector};
use crate::sock_selector::CompletionStatus;

verus! {

/// What a resource has to offer to have its completions delivered.
pub trait HasCompletion {
    /// What a completion of this resource amounts to.
    fn complete(&self, oe: &CompletionStatus) -> Option<bool>;

    /// The handle that the port is to watch.
    fn get_raw_handle(&self) -> u64;

    /// The handler to which the completions of this resource go.
    fn get_completion_handler(&self) -> CompletionHandler;
}

/// The record of an association: the port, the handle that it watches, and
/// the handler of the completions.
#[derive(Clone, Copy, Debug, PartialEq, Eq, Structural)]
pub struct AssociatedCSHState {
    pub cp: usize,
    pub handle: u64,
    pub completion_handler: CompletionHandler,
}

impl AssociatedCSHState {
    /// The record of the association of the handle `rh` with the port `cp`,
    /// for completions that go to `ch`.
    pub fn new(cp: usize, rh: u64, ch: CompletionHandler) -> (state: AssociatedCSHState)
        ensures
            state == (AssociatedCSHState { cp, handle: rh, completion_handler: ch }),
    {
        AssociatedCSHState { cp, handle: rh, completion_handler: ch }
    }
}

/// A resource together with the record of its association, if it has one.
#[derive(Debug)]
pub struct CompletionSourceHandle<T> {
    state: Option<AssociatedCSHState>,
    inner: T,
}

impl<T: HasCompletion> CompletionSourceHandle<T> {
    /// The record of the association.
    pub closed spec fn state(&self) -> Option<AssociatedCSHState> {
        self.state
    }

    /// The resource.
    pub closed spec fn source(&self) -> T {
        self.inner
    }

    /// A resource that is not associated yet.
    pub fn new(t: T) -> (handle: CompletionSourceHandle<T>)
        ensures
            handle.state() is None,
            handle.source() == t,
    {
        CompletionSourceHandle { state: None, inner: t }
    }

    /// The record of the association, if there is one.
    pub fn get_state(&self) -> (state: Option<AssociatedCSHState>)
        ensures
            state == self.state(),
    {
        match &self.state {
            Some(state) => Some(*state),
            None => None,
        }
    }

    /// Puts the record of the association in place, or takes it away.
    pub fn set_state(&mut self, state: Option<AssociatedCSHState>)
        ensures
            final(self).state() == state,
            final(self).source() == old(self).source(),
    {
        self.state = state
    }

    /// The resource.
    pub fn get_completion_source(&self) -> (source: &T)
        ensures
            *source == self.source(),
    {
        &self.inner
    }
}

/// The room that a resource keeps for the operations that it has under
/// way.
#[derive(Debug)]
pub struct State<T> {
    pub num_overlapped: usize,
    pub complete: T,
}

/// A resource whose operations complete on the port, behind a pointer that
/// its clones share.
#[derive(Debug)]
pub struct IocpResource<T> {
    state: Arc<State<T>>,
}

/// What a completion of a resource amounts to for the caller of a wait.
pub trait Complete {
    /// The event that `oe` gives rise to, if any.
    fn complete(&self, oe: &CompletionStatus) -> Option<Event>;
}

/// Another pointer to the same value, from `Arc::clone`: what it points to
/// is what the first pointer points to.
#[verifier::external_body]
fn share<T>(state: &Arc<State<T>>) -> (shared: Arc<State<T>>)
    ensures
        shared == *state,
{
    Arc::clone(state)
}

impl<T> IocpResource<T> {
    /// What is behind the pointer.
    pub closed spec fn state(&self) -> State<T> {
        *self.state
    }

    /// A resource with room for `num_overlapped_` operations.
    pub fn new(complete_: T, num_overlapped_: usize) -> (resource: IocpResource<T>)
        ensures
            resource.state() == (State { num_overlapped: num_overlapped_, complete: complete_ }),
    {
        IocpResource {
            state: Arc::new(State { num_overlapped: num_overlapped_, complete: complete_ }),
        }
    }

    /// The number of operations for which the resource has room.
    pub fn num_overlapped(&self) -> (room: usize)
        ensures
            room == self.state().num_overlapped,
    {
        self.state.num_overlapped
    }

    /// What the resource makes of its completions.
    pub fn get_complete(&self) -> (complete: &T)
        ensures
            *complete == self.state().complete,
    {
        &self.state.complete
    }

    /// Another handle on the same resource.
    pub fn clone(&self) -> (resource: IocpResource<T>)
        ensures
            resource.state() == self.state(),
    {
        IocpResource { state: share(&self.state) }
    }

    /// The key under which the handle of this resource is added to the
    /// port: zero, which names no handler.
    pub fn get_completion_handler(&self) -> (key: usize)
        ensures
            key == 0,
    {
        0
    }
}

/// The completion of a file operation for the caller of a wait.
#[derive(Clone, Copy, Debug, PartialEq, Eq, Structural)]
pub struct FileOpComplete {}

impl Complete for FileOpComplete {
    /// A file operation gives rise to no event.
    fn complete(&self, oe: &CompletionStatus) -> (event: Option<Event>)
        ensures
            event is None,
    {
        None
    }
}

/// What the driver has to add to the port of `selector` for the resource
/// behind `io_handler`: its handle, under the key that the resource names.
pub fn register_cp_handle<T>(selector: &Selector, io_handler: u64, iocp_resource: IocpResource<T>)
    -> (add: AddHandle)
    ensures
        add == (AddHandle { key: 0, handle: io_handler }),
{
    selector.register_cp_handle(io_handler, iocp_resource)
}

} // verus!
