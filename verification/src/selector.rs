//! The selector: the sockets, the other resources that complete on the
//! port, and the wait.
//!
//! A wait alternates between this module and the driver. `select` says
//! when the driver has to wait on the port; the driver works off the queue
//! of sockets, waits, and hands what came off the port back to `select`,
//! which routes each completion to its handler and collects the events.

use std::collections::VecDeque;
use std::time::Duration;
use vstd::prelude::*;
use crate::afd::WAIT_TIMEOUT;
use crate::completion_handler::{as_key, from_key, spec_as_key, spec_from_key, CompletionHandler};
use crate::completion_source::{AssociatedCSHState, CompletionSourceHandle, HasCompletion, IocpResource};
use crate::error::Error;
use crate::event::{Event, Events};
use crate::interest::{Interest, Token};
use crate::sock_selector::{CompletionStatus, KernelCall, SockSelector, SockSelectorView};
use crate::sock_state::SockState;
use crate::waker::Waker;

verus! {

/// A handle that the driver has to add to the completion port, and the key
/// under which it adds it.
#[derive(Clone, Copy, Debug, PartialEq, Eq, Structural)]
pub struct AddHandle {
    pub key: usize,
    pub handle: u64,
}

/// An association as the selector keeps it.
#[derive(Clone, Copy, Debug, PartialEq, Eq, Structural)]
pub struct Association {
    pub state: AssociatedCSHState,
    /// Whether the resource gave the association up. The record stays until
    /// the port is drained.
    pub delete_pending: bool,
}

/// What the driver has to do next in a wait.
#[derive(Clone, Copy, Debug, PartialEq, Eq, Structural)]
pub enum SelectStep {
    /// Work off the queue of sockets, wait on the port, and call `select`
    /// again with what came off it.
    Poll,
    /// The wait is over; the events are in place.
    Done,
}

/// The selector after one completion went to its handler.
pub open spec fn dispatch_one(socks: SockSelectorView, completion: CompletionStatus)
    -> SockSelectorView {
    match spec_from_key(completion.token) {
        Some(CompletionHandler::Socket) => socks.handle_completion(completion),
        _ => socks,
    }
}

/// The event that the handler of a completion answers with: that of the
/// socket for a poll request, receive under the posted token for a wake,
/// none for a file operation.
pub open spec fn dispatched_event(socks: SockSelectorView, completion: CompletionStatus) -> Option<
    Event,
> {
    match spec_from_key(completion.token) {
        Some(CompletionHandler::Socket) => socks.completion_event(completion),
        Some(CompletionHandler::Waker) => Waker::spec_handle_completion(completion),
        _ => None,
    }
}

/// The selector after each of the completions went to its handler, in
/// their order.
pub open spec fn dispatch(socks: SockSelectorView, completions: Seq<CompletionStatus>)
    -> SockSelectorView
    decreases completions.len(),
{
    if completions.len() == 0 {
        socks
    } else {
        dispatch_one(dispatch(socks, completions.drop_last()), completions.last())
    }
}

/// The events that the handlers of the completions answer with, in the
/// order of the completions.
pub open spec fn dispatched_events(socks: SockSelectorView, completions: Seq<CompletionStatus>)
    -> Seq<Event>
    decreases completions.len(),
{
    if completions.len() == 0 {
        Seq::empty()
    } else {
        let before = dispatched_events(socks, completions.drop_last());
        match dispatched_event(dispatch(socks, completions.drop_last()), completions.last()) {
            Some(event) => before.push(event),
            None => before,
        }
    }
}

/// The selector after each of the completions was taken off the port at
/// teardown. Only the completion of a poll request names a state.
pub open spec fn drain_all(socks: SockSelectorView, completions: Seq<CompletionStatus>)
    -> SockSelectorView
    decreases completions.len(),
{
    if completions.len() == 0 {
        socks
    } else {
        let before = drain_all(socks, completions.drop_last());
        if spec_from_key(completions.last().token) == Some(CompletionHandler::Socket) {
            before.drain(completions.last())
        } else {
            before
        }
    }
}

/// Handlers do not touch the mark of a wait under way.
pub proof fn lemma_dispatch_keeps_flag(socks: SockSelectorView, completions: Seq<CompletionStatus>)
    ensures
        dispatch(socks, completions).is_polling == socks.is_polling,
    decreases completions.len(),
{
    if completions.len() > 0 {
        lemma_dispatch_keeps_flag(socks, completions.drop_last());
    }
}

/// Whether every completion has a key that names a handler.
pub open spec fn keys_known(completions: Seq<CompletionStatus>) -> bool {
    forall|i: int|
        0 <= i < completions.len() ==> spec_from_key((#[trigger] completions[i]).token) is Some
}

/// Whether every completion has a key that names a handler.
pub fn keys_are_known(completions: &Vec<CompletionStatus>) -> (known: bool)
    ensures
        known == keys_known(completions@),
{
    let n = completions.len();
    let mut i: usize = 0;
    while i < n
        invariant
            i <= n,
            n == completions@.len(),
            forall|k: int| 0 <= k < i ==> spec_from_key((#[trigger] completions@[k]).token) is Some,
        decreases n - i,
    {
        if from_key(completions[i].token).is_none() {
            return false;
        }
        i += 1;
    }
    true
}

/// The first association of `state` that was not given up, from `from`
/// on; the length where there is none.
pub open spec fn first_association(
    associations: Seq<Association>,
    state: AssociatedCSHState,
    from: int,
) -> int
    decreases associations.len() - from,
{
    if from < 0 || from >= associations.len() {
        associations.len() as int
    } else if associations[from].state == state && !associations[from].delete_pending {
        from
    } else {
        first_association(associations, state, from + 1)
    }
}

/// The associations after that of `state` was given up.
pub open spec fn after_dissociate(associations: Seq<Association>, state: AssociatedCSHState) -> Seq<
    Association,
> {
    let at = first_association(associations, state, 0);
    if at < associations.len() {
        associations.update(at, Association { state, delete_pending: true })
    } else {
        associations
    }
}

/// Whether an association was not given up.
pub open spec fn is_kept() -> spec_fn(Association) -> bool {
    |a: Association| !a.delete_pending
}

/// The associations that were not given up.
pub open spec fn kept_associations(associations: Seq<Association>) -> Seq<Association> {
    associations.filter(is_kept())
}

/// A selector as plain values.
pub struct SelectorView {
    /// The completion port, by its handle.
    pub port: usize,
    pub socks: SockSelectorView,
    /// The associations of other resources, in the order in which they were
    /// made.
    pub associations: Seq<Association>,
}

/// The state of a selector.
#[derive(Debug)]
pub struct SelectorInner {
    cp: usize,
    sock_selector: SockSelector,
    csh_state_queue: VecDeque<Association>,
}

impl View for SelectorInner {
    type V = SelectorView;

    closed spec fn view(&self) -> SelectorView {
        SelectorView {
            port: self.cp,
            socks: self.sock_selector@,
            associations: self.csh_state_queue@,
        }
    }
}

impl SelectorView {
    /// A selector without sockets or other resources, outside a wait.
    pub open spec fn empty(port: usize) -> SelectorView {
        SelectorView {
            port,
            socks: SockSelectorView {
                socks: Seq::empty(),
                update_queue: Seq::empty(),
                afd_counts: Seq::empty(),
                is_polling: false,
                updating: None,
            },
            associations: Seq::empty(),
        }
    }

    /// What `select2` makes of the outcome of a wait on the port: the wait
    /// is over; completions go to their handlers.
    pub open spec fn select2(self, polled: Result<Seq<CompletionStatus>, i32>) -> SelectorView {
        let ended = SockSelectorView { is_polling: false, ..self.socks };
        match polled {
            Ok(completions) => SelectorView { socks: dispatch(ended, completions), ..self },
            Err(_) => SelectorView { socks: ended, ..self },
        }
    }

    /// The events that `select2` adds.
    pub open spec fn select2_events(self, polled: Result<Seq<CompletionStatus>, i32>) -> Seq<
        Event,
    > {
        let ended = SockSelectorView { is_polling: false, ..self.socks };
        match polled {
            Ok(completions) => dispatched_events(ended, completions),
            Err(_) => Seq::empty(),
        }
    }

    /// The selector with a wait under way.
    pub open spec fn polling(self) -> SelectorView {
        SelectorView { socks: SockSelectorView { is_polling: true, ..self.socks }, ..self }
    }

    /// The events after a step of `select`: none at the beginning of a
    /// wait; later those that were there and those that the completions gave
    /// rise to.
    pub open spec fn select_events(
        self,
        events: Seq<Event>,
        polled: Option<Result<Seq<CompletionStatus>, i32>>,
    ) -> Seq<Event> {
        match polled {
            None => Seq::empty(),
            Some(came) => events + self.select2_events(came),
        }
    }

    /// Whether a step of `select` asks for another wait on the port: at
    /// the beginning, and after a wait that brought no event where the caller
    /// gave no timeout.
    pub open spec fn select_again(
        self,
        events: Seq<Event>,
        infinite: bool,
        polled: Option<Result<Seq<CompletionStatus>, i32>>,
    ) -> bool {
        match polled {
            None => true,
            Some(Ok(_)) => infinite && self.select_events(events, polled).len() == 0,
            Some(Err(code)) => infinite && code == WAIT_TIMEOUT,
        }
    }

    /// What a step of `select` returns: the error of the wait on the port,
    /// unless its time ran out; else what the driver has to do next.
    pub open spec fn select_result(
        self,
        events: Seq<Event>,
        infinite: bool,
        polled: Option<Result<Seq<CompletionStatus>, i32>>,
    ) -> Result<SelectStep, Error> {
        if polled matches Some(Err(code)) && code != WAIT_TIMEOUT {
            Err(Error::Os(polled->0->Err_0))
        } else if self.select_again(events, infinite, polled) {
            Ok(SelectStep::Poll)
        } else {
            Ok(SelectStep::Done)
        }
    }

    /// The selector after a step of `select`.
    pub open spec fn select(
        self,
        events: Seq<Event>,
        infinite: bool,
        polled: Option<Result<Seq<CompletionStatus>, i32>>,
    ) -> SelectorView {
        let taken = match polled {
            None => self,
            Some(came) => self.select2(came),
        };
        if self.select_result(events, infinite, polled) == Ok::<SelectStep, Error>(
            SelectStep::Poll,
        ) {
            taken.polling()
        } else {
            taken
        }
    }
}

impl SelectorView {
    /// A wait with a timeout may end without an event: when the time of the
    /// wait on the port ran out, or the wait brought no completion, the wait
    /// is over and no event was added. That is no error.
    pub proof fn lemma_timed_wait_may_end_empty(self, events: Seq<Event>)
        ensures
            self.select_result(events, false, Some(Err(WAIT_TIMEOUT))) == Ok::<SelectStep, Error>(
                SelectStep::Done,
            ),
            self.select_events(events, Some(Err(WAIT_TIMEOUT))) == events,
            self.select_result(events, false, Some(Ok(Seq::empty()))) == Ok::<SelectStep, Error>(
                SelectStep::Done,
            ),
            self.select_events(events, Some(Ok(Seq::empty()))) == events,
    {
    }

    /// A wait without a timeout never ends without an event: as long as
    /// none is there, another wait on the port is due.
    pub proof fn lemma_untimed_wait_ends_with_events(
        self,
        events: Seq<Event>,
        polled: Option<Result<Seq<CompletionStatus>, i32>>,
    )
        ensures
            self.select_result(events, true, polled) == Ok::<SelectStep, Error>(SelectStep::Done)
                ==> self.select_events(events, polled).len() > 0,
            self.select_events(events, polled).len() == 0 ==> self.select_result(
                events,
                true,
                polled,
            ) != Ok::<SelectStep, Error>(SelectStep::Done),
    {
    }
}

/// What the driver hands to a step of `select`, as plain values.
pub open spec fn came_view(polled: Option<Result<Vec<CompletionStatus>, i32>>) -> Option<
    Result<Seq<CompletionStatus>, i32>,
> {
    match polled {
        None => None,
        Some(came) => Some(polled_view(came)),
    }
}

/// What came off the port, as plain values.
pub open spec fn polled_view(polled: Result<Vec<CompletionStatus>, i32>) -> Result<
    Seq<CompletionStatus>,
    i32,
> {
    match polled {
        Ok(completions) => Ok(completions@),
        Err(code) => Err(code),
    }
}

impl SelectorInner {
    /// Whether the selector is in order.
    pub open spec fn wf(&self) -> bool {
        self@.socks.inv()
    }

    /// A selector for the completion port with the handle `port`, without
    /// sockets or other resources.
    pub fn new(port: usize) -> (selector: SelectorInner)
        ensures
            selector.wf(),
            selector@ == SelectorView::empty(port),
    {
        SelectorInner {
            cp: port,
            sock_selector: SockSelector::new(),
            csh_state_queue: VecDeque::new(),
        }
    }

    /// The key under which the handles of a handler are added to the port.
    pub fn as_key(handler: CompletionHandler) -> (key: usize)
        ensures
            key == spec_as_key(handler),
    {
        as_key(handler)
    }

    /// The completion port, by its handle.
    pub fn port(&self) -> (port: usize)
        ensures
            port == self@.port,
    {
        self.cp
    }

    /// The sockets of the selector.
    pub fn sock_selector(&self) -> (socks: &SockSelector)
        ensures
            socks@ == self@.socks,
    {
        &self.sock_selector
    }

    /// The association at the place `at`, if there is one.
    pub fn association(&self, at: usize) -> (association: Option<Association>)
        ensures
            association == (if at < self@.associations.len() {
                Some(self@.associations[at as int])
            } else {
                None
            }),
    {
        if at < self.csh_state_queue.len() {
            Some(self.csh_state_queue[at])
        } else {
            None
        }
    }

    /// What the driver has to add to the port for the resource behind
    /// `io_handler`: its handle, under the key that the resource names.
    pub fn register_cp_handle<T>(&self, io_handler: u64, iocp_resource: IocpResource<T>) -> (add:
        AddHandle)
        ensures
            add == (AddHandle { key: 0, handle: io_handler }),
    {
        let key = iocp_resource.get_completion_handler();
        AddHandle { key, handle: io_handler }
    }

    /// Records the association of the handle `handle` with the port, for
    /// completions that go to `handler`, and says what the driver has to add
    /// to the port.
    pub fn associate(&mut self, handle: u64, handler: CompletionHandler) -> (made: (
        AssociatedCSHState,
        AddHandle,
    ))
        ensures
            made.0 == (AssociatedCSHState { cp: old(self)@.port, handle, completion_handler: handler }),
            made.1 == (AddHandle { key: spec_as_key(handler), handle }),
            final(self)@ == (SelectorView {
                associations: old(self)@.associations.push(
                    Association { state: made.0, delete_pending: false },
                ),
                ..old(self)@
            }),
    {
        let key = Self::as_key(handler);
        let state = AssociatedCSHState::new(self.cp, handle, handler);
        self.csh_state_queue.push_back(Association { state, delete_pending: false });
        (state, AddHandle { key, handle })
    }

    /// Associates a resource with the port. A resource that is associated
    /// already is refused. Else the association is recorded on the resource
    /// and in the selector, with the handle and the handler that the resource
    /// names, and the driver is told what to add to the port.
    pub fn associate_cp<T: HasCompletion>(&mut self, csh: &mut CompletionSourceHandle<T>) -> (result:
        Result<AddHandle, Error>)
        ensures
            final(csh).source() == old(csh).source(),
            old(csh).state() is Some ==> result == Err::<AddHandle, Error>(Error::AlreadyExists)
                && final(self)@ == old(self)@ && final(csh).state() == old(csh).state(),
            old(csh).state() is None ==> (result matches Ok(add) && final(csh).state() matches Some(
                state,
            ) && state.cp == old(self)@.port && state.handle == add.handle && add.key == spec_as_key(
                state.completion_handler,
            ) && final(self)@ == (SelectorView {
                associations: old(self)@.associations.push(
                    Association { state, delete_pending: false },
                ),
                ..old(self)@
            })),
    {
        match csh.get_state() {
            Some(_) => Err(Error::AlreadyExists),
            None => {
                let handler = csh.get_completion_source().get_completion_handler();
                let handle = csh.get_completion_source().get_raw_handle();
                let (state, add) = self.associate(handle, handler);
                csh.set_state(Some(state));
                Ok(add)
            },
        }
    }

    /// Gives up the association of a resource. The record leaves the
    /// resource at once; the selector keeps it, marked, until the port is
    /// drained, for operations of the resource may still complete. A resource
    /// that is not associated changes nothing.
    pub fn dissociate_cp<T: HasCompletion>(&mut self, csh: &mut CompletionSourceHandle<T>) -> (result:
        Result<(), Error>)
        ensures
            result is Ok,
            final(csh).source() == old(csh).source(),
            final(csh).state() is None,
            final(self)@ == (match old(csh).state() {
                Some(state) => SelectorView {
                    associations: after_dissociate(old(self)@.associations, state),
                    ..old(self)@
                },
                None => old(self)@,
            }),
    {
        if let Some(state) = csh.get_state() {
            let at = self.find_association(&state);
            if at < self.csh_state_queue.len() {
                let marked = Association { state, delete_pending: true };
                let _ = self.csh_state_queue.remove(at);
                self.csh_state_queue.insert(at, marked);
                assert(self.csh_state_queue@ == old(self).csh_state_queue@.update(at as int, marked));
            }
            csh.set_state(None);
        }
        Ok(())
    }

    /// The place of the first association of `state` that was not given
    /// up; the number of associations where there is none.
    fn find_association(&self, state: &AssociatedCSHState) -> (at: usize)
        ensures
            at == first_association(self@.associations, *state, 0),
            at <= self@.associations.len(),
    {
        let n = self.csh_state_queue.len();
        let mut i: usize = 0;
        while i < n
            invariant
                i <= n,
                n == self.csh_state_queue@.len(),
                first_association(self.csh_state_queue@, *state, 0) == first_association(
                    self.csh_state_queue@,
                    *state,
                    i as int,
                ),
            decreases n - i,
        {
            let entry = self.csh_state_queue[i];
            if entry.state == *state && !entry.delete_pending {
                return i;
            }
            i += 1;
        }
        n
    }

    /// Registers a socket. See `SockSelector::register`.
    pub fn register(
        &mut self,
        socket: u64,
        base_socket: u64,
        token: Token,
        interests: Interest,
    ) -> (result: Result<(), Error>)
        requires
            old(self).wf(),
        ensures
            final(self).wf(),
            final(self)@ == (SelectorView {
                socks: old(self)@.socks.register(socket, base_socket, token, interests),
                ..old(self)@
            }),
            result == (if old(self)@.socks.slot_of(socket) is Some {
                Err::<(), Error>(Error::AlreadyExists)
            } else {
                Ok::<(), Error>(())
            }),
    {
        self.sock_selector.register(socket, base_socket, token, interests)
    }

    /// Changes what a registered socket wants. See
    /// `SockSelector::reregister`.
    pub fn reregister(&mut self, socket: u64, token: Token, interests: Interest) -> (result: Result<
        (),
        Error,
    >)
        requires
            old(self).wf(),
        ensures
            final(self).wf(),
            final(self)@ == (SelectorView {
                socks: old(self)@.socks.reregister(socket, token, interests),
                ..old(self)@
            }),
            result == (if old(self)@.socks.slot_of(socket) is Some {
                Ok::<(), Error>(())
            } else {
                Err::<(), Error>(Error::NotFound)
            }),
    {
        self.sock_selector.reregister(socket, token, interests)
    }

    /// The cancellation that is due before `deregister`, if one is.
    pub fn deregister_request(&self, socket: u64) -> (call: Option<KernelCall>)
        ensures
            call == self@.socks.deregister_request(socket),
    {
        self.sock_selector.deregister_request(socket)
    }

    /// Takes the poll state from a registered socket. See
    /// `SockSelector::deregister`.
    pub fn deregister(&mut self, socket: u64, answer: Result<(), i32>) -> (result: Result<
        (),
        Error,
    >)
        requires
            old(self).wf(),
        ensures
            final(self).wf(),
            final(self)@ == (SelectorView {
                socks: old(self)@.socks.deregister(socket, answer),
                ..old(self)@
            }),
            result == (if old(self)@.socks.slot_of(socket) is Some {
                Ok::<(), Error>(())
            } else {
                Err::<(), Error>(Error::NotFound)
            }),
    {
        self.sock_selector.deregister(socket, answer)
    }

    /// Whether the next registration needs a new poll handle. See
    /// `SockSelector::needs_afd`.
    pub fn needs_afd(&self) -> (needed: bool)
        ensures
            needed == crate::afd_group::needs_new_member(self@.socks.afd_counts),
    {
        self.sock_selector.needs_afd()
    }

    /// The poll state of the registered socket `socket`.
    pub fn get_sock_state(&self, socket: u64) -> (state: Option<SockState>)
        ensures
            state == (match self@.socks.slot_of(socket) {
                Some(slot) => Some(self@.socks.state(slot as int)),
                None => None,
            }),
    {
        self.sock_selector.get_sock_state(socket)
    }

    /// Works off the queue of sockets, one kernel call at a time. See
    /// `SockSelector::update_sockets_events`.
    pub fn update_sockets_events(&mut self, answer: Option<Result<(), i32>>) -> (result: Result<
        Option<KernelCall>,
        Error,
    >)
        requires
            old(self).wf(),
        ensures
            final(self).wf(),
            final(self)@ == (SelectorView { socks: old(self)@.socks.flush(answer), ..old(self)@ }),
            result == old(self)@.socks.flush_result(answer),
    {
        self.sock_selector.update_sockets_events(answer)
    }

    /// Works off the queue of sockets while a wait is under way. See
    /// `SockSelector::update_sockets_events_if_polling`.
    pub fn update_sockets_events_if_polling(&mut self, answer: Option<Result<(), i32>>) -> (result:
        Result<Option<KernelCall>, Error>)
        requires
            old(self).wf(),
        ensures
            final(self).wf(),
            old(self)@.socks.is_polling ==> final(self)@ == (SelectorView {
                socks: old(self)@.socks.flush(answer),
                ..old(self)@
            }) && result == old(self)@.socks.flush_result(answer),
            !old(self)@.socks.is_polling ==> final(self)@ == old(self)@ && result == Ok::<
                Option<KernelCall>,
                Error,
            >(None),
    {
        self.sock_selector.update_sockets_events_if_polling(answer)
    }

    /// Takes down that a wait begins. See
    /// `SockSelector::notify_poll_start`.
    pub fn notify_poll_start(&mut self)
        requires
            old(self).wf(),
            !old(self)@.socks.is_polling,
        ensures
            final(self).wf(),
            final(self)@ == old(self)@.polling(),
    {
        self.sock_selector.notify_poll_start()
    }

    /// Takes down that the wait is over, as when the driver could not
    /// wait. See `SockSelector::notify_poll_end`.
    pub fn notify_poll_end(&mut self)
        requires
            old(self).wf(),
        ensures
            final(self).wf(),
            final(self)@ == (SelectorView {
                socks: SockSelectorView { is_polling: false, ..old(self)@.socks },
                ..old(self)@
            }),
    {
        self.sock_selector.notify_poll_end()
    }

    /// Takes what came off the port after a wait: the wait is over; each
    /// completion goes to the handler that its key names, and the events that
    /// the handlers answer with are added to `events`. Returns the number of
    /// events then held. A wait whose time ran out is no error: it brought
    /// no completion. Every key must name a handler.
    pub fn select2(&mut self, polled: Result<Vec<CompletionStatus>, i32>, events: &mut Vec<Event>)
        -> (result: Result<usize, Error>)
        requires
            old(self).wf(),
            polled matches Ok(completions) ==> keys_known(completions@),
        ensures
            final(self).wf(),
            final(self)@ == old(self)@.select2(polled_view(polled)),
            final(events)@ == old(events)@ + old(self)@.select2_events(polled_view(polled)),
            match polled {
                Ok(_) => result matches Ok(len) && len == final(events)@.len(),
                Err(code) => result == (if code == WAIT_TIMEOUT {
                    Ok::<usize, Error>(0)
                } else {
                    Err::<usize, Error>(Error::Os(code))
                }),
            },
    {
        self.sock_selector.notify_poll_end();
        match polled {
            Ok(completions) => {
                let ghost ended = self.sock_selector@;
                let n = completions.len();
                let mut i: usize = 0;
                while i < n
                    invariant
                        i <= n,
                        n == completions@.len(),
                        keys_known(completions@),
                        self.sock_selector.wf(),
                        self.cp == old(self).cp,
                        self.csh_state_queue == old(self).csh_state_queue,
                        self.sock_selector@ == dispatch(ended, completions@.take(i as int)),
                        events@ == old(events)@ + dispatched_events(
                            ended,
                            completions@.take(i as int),
                        ),
                    decreases n - i,
                {
                    let completion = &completions[i];
                    proof {
                        assert(completions@.take(i + 1).drop_last() == completions@.take(i as int));
                        assert(completions@.take(i + 1).last() == completions@[i as int]);
                    }
                    let event = match from_key(completion.token) {
                        Some(CompletionHandler::Socket) => self.sock_selector.handle_completion(
                            completion,
                        ),
                        Some(CompletionHandler::Waker) => Waker::handle_completion(completion),
                        Some(CompletionHandler::File) => crate::async_file::completion_handler(
                            completion,
                        ),
                        None => None,
                    };
                    match event {
                        Some(e) => events.push(e),
                        None => {},
                    }
                    i += 1;
                }
                assert(completions@.take(n as int) == completions@);
                Ok(events.len())
            },
            Err(code) => {
                if code == WAIT_TIMEOUT {
                    Ok(0)
                } else {
                    Err(Error::Os(code))
                }
            },
        }
    }

    /// One step of a wait.
    ///
    /// The driver begins a wait with `polled` empty: the events are
    /// cleared and a wait on the port is due. It hands in what came off the
    /// port: the completions go to their handlers, and the wait is over,
    /// unless it has no timeout and brought no event: then another wait on
    /// the port is due. A wait without a timeout never ends without an event;
    /// one with a timeout may.
    pub fn select(
        &mut self,
        events: &mut Events,
        timeout: Option<Duration>,
        polled: Option<Result<Vec<CompletionStatus>, i32>>,
    ) -> (result: Result<SelectStep, Error>)
        requires
            old(self).wf(),
            polled is None ==> !old(self)@.socks.is_polling,
            polled matches Some(Ok(completions)) ==> keys_known(completions@),
        ensures
            final(self).wf(),
            final(self)@ == old(self)@.select(old(events)@, timeout is None, came_view(polled)),
            final(events)@ == old(self)@.select_events(old(events)@, came_view(polled)),
            result == old(self)@.select_result(old(events)@, timeout is None, came_view(polled)),
            result == Ok::<SelectStep, Error>(SelectStep::Done) && timeout is None ==> final(events)@.len()
                > 0,
    {
        match polled {
            None => {
                events.clear();
                self.sock_selector.notify_poll_start();
                Ok(SelectStep::Poll)
            },
            Some(came) => {
                let ghost brought = polled_view(came);
                let len = match self.select2(came, events.as_mut_vec()) {
                    Ok(len) => len,
                    Err(e) => return Err(e),
                };
                if timeout.is_none() && len == 0 {
                    proof {
                        if let Ok(completions) = brought {
                            lemma_dispatch_keeps_flag(
                                SockSelectorView { is_polling: false, ..old(self)@.socks },
                                completions,
                            );
                        }
                    }
                    self.sock_selector.notify_poll_start();
                    Ok(SelectStep::Poll)
                } else {
                    Ok(SelectStep::Done)
                }
            },
        }
    }

    /// Takes what a wait without delay brought off the port while the
    /// selector is torn down. The kernel has given up its reference to the
    /// state that each completion of a poll request names. Says whether to
    /// wait again: as long as completions came. When none came, or the wait
    /// failed, the port is drained, and the associations that were given up
    /// are forgotten.
    pub fn drain(&mut self, polled: Result<Vec<CompletionStatus>, i32>) -> (again: bool)
        requires
            old(self).wf(),
        ensures
            final(self).wf(),
            again == (polled matches Ok(completions) && completions@.len() > 0),
            final(self)@.port == old(self)@.port,
            final(self)@.socks == (match polled {
                Ok(completions) => drain_all(old(self)@.socks, completions@),
                Err(_) => old(self)@.socks,
            }),
            final(self)@.associations == (if again {
                old(self)@.associations
            } else {
                kept_associations(old(self)@.associations)
            }),
    {
        let mut events_num: usize = 0;
        match polled {
            Ok(completions) => {
                let n = completions.len();
                events_num = n;
                let mut i: usize = 0;
                while i < n
                    invariant
                        i <= n,
                        n == completions@.len(),
                        self.sock_selector.wf(),
                        self.cp == old(self).cp,
                        self.csh_state_queue == old(self).csh_state_queue,
                        self.sock_selector@ == drain_all(
                            old(self)@.socks,
                            completions@.take(i as int),
                        ),
                    decreases n - i,
                {
                    let completion = &completions[i];
                    proof {
                        assert(completions@.take(i + 1).drop_last() == completions@.take(i as int));
                        assert(completions@.take(i + 1).last() == completions@[i as int]);
                    }
                    if let Some(CompletionHandler::Socket) = from_key(completion.token) {
                        self.sock_selector.drain(completion);
                    }
                    i += 1;
                }
                assert(completions@.take(n as int) == completions@);
            },
            Err(_) => {},
        }
        if events_num == 0 {
            self.forget_dissociated();
            false
        } else {
            true
        }
    }

    /// Forgets the associations that were given up.
    fn forget_dissociated(&mut self)
        ensures
            final(self).cp == old(self).cp,
            final(self).sock_selector == old(self).sock_selector,
            final(self).csh_state_queue@ == kept_associations(old(self).csh_state_queue@),
    {
        let ghost before = self.csh_state_queue@;
        let mut kept: VecDeque<Association> = VecDeque::new();
        let n = self.csh_state_queue.len();
        let mut i: usize = 0;
        while i < n
            invariant
                i <= n,
                n == before.len(),
                self.csh_state_queue@ == before,
                self.cp == old(self).cp,
                self.sock_selector == old(self).sock_selector,
                kept@ == kept_associations(before.take(i as int)),
            decreases n - i,
        {
            let entry = self.csh_state_queue[i];
            proof {
                assert(before.take(i + 1) == before.take(i as int).push(before[i as int]));
                before.take(i as int).lemma_filter_push(before[i as int], is_kept());
            }
            if !entry.delete_pending {
                kept.push_back(entry);
            }
            i += 1;
        }
        assert(before.take(n as int) == before);
        self.csh_state_queue = kept;
    }
}

/// A selector, with the number by which it is told from the others of the
/// process.
#[derive(Debug)]
pub struct Selector {
    pub id: usize,
    pub inner: SelectorInner,
}

impl Selector {
    /// Whether the selector is in order.
    pub open spec fn wf(&self) -> bool {
        self.inner.wf()
    }

    /// The completion port, by its handle.
    pub open spec fn port(&self) -> usize {
        self.inner@.port
    }

    /// A selector for the completion port with the handle `port`. `last_id`
    /// is the number that the selector made before this one was given, zero
    /// for the first: this one gets the next.
    pub fn new(port: usize, last_id: usize) -> (selector: Selector)
        requires
            last_id < usize::MAX,
        ensures
            selector.wf(),
            selector.id == last_id + 1,
            selector.inner@ == SelectorView::empty(port),
    {
        Selector { id: last_id + 1, inner: SelectorInner::new(port) }
    }

    /// The number of this selector.
    pub fn id(&self) -> (id: usize)
        ensures
            id == self.id,
    {
        self.id
    }

    /// The sockets of the selector.
    pub fn sock_selector(&self) -> (socks: &SockSelector)
        ensures
            socks@ == self.inner@.socks,
    {
        self.inner.sock_selector()
    }

    /// The completion port, by its handle.
    pub fn clone_port(&self) -> (port: usize)
        ensures
            port == self.port(),
    {
        self.inner.port()
    }

    /// What the driver has to add to the port for a resource. See
    /// `SelectorInner::register_cp_handle`.
    pub fn register_cp_handle<T>(&self, io_handler: u64, iocp_resource: IocpResource<T>) -> (add:
        AddHandle)
        ensures
            add == (AddHandle { key: 0, handle: io_handler }),
    {
        self.inner.register_cp_handle(io_handler, iocp_resource)
    }

    /// Associates a resource with the port. See
    /// `SelectorInner::associate_cp`.
    pub fn associate_cp<T: HasCompletion>(&mut self, csh: &mut CompletionSourceHandle<T>) -> (result:
        Result<AddHandle, Error>)
        ensures
            final(self).id == old(self).id,
            final(csh).source() == old(csh).source(),
            old(csh).state() is Some ==> result == Err::<AddHandle, Error>(Error::AlreadyExists)
                && final(self).inner@ == old(self).inner@ && final(csh).state() == old(csh).state(),
            old(csh).state() is None ==> (result matches Ok(add) && final(csh).state() matches Some(
                state,
            ) && state.cp == old(self).inner@.port && state.handle == add.handle && add.key
                == spec_as_key(state.completion_handler) && final(self).inner@ == (SelectorView {
                associations: old(self).inner@.associations.push(
                    Association { state, delete_pending: false },
                ),
                ..old(self).inner@
            })),
    {
        self.inner.associate_cp(csh)
    }

    /// Gives up the association of a resource. See
    /// `SelectorInner::dissociate_cp`.
    pub fn dissociate_cp<T: HasCompletion>(&mut self, csh: &mut CompletionSourceHandle<T>) -> (result:
        Result<(), Error>)
        ensures
            result is Ok,
            final(self).id == old(self).id,
            final(csh).source() == old(csh).source(),
            final(csh).state() is None,
            final(self).inner@ == (match old(csh).state() {
                Some(state) => SelectorView {
                    associations: after_dissociate(old(self).inner@.associations, state),
                    ..old(self).inner@
                },
                None => old(self).inner@,
            }),
    {
        self.inner.dissociate_cp(csh)
    }

    /// One step of a wait. See `SelectorInner::select`.
    pub fn select(
        &mut self,
        events: &mut Events,
        timeout: Option<Duration>,
        polled: Option<Result<Vec<CompletionStatus>, i32>>,
    ) -> (result: Result<SelectStep, Error>)
        requires
            old(self).wf(),
            polled is None ==> !old(self).inner@.socks.is_polling,
            polled matches Some(Ok(completions)) ==> keys_known(completions@),
        ensures
            final(self).wf(),
            final(self).id == old(self).id,
            final(self).inner@ == old(self).inner@.select(
                old(events)@,
                timeout is None,
                came_view(polled),
            ),
            final(events)@ == old(self).inner@.select_events(old(events)@, came_view(polled)),
            result == old(self).inner@.select_result(
                old(events)@,
                timeout is None,
                came_view(polled),
            ),
            result == Ok::<SelectStep, Error>(SelectStep::Done) && timeout is None ==> final(events)@.len()
                > 0,
    {
        self.inner.select(events, timeout, polled)
    }

    /// Registers a socket. See `SockSelector::register`.
    pub fn register(
        &mut self,
        socket: u64,
        base_socket: u64,
        token: Token,
        interests: Interest,
    ) -> (result: Result<(), Error>)
        requires
            old(self).wf(),
        ensures
            final(self).wf(),
            final(self).id == old(self).id,
            final(self).inner@ == (SelectorView {
                socks: old(self).inner@.socks.register(socket, base_socket, token, interests),
                ..old(self).inner@
            }),
            result == (if old(self).inner@.socks.slot_of(socket) is Some {
                Err::<(), Error>(Error::AlreadyExists)
            } else {
                Ok::<(), Error>(())
            }),
    {
        self.inner.register(socket, base_socket, token, interests)
    }

    /// Changes what a registered socket wants. See
    /// `SockSelector::reregister`.
    pub fn reregister(&mut self, socket: u64, token: Token, interests: Interest) -> (result: Result<
        (),
        Error,
    >)
        requires
            old(self).wf(),
        ensures
            final(self).wf(),
            final(self).id == old(self).id,
            final(self).inner@ == (SelectorView {
                socks: old(self).inner@.socks.reregister(socket, token, interests),
                ..old(self).inner@
            }),
            result == (if old(self).inner@.socks.slot_of(socket) is Some {
                Ok::<(), Error>(())
            } else {
                Err::<(), Error>(Error::NotFound)
            }),
    {
        self.inner.reregister(socket, token, interests)
    }

    /// Takes the poll state from a registered socket. See
    /// `SockSelector::deregister`.
    pub fn deregister(&mut self, socket: u64, answer: Result<(), i32>) -> (result: Result<
        (),
        Error,
    >)
        requires
            old(self).wf(),
        ensures
            final(self).wf(),
            final(self).id == old(self).id,
            final(self).inner@ == (SelectorView {
                socks: old(self).inner@.socks.deregister(socket, answer),
                ..old(self).inner@
            }),
            result == (if old(self).inner@.socks.slot_of(socket) is Some {
                Ok::<(), Error>(())
            } else {
                Err::<(), Error>(Error::NotFound)
            }),
    {
        self.inner.deregister(socket, answer)
    }
}

} // verus!
