//! Waking a thread that waits on the completion port.

use vstd::prelude::*;
use crate::afd::{AfdPollInfo, IoStatusBlock, POLL_RECEIVE};
use crate::completion_handler::{as_key, spec_as_key, CompletionHandler};
use crate::error::Error;
use crate::event::Event;
use crate::interest::Token;
use crate::selector::Selector;
use crate::sock_selector::CompletionStatus;

verus! {

/// Wakes the thread that waits on a selector, under a token of its own.
#[derive(Debug)]
pub struct Waker {
    token: Token,
    port: usize,
}

impl Waker {
    /// The token under which the waiting thread hears of a wake.
    pub closed spec fn token(&self) -> Token {
        self.token
    }

    /// The completion port on which the waker posts.
    pub closed spec fn port(&self) -> usize {
        self.port
    }

    /// The completion that `wake` posts: no bytes, the key of the handler
    /// of wakes, and the token in place of the word of an operation.
    pub open spec fn wake_status(token: Token) -> CompletionStatus {
        CompletionStatus {
            bytes_transferred: 0,
            token: spec_as_key(CompletionHandler::Waker),
            overlapped: token.0 as u64,
            iosb: IoStatusBlock { status: 0, information: 0 },
            poll_info: AfdPollInfo {
                timeout: 0,
                number_of_handles: 0,
                exclusive: 0,
                handles: crate::afd::AfdPollHandleInfo { handle: 0, events: 0, status: 0 },
            },
        }
    }

    /// A waker for the port of `selector`.
    pub fn new(selector: &Selector, token: Token) -> (waker: Result<Waker, Error>)
        ensures
            waker matches Ok(w) && w.token() == token && w.port() == selector.port(),
    {
        Ok(Waker { token, port: selector.clone_port() })
    }

    /// The completion that the driver posts on the port to wake the thread
    /// that waits there.
    pub fn wake(&self) -> (status: CompletionStatus)
        ensures
            status == Self::wake_status(self.token()),
    {
        CompletionStatus {
            bytes_transferred: 0,
            token: as_key(CompletionHandler::Waker),
            overlapped: self.token.0 as u64,
            iosb: IoStatusBlock::zeroed(),
            poll_info: AfdPollInfo::zeroed(),
        }
    }

    /// The event of a wake: receive, under the word of the completion.
    pub open spec fn spec_handle_completion(completion: CompletionStatus) -> Option<Event> {
        Some(Event { flags: POLL_RECEIVE, data: completion.overlapped })
    }

    /// The event that the completion of a wake gives rise to: always one,
    /// with the receive flag and the token that the waker was made with.
    pub fn handle_completion(completion: &CompletionStatus) -> (event: Option<Event>)
        ensures
            event == Self::spec_handle_completion(*completion),
    {
        Some(Event { flags: POLL_RECEIVE, data: completion.overlapped })
    }

    /// A wake arrives as one event with the receive flag and the token of
    /// the waker.
    pub proof fn lemma_wake_arrives(token: Token)
        ensures
            crate::completion_handler::spec_from_key(Self::wake_status(token).token) == Some(
                CompletionHandler::Waker,
            ),
            Self::spec_handle_completion(Self::wake_status(token)) == Some(
                Event { flags: POLL_RECEIVE, data: token.0 as u64 },
            ),
    {
    }
}

} // verus!
