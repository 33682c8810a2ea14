//! Readiness notification for sockets on top of a completion port.
//!
//! The operating system reports the end of an operation; callers want to be
//! told when a socket can be read or written. This crate holds the rules that
//! turn the one into the other: the poll state of each socket, the pool of
//! poll handles that sockets share, the queue of sockets whose poll operation
//! has to be submitted again, and the routing of completions to handlers.
//!
//! Nothing here talks to the operating system. Every function takes the
//! answer of the kernel as a plain value and says, as a plain value, which
//! call the driver has to make next.

pub mod afd;
pub mod afd_group;
pub mod async_file;
pub mod completion_handler;
pub mod completion_source;
pub mod error;
pub mod event;
pub mod interest;
pub mod selector;
pub mod sock_history;
pub mod sock_invariant;
pub mod sock_selector;
pub mod sock_state;
pub mod sock_trace;
pub mod waker;

pub use afd_group::{AfdGroup, POLL_GROUP_MAX_GROUP_SIZE};
pub use async_file::AsyncFile;
pub use completion_handler::CompletionHandler;
pub use completion_source::{
    AssociatedCSHState, Complete, CompletionSourceHandle, FileOpComplete, HasCompletion,
    IocpResource,
};
pub use error::Error;
pub use event::{Event, Events};
pub use interest::{Interest, Token};
pub use selector::{AddHandle, Association, SelectStep, Selector, SelectorInner, SelectorView};
pub use sock_history::SelectorOp;
pub use sock_selector::{
    CompletionStatus, KernelCall, SockEntry, SockSelector, SockSelectorView,
};
pub use sock_state::{interests_to_afd_flags, SockPollStatus, SockRequest, SockState};
pub use sock_trace::SockOp;
pub use waker::Waker;
