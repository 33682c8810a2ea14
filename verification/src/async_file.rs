//! A file whose reads and writes complete on the port of a selector.

use vstd::prelude::*;
use crate::afd::ERROR_IO_PENDING;
use crate::completion_handler::CompletionHandler;
use crate::completion_source::HasCompletion;
use crate::error::Error;
use crate::event::Event;
use crate::sock_selector::CompletionStatus;

verus! {

/// A file that was opened for operations that complete later, by its
/// handle.
#[derive(Clone, Copy, Debug, PartialEq, Eq, Structural)]
pub struct AsyncFile {
    fd: u64,
}

/// The number of bytes that one operation is asked to move: the length of
/// the buffer, capped at what the kernel takes.
pub open spec fn spec_transfer_len(len: usize) -> u32 {
    if len <= u32::MAX {
        len as u32
    } else {
        u32::MAX
    }
}

/// What the caller of a read or write hears, where the kernel said
/// `submitted` to the operation: `Ok` where it ended at once, else its error
/// code. That the operation is under way is the success of such a call.
pub open spec fn spec_submission(submitted: Result<(), i32>) -> Result<(), Error> {
    match submitted {
        Err(code) => if code == ERROR_IO_PENDING {
            Ok(())
        } else {
            Err(Error::Os(code))
        },
        Ok(_) => Err(Error::Other),
    }
}

/// The number of bytes that a read or write of a buffer of `len` bytes
/// asks the kernel to move.
#[verifier::when_used_as_spec(spec_transfer_len)]
pub fn transfer_len(len: usize) -> (bytes: u32)
    ensures
        bytes == spec_transfer_len(len),
{
    if len <= u32::MAX as usize {
        len as u32
    } else {
        u32::MAX
    }
}

impl AsyncFile {
    /// The handle of the file.
    pub closed spec fn handle(&self) -> u64 {
        self.fd
    }

    /// The file behind a handle that the driver opened.
    pub fn from_raw_handle(handle: u64) -> (file: AsyncFile)
        ensures
            file.handle() == handle,
    {
        AsyncFile { fd: handle }
    }

    /// The handle of the file.
    pub fn as_raw_handle(&self) -> (handle: u64)
        ensures
            handle == self.handle(),
    {
        self.fd
    }

    /// What the caller of a read hears, where the kernel said `submitted`
    /// to it.
    pub fn read(&self, submitted: Result<(), i32>) -> (result: Result<(), Error>)
        ensures
            result == spec_submission(submitted),
    {
        Self::submission(submitted)
    }

    /// What the caller of a write hears, where the kernel said `submitted`
    /// to it.
    pub fn write(&self, submitted: Result<(), i32>) -> (result: Result<(), Error>)
        ensures
            result == spec_submission(submitted),
    {
        Self::submission(submitted)
    }

    fn submission(submitted: Result<(), i32>) -> (result: Result<(), Error>)
        ensures
            result == spec_submission(submitted),
    {
        match submitted {
            Err(code) => {
                if code != ERROR_IO_PENDING {
                    Err(Error::Os(code))
                } else {
                    Ok(())
                }
            },
            Ok(_) => Err(Error::Other),
        }
    }
}

/// The event that the completion of a file operation gives rise to: none.
pub fn completion_handler(oe: &CompletionStatus) -> (event: Option<Event>)
    ensures
        event is None,
{
    None
}

impl HasCompletion for AsyncFile {
    fn complete(&self, oe: &CompletionStatus) -> (done: Option<bool>)
        ensures
            done is None,
    {
        None
    }

    fn get_raw_handle(&self) -> (handle: u64)
        ensures
            handle == self.handle(),
    {
        self.fd
    }

    fn get_completion_handler(&self) -> (handler: CompletionHandler)
        ensures
            handler == CompletionHandler::File,
    {
        CompletionHandler::File
    }
}

} // verus!
