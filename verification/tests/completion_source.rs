use iocp_selector::afd::{AfdPollInfo, IoStatusBlock, ERROR_IO_PENDING};
use iocp_selector::async_file::{completion_handler, transfer_len};
use iocp_selector::{
    AddHandle, AssociatedCSHState, Association, AsyncFile, Complete, CompletionHandler,
    CompletionSourceHandle, CompletionStatus, Error, FileOpComplete, HasCompletion, IocpResource,
    SelectorInner,
};

fn file_completion(bytes: u32) -> CompletionStatus {
    CompletionStatus {
        bytes_transferred: bytes,
        token: 3,
        overlapped: 0x2000,
        iosb: IoStatusBlock::zeroed(),
        poll_info: AfdPollInfo::zeroed(),
    }
}

#[test]
fn association_is_recorded_on_the_resource() {
    let mut selector = SelectorInner::new(0x44);
    let mut csh = CompletionSourceHandle::new(AsyncFile::from_raw_handle(0x80));
    assert_eq!(csh.get_state(), None);
    let add = selector.associate_cp(&mut csh).unwrap();
    assert_eq!(add, AddHandle { key: 3, handle: 0x80 });
    assert_eq!(
        csh.get_state(),
        Some(AssociatedCSHState {
            cp: 0x44,
            handle: 0x80,
            completion_handler: CompletionHandler::File,
        })
    );
    assert_eq!(csh.get_completion_source().as_raw_handle(), 0x80);
}

#[test]
fn associating_twice_is_refused() {
    let mut selector = SelectorInner::new(0x44);
    let mut csh = CompletionSourceHandle::new(AsyncFile::from_raw_handle(0x80));
    selector.associate_cp(&mut csh).unwrap();
    let before = csh.get_state();
    assert_eq!(selector.associate_cp(&mut csh), Err(Error::AlreadyExists));
    assert_eq!(csh.get_state(), before);
}

#[test]
fn associate_says_what_to_add_to_the_port() {
    let mut selector = SelectorInner::new(0x44);
    let (state, add) = selector.associate(0x90, CompletionHandler::Waker);
    assert_eq!(
        state,
        AssociatedCSHState { cp: 0x44, handle: 0x90, completion_handler: CompletionHandler::Waker }
    );
    assert_eq!(add, AddHandle { key: 2, handle: 0x90 });
    assert_eq!(AssociatedCSHState::new(0x44, 0x90, CompletionHandler::Waker), state);
}

#[test]
fn dissociation_leaves_the_resource_free_to_associate_again() {
    let mut selector = SelectorInner::new(0x44);
    let mut csh = CompletionSourceHandle::new(AsyncFile::from_raw_handle(0x80));
    assert_eq!(selector.dissociate_cp(&mut csh), Ok(()));
    selector.associate_cp(&mut csh).unwrap();
    assert_eq!(selector.dissociate_cp(&mut csh), Ok(()));
    assert_eq!(csh.get_state(), None);
    assert!(selector.associate_cp(&mut csh).is_ok());
    assert!(!selector.drain(Ok(Vec::new())));
    assert!(csh.get_state().is_some());
}

#[test]
fn set_state_puts_the_record_in_place() {
    let mut csh = CompletionSourceHandle::new(AsyncFile::from_raw_handle(0x80));
    let state = AssociatedCSHState::new(1, 2, CompletionHandler::File);
    csh.set_state(Some(state));
    assert_eq!(csh.get_state(), Some(state));
    csh.set_state(None);
    assert_eq!(csh.get_state(), None);
}

#[test]
fn association_record_is_plain() {
    let kept = Association {
        state: AssociatedCSHState::new(1, 2, CompletionHandler::File),
        delete_pending: false,
    };
    assert_eq!(kept.state.handle, 2);
    assert!(!kept.delete_pending);
}

#[test]
fn cp_handle_is_added_under_key_zero() {
    let selector = SelectorInner::new(0x44);
    let resource = IocpResource::new(FileOpComplete {}, 4);
    assert_eq!(resource.get_completion_handler(), 0);
    assert_eq!(
        selector.register_cp_handle(0x70, resource),
        AddHandle { key: 0, handle: 0x70 }
    );
}

#[test]
fn clone_of_a_resource_shares_its_state() {
    let resource = IocpResource::new(vec![1u8, 2, 3], 4);
    let other = resource.clone();
    assert_eq!(other.num_overlapped(), 4);
    assert_eq!(other.get_complete(), &vec![1u8, 2, 3]);
    assert!(std::ptr::eq(resource.get_complete(), other.get_complete()));
}

#[test]
fn file_operation_gives_no_event() {
    let done = file_completion(12);
    assert_eq!(FileOpComplete {}.complete(&done), None);
    assert_eq!(completion_handler(&done), None);
    let file = AsyncFile::from_raw_handle(0x80);
    assert_eq!(HasCompletion::complete(&file, &done), None);
    assert_eq!(file.get_raw_handle(), 0x80);
    assert_eq!(file.get_completion_handler(), CompletionHandler::File);
}

#[test]
fn transfer_is_capped_at_what_the_kernel_takes() {
    assert_eq!(transfer_len(0), 0);
    assert_eq!(transfer_len(20), 20);
    assert_eq!(transfer_len(u32::MAX as usize), u32::MAX);
    assert_eq!(transfer_len(u32::MAX as usize + 1), u32::MAX);
    assert_eq!(transfer_len(usize::MAX), u32::MAX);
}

#[test]
fn operation_under_way_is_the_success_of_a_read_or_write() {
    let file = AsyncFile::from_raw_handle(0x80);
    assert_eq!(file.read(Err(ERROR_IO_PENDING)), Ok(()));
    assert_eq!(file.write(Err(ERROR_IO_PENDING)), Ok(()));
    assert_eq!(file.read(Err(5)), Err(Error::Os(5)));
    assert_eq!(file.write(Err(112)), Err(Error::Os(112)));
    assert_eq!(file.read(Ok(())), Err(Error::Other));
    assert_eq!(file.write(Ok(())), Err(Error::Other));
}

#[test]
fn given_up_association_is_kept_until_the_port_is_drained() {
    let mut selector = SelectorInner::new(0x44);
    let mut first = CompletionSourceHandle::new(AsyncFile::from_raw_handle(0x80));
    let mut second = CompletionSourceHandle::new(AsyncFile::from_raw_handle(0x81));
    selector.associate_cp(&mut first).unwrap();
    selector.associate_cp(&mut second).unwrap();
    let record = first.get_state().unwrap();
    assert_eq!(selector.association(0), Some(Association { state: record, delete_pending: false }));
    assert_eq!(selector.association(2), None);

    selector.dissociate_cp(&mut first).unwrap();
    assert_eq!(selector.association(0), Some(Association { state: record, delete_pending: true }));
    assert_eq!(selector.association(1).unwrap().state.handle, 0x81);
    assert!(!selector.association(1).unwrap().delete_pending);

    let stray = file_completion(4);
    assert!(selector.drain(Ok(vec![stray])));
    assert!(selector.association(0).unwrap().delete_pending);
    assert!(!selector.drain(Ok(Vec::new())));
    assert_eq!(selector.association(0).unwrap().state.handle, 0x81);
    assert_eq!(selector.association(1), None);
}

#[test]
fn association_of_the_same_handle_twice_gives_up_the_first_that_is_kept() {
    let mut selector = SelectorInner::new(0x44);
    let mut first = CompletionSourceHandle::new(AsyncFile::from_raw_handle(0x80));
    let mut second = CompletionSourceHandle::new(AsyncFile::from_raw_handle(0x80));
    selector.associate_cp(&mut first).unwrap();
    selector.associate_cp(&mut second).unwrap();
    selector.dissociate_cp(&mut first).unwrap();
    selector.dissociate_cp(&mut second).unwrap();
    assert!(selector.association(0).unwrap().delete_pending);
    assert!(selector.association(1).unwrap().delete_pending);
    assert!(!selector.drain(Err(258)));
    assert_eq!(selector.association(0), None);
}

#[test]
fn selector_hands_associations_on_to_its_state() {
    let mut selector = iocp_selector::Selector::new(0x44, 0);
    let mut csh = CompletionSourceHandle::new(AsyncFile::from_raw_handle(0x80));
    assert_eq!(selector.associate_cp(&mut csh), Ok(AddHandle { key: 3, handle: 0x80 }));
    assert_eq!(selector.associate_cp(&mut csh), Err(Error::AlreadyExists));
    assert_eq!(selector.inner.association(0).unwrap().state.cp, 0x44);
    assert_eq!(selector.dissociate_cp(&mut csh), Ok(()));
    assert!(selector.inner.association(0).unwrap().delete_pending);
    assert_eq!(
        selector.register_cp_handle(0x71, IocpResource::new(FileOpComplete {}, 1)),
        AddHandle { key: 0, handle: 0x71 }
    );
    assert_eq!(
        iocp_selector::completion_source::register_cp_handle(
            &selector,
            0x72,
            IocpResource::new(FileOpComplete {}, 1)
        ),
        AddHandle { key: 0, handle: 0x72 }
    );
}
