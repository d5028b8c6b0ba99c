use browser_window::delegate::{
    async_outcome, delegate_outcome, dispatched, DelegateError, DelegateFuture,
    DelegateFutureFuture, PollAction, PANIC_EXIT_CODE,
};

#[test]
fn delegate_future_dispatches_once_and_delivers_the_result() {
    let mut fut: DelegateFuture<u8, &str, i32> = DelegateFuture::new(9, "work");
    assert_eq!(*fut.handle(), 9);
    assert!(matches!(fut.poll(), PollAction::Dispatch("work")));
    assert!(matches!(fut.poll(), PollAction::Pending));
    let (result, exit) = delegate_outcome(Some(5));
    assert_eq!(exit, None);
    fut.complete(result);
    assert!(matches!(fut.poll(), PollAction::Ready(Ok(5))));
    assert!(matches!(fut.poll(), PollAction::Pending));
}

#[test]
fn delegate_panic_gives_closure_panicked_and_exit_code() {
    let (result, exit) = delegate_outcome::<i32>(None);
    assert_eq!(result, Err(DelegateError::ClosurePanicked));
    assert_eq!(exit, Some(-1));
    assert_eq!(PANIC_EXIT_CODE, -1);
}

#[test]
fn refused_dispatch_gives_runtime_not_available() {
    assert!(matches!(
        dispatched::<(), i32>(false),
        PollAction::Ready(Err(DelegateError::RuntimeNotAvailable))
    ));
    assert!(matches!(dispatched::<(), i32>(true), PollAction::Pending));
}

#[test]
fn delegate_future_future_polls() {
    let mut fut: DelegateFutureFuture<u8, u16, i32> = DelegateFutureFuture::new(1, 2);
    assert_eq!(*fut.app_handle(), 1);
    *fut.future_mut() = 3;
    assert!(matches!(fut.poll(), PollAction::Dispatch(())));
    assert!(matches!(fut.poll(), PollAction::Pending));
    assert!(matches!(fut.poll(), PollAction::Pending));
    fut.complete(Ok(11));
    assert!(matches!(fut.poll(), PollAction::Ready(Ok(11))));
    assert!(matches!(fut.poll(), PollAction::Pending));
}

#[test]
fn inner_poll_outcomes() {
    assert_eq!(async_outcome::<i32>(Some(None)), (None, None));
    assert_eq!(async_outcome(Some(Some(4))), (Some(Ok(4)), None));
    assert_eq!(
        async_outcome::<i32>(None),
        (Some(Err(DelegateError::ClosurePanicked)), Some(-1))
    );
}
