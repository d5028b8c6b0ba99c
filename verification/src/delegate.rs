//! The decisions of the futures that hand work to the GUI thread: when the
//! work is dispatched, when the future is still pending, and what it gives back.
//! The dispatch itself, the waking and the polling of the inner future are done
//! by the runtime around these state machines.

use vstd::prelude::*;

verus! {

/// The error that occurs when you're delegating work to the GUI thread, but it
/// fails to finish and/or return a result.
#[derive(Debug, PartialEq, Eq, Structural)]
pub enum DelegateError {
    /// The runtime has either not yet started or already ended.
    /// This happens when the application has already exited for example.
    RuntimeNotAvailable,
    /// The delegated closure has panicked.
    ClosurePanicked,
}

/// The exit code that the runtime is made to return when delegated work
/// panicked on the GUI thread.
pub const PANIC_EXIT_CODE: i32 = -1;

/// What a poll of a delegating future does.
pub enum PollAction<F, R> {
    /// Dispatch `F` to the GUI thread; the future stays pending unless the
    /// dispatch fails.
    Dispatch(F),
    /// The result is not there yet.
    Pending,
    /// The future is done with this result.
    Ready(Result<R, DelegateError>),
}

/// The model of a delegating future: whether it was started, whether it still
/// holds its work, and the result that the GUI thread has put in it.
pub struct DelegateState<R> {
    pub started: bool,
    pub holds_work: bool,
    pub result: Option<Result<R, DelegateError>>,
}

/// The state and the action of one poll of a `DelegateFuture`: the first poll
/// hands the work out for dispatch; later polls give the result once it is
/// there, and take it out of the future.
pub open spec fn delegate_poll<R>(s: DelegateState<R>) -> (DelegateState<R>, Option<Option<Result<R, DelegateError>>>) {
    if !s.started {
        (DelegateState { started: true, holds_work: false, result: s.result }, None)
    } else {
        match s.result {
            None => (s, Some(None)),
            Some(r) => (DelegateState { result: None, ..s }, Some(Some(r))),
        }
    }
}

/// The result that the GUI thread puts in the future for the outcome of the
/// work (`None` where the work panicked), and the exit code that the runtime
/// is then made to return, if any.
pub open spec fn work_outcome<R>(returned: Option<R>) -> (Result<R, DelegateError>, Option<i32>) {
    match returned {
        Some(r) => (Ok(r), None),
        None => (Err(DelegateError::ClosurePanicked), Some(PANIC_EXIT_CODE)),
    }
}

/// The result of a dispatch: a dispatch that the runtime refused makes the
/// future ready with `RuntimeNotAvailable`.
pub open spec fn dispatch_outcome<R>(succeeded: bool) -> Option<Result<R, DelegateError>> {
    if succeeded {
        None
    } else {
        Some(Err(DelegateError::RuntimeNotAvailable))
    }
}

/// Where the GUI thread puts the result of the work, and what the runtime
/// is made to do when the work panicked.
pub fn delegate_outcome<R>(returned: Option<R>) -> (r: (Result<R, DelegateError>, Option<i32>))
    ensures
        r == work_outcome(returned),
{
    match returned {
        Some(v) => (Ok(v), None),
        None => (Err(DelegateError::ClosurePanicked), Some(PANIC_EXIT_CODE)),
    }
}

/// What a dispatch gives: `Pending` where the runtime took the work,
/// `Ready(Err(RuntimeNotAvailable))` where it did not.
pub fn dispatched<F, R>(succeeded: bool) -> (r: PollAction<F, R>)
    ensures
        succeeded ==> r is Pending,
        !succeeded ==> r == PollAction::<F, R>::Ready(Err(DelegateError::RuntimeNotAvailable)),
{
    if succeeded {
        PollAction::Pending
    } else {
        PollAction::Ready(Err(DelegateError::RuntimeNotAvailable))
    }
}

/// This future executes a closure on the GUI thread and returns the result.
pub struct DelegateFuture<O, F, R> {
    handle: O,
    func: Option<F>,
    result: Option<Result<R, DelegateError>>,
    started: bool,
}

impl<O, F, R> DelegateFuture<O, F, R> {
    /// The state of the future.
    pub closed spec fn state(&self) -> DelegateState<R> {
        DelegateState { started: self.started, holds_work: self.func is Some, result: self.result }
    }

    /// The handle that the work is given on the GUI thread.
    pub closed spec fn spec_handle(&self) -> O {
        self.handle
    }

    /// The work that the future still holds, if any.
    pub closed spec fn spec_work(&self) -> Option<F> {
        self.func
    }

    /// The state tells whether the future still holds its work.
    pub proof fn lemma_holds_work(&self)
        ensures
            self.state().holds_work <==> self.spec_work() is Some,
    {
    }

    /// A future that will run `func` on the GUI thread with `handle`.
    pub fn new(handle: O, func: F) -> (r: Self)
        ensures
            r.state() == (DelegateState::<R> { started: false, holds_work: true, result: None }),
            r.spec_handle() == handle,
            r.spec_work() == Some(func),
    {
        Self { handle, func: Some(func), result: None, started: false }
    }

    /// The handle that the work is given on the GUI thread.
    pub fn handle(&self) -> (r: &O)
        ensures
            *r == self.spec_handle(),
    {
        &self.handle
    }

    /// One poll: the first hands the work out to be dispatched, the later ones
    /// give the result once the GUI thread has put it in, taking it out.
    pub fn poll(&mut self) -> (r: PollAction<F, R>)
        ensures
            final(self).state() == delegate_poll(old(self).state()).0,
            final(self).spec_handle() == old(self).spec_handle(),
            !old(self).state().started ==> r == (match old(self).spec_work() {
                Some(f) => PollAction::<F, R>::Dispatch(f),
                None => PollAction::<F, R>::Pending,
            }),
            !old(self).state().started ==> final(self).spec_work() is None,
            old(self).state().started ==> final(self).spec_work() == old(self).spec_work(),
            old(self).state().started ==> match delegate_poll(old(self).state()).1 {
                Some(None) => r is Pending,
                Some(Some(res)) => r == PollAction::<F, R>::Ready(res),
                None => false,
            },
    {
        if !self.started {
            self.started = true;
            match self.func.take() {
                Some(f) => PollAction::Dispatch(f),
                None => PollAction::Pending,
            }
        } else {
            match self.result.take() {
                None => PollAction::Pending,
                Some(r) => PollAction::Ready(r),
            }
        }
    }

    /// The GUI thread puts the result of the work in the future.
    pub fn complete(&mut self, result: Result<R, DelegateError>)
        ensures
            final(self).state() == (DelegateState { result: Some(result), ..old(self).state() }),
            final(self).spec_handle() == old(self).spec_handle(),
            final(self).spec_work() == old(self).spec_work(),
    {
        self.result = Some(result);
    }
}

/// The model of a future that runs a future on the GUI thread: whether it was
/// started, and the result that the GUI thread has put in it.
pub struct FutureState<R> {
    pub started: bool,
    pub result: Option<Result<R, DelegateError>>,
}

/// What the GUI thread does with one poll of the inner future: `None` where
/// the poll panicked, `Some(None)` where the future is pending,
/// `Some(Some(r))` where it gave `r`. It puts a result in, if any, and makes
/// the runtime exit with an exit code, if any.
pub open spec fn inner_poll_outcome<R>(polled: Option<Option<R>>) -> (Option<Result<R, DelegateError>>, Option<i32>) {
    match polled {
        Some(None) => (None, None),
        Some(Some(r)) => (Some(Ok(r)), None),
        None => (Some(Err(DelegateError::ClosurePanicked)), Some(PANIC_EXIT_CODE)),
    }
}

/// What the GUI thread does with one poll of the inner future; see
/// `inner_poll_outcome`.
pub fn async_outcome<R>(polled: Option<Option<R>>) -> (r: (Option<Result<R, DelegateError>>, Option<i32>))
    ensures
        r == inner_poll_outcome(polled),
{
    match polled {
        Some(None) => (None, None),
        Some(Some(v)) => (Some(Ok(v)), None),
        None => (Some(Err(DelegateError::ClosurePanicked)), Some(PANIC_EXIT_CODE)),
    }
}

/// This future runs a future on the GUI thread and returns its output.
pub struct DelegateFutureFuture<A, Fut, R> {
    app_handle: A,
    future: Fut,
    result: Option<Result<R, DelegateError>>,
    started: bool,
}

impl<A, Fut, R> DelegateFutureFuture<A, Fut, R> {
    /// The state of the future.
    pub closed spec fn state(&self) -> FutureState<R> {
        FutureState { started: self.started, result: self.result }
    }

    /// A future that will run `future` on the GUI thread of `app_handle`.
    pub fn new(app_handle: A, future: Fut) -> (r: Self)
        ensures
            r.state() == (FutureState::<R> { started: false, result: None }),
            r.spec_app_handle() == app_handle,
            r.spec_future() == future,
    {
        Self { app_handle, future, result: None, started: false }
    }

    /// The application handle whose GUI thread runs the future.
    pub closed spec fn spec_app_handle(&self) -> A {
        self.app_handle
    }

    /// The inner future.
    pub closed spec fn spec_future(&self) -> Fut {
        self.future
    }

    /// The application handle whose GUI thread runs the future.
    pub fn app_handle(&self) -> (r: &A)
        ensures
            *r == self.spec_app_handle(),
    {
        &self.app_handle
    }

    /// The inner future, to be polled on the GUI thread.
    pub fn future_mut(&mut self) -> (r: &mut Fut)
        ensures
            *r == old(self).spec_future(),
            final(self).spec_future() == *final(r),
            final(self).spec_app_handle() == old(self).spec_app_handle(),
            final(self).state() == old(self).state(),
    {
        &mut self.future
    }

    /// One poll: the first asks for the inner future to be dispatched to the
    /// GUI thread (`Dispatch`); a later one is `Pending` until the GUI thread
    /// has put a result in, and then gives that result, taking it out.
    pub fn poll(&mut self) -> (r: PollAction<(), R>)
        ensures
            !old(self).state().started ==> r == PollAction::<(), R>::Dispatch(()),
            !old(self).state().started ==> final(self).state() == (FutureState {
                started: true,
                result: old(self).state().result,
            }),
            old(self).state().started ==> r == (match old(self).state().result {
                Some(res) => PollAction::<(), R>::Ready(res),
                None => PollAction::<(), R>::Pending,
            }),
            old(self).state().started ==> final(self).state() == (FutureState::<R> {
                started: true,
                result: None,
            }),
            final(self).spec_app_handle() == old(self).spec_app_handle(),
            final(self).spec_future() == old(self).spec_future(),
    {
        if !self.started {
            self.started = true;
            PollAction::Dispatch(())
        } else {
            match self.result.take() {
                Some(res) => PollAction::Ready(res),
                None => PollAction::Pending,
            }
        }
    }

    /// The GUI thread puts a result in the future.
    pub fn complete(&mut self, result: Result<R, DelegateError>)
        ensures
            final(self).state() == (FutureState { result: Some(result), ..old(self).state() }),
            final(self).spec_app_handle() == old(self).spec_app_handle(),
            final(self).spec_future() == old(self).spec_future(),
    {
        self.result = Some(result);
    }
}

/// A delegating future hands its work out exactly once: the first poll of a
/// new future dispatches it, and no later poll dispatches again.
pub proof fn law_dispatch_once<R>(s: DelegateState<R>)
    ensures
        delegate_poll(s).0.started,
        !delegate_poll(s).0.holds_work || s.started,
        s.started ==> delegate_poll(s).1 is Some,
{
}

/// A delegating future gives back exactly what the GUI thread put in: after
/// the first poll, the work's outcome put in by the GUI thread, the next poll
/// is ready with that outcome, and the future is empty again afterwards.
pub proof fn law_result_delivered<R>(returned: Option<R>)
    ensures
        ({
            let s0 = DelegateState::<R> { started: false, holds_work: true, result: None };
            let s1 = delegate_poll(s0).0;
            let s2 = DelegateState { result: Some(work_outcome(returned).0), ..s1 };
            let (s3, out) = delegate_poll(s2);
            &&& out == Some(Some(work_outcome(returned).0))
            &&& s3.result is None
            &&& delegate_poll(s3).1 == Some(None::<Result<R, DelegateError>>)
        }),
{
}

/// Work that panics on the GUI thread gives `ClosurePanicked` and makes the
/// runtime return -1; work that returns gives its value and leaves the runtime
/// alone.
pub proof fn law_panic_exit_code<R>(returned: Option<R>)
    ensures
        returned is None ==> work_outcome(returned) == (
        Err::<R, DelegateError>(DelegateError::ClosurePanicked),
        Some(-1i32),
        ),
        returned matches Some(v) ==> work_outcome(returned) == (Ok::<R, DelegateError>(v), None::<i32>),
        inner_poll_outcome::<R>(None).1 == Some(-1i32),
{
}

} // verus!
